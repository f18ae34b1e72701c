use fsinject::attr::{apply_overrides, AttrOverrides, FileAttr, FileKind, TimeSpec};
use fsinject::duration::parse_duration;
use fsinject::filter::{glob_match, parse_method, Method};
use fsinject::hookfs::{HandleTable, InodeTable, EBADF, ENOENT};
use fsinject::mount::{
    apply_inject, apply_recover, encode_path, lifecycle_step, resume, DirSlots, MountEvent,
    MountGuard, MountStage, RecoverStep, SlotState,
};
use fsinject::multi_injector::{
    AttrOverrideConfig, ConfigError, FaultRuleConfig, InjectorConfig, LatencyConfig, MultiInjector,
};
use fsinject::prng::Prng;
use fsinject::replacer::{prepare_plan, FdRecord};
use fsinject::reply::Reply;
use fsinject::tracer::TracerRegistry;

fn chars(s: &str) -> Vec<char> {
    s.chars().collect()
}

fn sample_attr() -> FileAttr {
    FileAttr {
        ino: 2,
        size: 42,
        blocks: 1,
        atime: TimeSpec { sec: 10, nsec: 0 },
        mtime: TimeSpec { sec: 11, nsec: 0 },
        ctime: TimeSpec { sec: 12, nsec: 0 },
        crtime: TimeSpec { sec: 13, nsec: 0 },
        kind: FileKind::RegularFile,
        perm: 0o644,
        nlink: 1,
        uid: 1000,
        gid: 1000,
        rdev: 0,
        flags: 0,
    }
}

fn fault_entry(methods: &[&str], path: &str, errno: i32, percent: u8) -> InjectorConfig {
    InjectorConfig::Fault(vec![FaultRuleConfig {
        methods: methods.iter().map(|m| chars(m)).collect(),
        path: chars(path),
        errno,
        percent,
    }])
}

fn latency_entry(methods: &[&str], path: &str, delay: &str, percent: u8) -> InjectorConfig {
    InjectorConfig::Latency(LatencyConfig {
        methods: methods.iter().map(|m| chars(m)).collect(),
        path: chars(path),
        delay: chars(delay),
        percent,
    })
}

fn size_override(path: &str, size: u64) -> InjectorConfig {
    let mut ov = AttrOverrides::none();
    ov.size = Some(size);
    InjectorConfig::AttrOverride(AttrOverrideConfig { path: chars(path), overrides: ov })
}

#[test]
fn empty_config_is_passthrough() {
    let mut mi = MultiInjector::build(Vec::new()).unwrap();
    let (delay, res) = mi.inject(Method::Read, &chars("/hello"));
    assert_eq!(delay, 0);
    assert!(res.is_ok());
    let mut attr = sample_attr();
    mi.inject_attr(&mut attr, &chars("/hello"));
    assert_eq!(attr, sample_attr());
    let mut reply = Reply::Data { data: vec![b'h', b'i', b'\n'] };
    mi.inject_reply(Method::Read, &chars("/hello"), &mut reply).unwrap();
    assert_eq!(reply, Reply::Data { data: vec![b'h', b'i', b'\n'] });
}

#[test]
fn fault_on_open_short_circuits() {
    let conf = vec![fault_entry(&["open"], "/forbidden", 13, 100)];
    let mut mi = MultiInjector::build(conf).unwrap();
    let (delay, res) = mi.inject(Method::Open, &chars("/forbidden"));
    assert_eq!(delay, 0);
    assert_eq!(res, Err(13));
    let (_, res) = mi.inject(Method::Open, &chars("/other"));
    assert!(res.is_ok());
    let (_, res) = mi.inject(Method::Read, &chars("/forbidden"));
    assert!(res.is_ok());
}

#[test]
fn latency_on_read_has_lower_bound() {
    let conf = vec![latency_entry(&["read"], "*", "200ms", 100)];
    let mut mi = MultiInjector::build(conf).unwrap();
    let (delay, res) = mi.inject(Method::Read, &chars("/one-byte"));
    assert!(res.is_ok());
    assert_eq!(delay, 200_000_000);
    let (delay, res) = mi.inject(Method::Write, &chars("/one-byte"));
    assert!(res.is_ok());
    assert_eq!(delay, 0);
}

#[test]
fn attr_override_size_only() {
    let conf = vec![size_override("/zero", 1048576)];
    let mut mi = MultiInjector::build(conf).unwrap();
    let mut attr = sample_attr();
    mi.inject_attr(&mut attr, &chars("/zero"));
    assert_eq!(attr.size, 1048576);
    let mut expected = sample_attr();
    expected.size = 1048576;
    assert_eq!(attr, expected);
    // Content reads are not faulted by an attribute override.
    let (delay, res) = mi.inject(Method::Read, &chars("/zero"));
    assert_eq!(delay, 0);
    assert!(res.is_ok());
    // A non-matching path keeps its attributes.
    let mut other = sample_attr();
    mi.inject_attr(&mut other, &chars("/data"));
    assert_eq!(other, sample_attr());
}

#[test]
fn composed_chain_delays_then_faults() {
    let conf = vec![
        latency_entry(&["open"], "*", "200ms", 100),
        fault_entry(&["open"], "/f", 13, 100),
    ];
    let mut mi = MultiInjector::build(conf).unwrap();
    let (delay, res) = mi.inject(Method::Open, &chars("/f"));
    assert_eq!(delay, 200_000_000);
    assert_eq!(res, Err(13));
}

#[test]
fn zero_percent_never_fires() {
    let conf = vec![fault_entry(&["open"], "*", 13, 0)];
    let mut mi = MultiInjector::build(conf).unwrap();
    for _ in 0..32 {
        let (_, res) = mi.inject(Method::Open, &chars("/f"));
        assert!(res.is_ok());
    }
}

#[test]
fn first_matching_fault_rule_wins() {
    let conf = vec![InjectorConfig::Fault(vec![
        FaultRuleConfig { methods: vec![chars("open")], path: chars("/a/*"), errno: 13, percent: 100 },
        FaultRuleConfig { methods: vec![chars("open")], path: chars("*"), errno: 5, percent: 100 },
    ])];
    let mut mi = MultiInjector::build(conf).unwrap();
    let (_, res) = mi.inject(Method::Open, &chars("/a/x"));
    assert_eq!(res, Err(13));
    let (_, res) = mi.inject(Method::Open, &chars("/b"));
    assert_eq!(res, Err(5));
}

#[test]
fn build_rejects_unknown_method() {
    let conf = vec![fault_entry(&["fly"], "*", 13, 100)];
    assert_eq!(MultiInjector::build(conf).unwrap_err(), ConfigError::UnknownMethod);
}

#[test]
fn build_rejects_bad_percent() {
    let conf = vec![fault_entry(&["open"], "*", 13, 101)];
    assert_eq!(MultiInjector::build(conf).unwrap_err(), ConfigError::InvalidPercent);
}

#[test]
fn build_rejects_bad_duration() {
    let conf = vec![latency_entry(&["read"], "*", "fast", 100)];
    assert_eq!(MultiInjector::build(conf).unwrap_err(), ConfigError::InvalidDuration);
    let conf = vec![latency_entry(&["read"], "*", "10fortnights", 100)];
    assert_eq!(MultiInjector::build(conf).unwrap_err(), ConfigError::InvalidDuration);
}

#[test]
fn build_reports_first_error() {
    let conf = vec![
        latency_entry(&["read"], "*", "oops", 100),
        fault_entry(&["fly"], "*", 13, 100),
    ];
    assert_eq!(MultiInjector::build(conf).unwrap_err(), ConfigError::InvalidDuration);
}

#[test]
fn duration_parsing() {
    assert_eq!(parse_duration(&chars("200ms")), Some(200_000_000));
    assert_eq!(parse_duration(&chars("2s")), Some(2_000_000_000));
    assert_eq!(parse_duration(&chars("7us")), Some(7_000));
    assert_eq!(parse_duration(&chars("3ns")), Some(3));
    assert_eq!(parse_duration(&chars("1m")), Some(60_000_000_000));
    assert_eq!(parse_duration(&chars("1h")), Some(3_600_000_000_000));
    assert_eq!(parse_duration(&chars("")), None);
    assert_eq!(parse_duration(&chars("ms")), None);
    assert_eq!(parse_duration(&chars("5")), None);
    assert_eq!(parse_duration(&chars("5x")), None);
    assert_eq!(parse_duration(&chars("99999999999999999999s")), None);
}

#[test]
fn glob_matching() {
    assert!(glob_match(&chars("*"), &chars("/any/path")));
    assert!(glob_match(&chars("/forbidden"), &chars("/forbidden")));
    assert!(!glob_match(&chars("/forbidden"), &chars("/forbidden/child")));
    assert!(glob_match(&chars("/a/*"), &chars("/a/b/c")));
    assert!(!glob_match(&chars("/a/*"), &chars("/b/x")));
    assert!(glob_match(&chars("a?c"), &chars("abc")));
    assert!(!glob_match(&chars("a?c"), &chars("ac")));
    assert!(glob_match(&chars("*.log"), &chars("x/y.log")));
    assert!(!glob_match(&chars("*.log"), &chars("x/y.txt")));
    assert!(glob_match(&chars(""), &chars("")));
    assert!(!glob_match(&chars(""), &chars("a")));
}

#[test]
fn method_tags_parse() {
    assert_eq!(parse_method(&chars("open")), Some(Method::Open));
    assert_eq!(parse_method(&chars("readdir")), Some(Method::ReadDir));
    assert_eq!(parse_method(&chars("getattr")), Some(Method::GetAttr));
    assert_eq!(parse_method(&chars("setxattr")), Some(Method::SetXattr));
    assert_eq!(parse_method(&chars("bmap")), Some(Method::Bmap));
    assert_eq!(parse_method(&chars("Open")), None);
    assert_eq!(parse_method(&chars("frobnicate")), None);
    assert_eq!(parse_method(&chars("")), None);
}

#[test]
fn override_fidelity_per_field() {
    let mut ov = AttrOverrides::none();
    ov.mode = Some(0o400);
    ov.uid = Some(0);
    let mut attr = sample_attr();
    apply_overrides(&ov, &mut attr);
    assert_eq!(attr.perm, 0o400);
    assert_eq!(attr.uid, 0);
    let mut expected = sample_attr();
    expected.perm = 0o400;
    expected.uid = 0;
    assert_eq!(attr, expected);
}

#[test]
fn inode_pinning_counts_forgets() {
    let mut t = InodeTable::new();
    let ino = t.lookup(1, &chars("hello")).unwrap();
    assert_eq!(ino, 2);
    let again = t.lookup(1, &chars("hello")).unwrap();
    assert_eq!(again, 2);
    assert_eq!(t.path_of(2).unwrap(), chars("/hello"));
    assert!(!t.forget(2, 1));
    assert_eq!(t.path_of(2).unwrap(), chars("/hello"));
    assert!(t.forget(2, 1));
    assert!(t.path_of(2).is_none());
    // A nested child of a pinned entry gets a fresh number.
    let d = t.lookup(1, &chars("dir")).unwrap();
    let c = t.lookup(d, &chars("leaf")).unwrap();
    assert_ne!(d, c);
    assert_eq!(t.path_of(c).unwrap(), chars("/dir/leaf"));
    // An unknown parent is rejected.
    assert_eq!(t.lookup(9999, &chars("x")), Err(ENOENT));
}

#[test]
fn forget_over_count_drops_entry() {
    let mut t = InodeTable::new();
    let ino = t.lookup(1, &chars("f")).unwrap();
    let ino2 = t.lookup(1, &chars("f")).unwrap();
    assert_eq!(ino, ino2);
    assert!(t.forget(ino, 5));
    assert!(t.path_of(ino).is_none());
    assert!(!t.forget(ino, 1));
}

#[test]
fn handle_closure_once_and_only_once() {
    let mut h = HandleTable::new();
    let fh = h.open(5);
    assert_eq!(h.get(fh), Some(5));
    assert_eq!(h.release(fh), Ok(5));
    assert_eq!(h.get(fh), None);
    assert_eq!(h.release(fh), Err(EBADF));
    let fh2 = h.open(6);
    assert_ne!(fh, fh2);
}

#[test]
fn descriptor_plan_rewrites_under_base() {
    let records = vec![
        FdRecord { fd: 7, path: chars("/tmp/d/log"), flags: 1024, offset: 5 },
        FdRecord { fd: 8, path: chars("/var/other"), flags: 0, offset: 0 },
        FdRecord { fd: 9, path: chars("/tmp/d"), flags: 0, offset: 0 },
        FdRecord { fd: 10, path: chars("/tmp/dx"), flags: 0, offset: 0 },
    ];
    let plan = prepare_plan(&records, &chars("/tmp/d"), &chars("/tmp/d__fsinject"));
    assert_eq!(plan.len(), 2);
    assert_eq!(plan[0].fd, 7);
    assert_eq!(plan[0].new_path, chars("/tmp/d__fsinject/log"));
    assert_eq!(plan[0].flags, 1024);
    assert_eq!(plan[0].offset, 5);
    assert_eq!(plan[1].fd, 9);
    assert_eq!(plan[1].new_path, chars("/tmp/d__fsinject"));
}

#[test]
fn descriptor_plan_round_trips() {
    let records = vec![FdRecord { fd: 7, path: chars("/tmp/d/log"), flags: 1024, offset: 5 }];
    let forward = prepare_plan(&records, &chars("/tmp/d"), &chars("/tmp/d__fsinject"));
    let back_records = vec![FdRecord {
        fd: forward[0].fd,
        path: forward[0].new_path.clone(),
        flags: forward[0].flags,
        offset: forward[0].offset,
    }];
    let back = prepare_plan(&back_records, &chars("/tmp/d__fsinject"), &chars("/tmp/d"));
    assert_eq!(back[0].new_path, chars("/tmp/d/log"));
    assert_eq!(back[0].offset, 5);
}

#[test]
fn encoded_sibling_is_deterministic() {
    assert_eq!(encode_path(&chars("/tmp/d")), chars("/tmp/d__fsinject"));
    assert_eq!(encode_path(&chars("/tmp/d")), encode_path(&chars("/tmp/d")));
    assert_ne!(encode_path(&chars("/tmp/a")), encode_path(&chars("/tmp/b")));
}

#[test]
fn guard_gates_the_chain() {
    let conf = vec![fault_entry(&["open"], "*", 13, 100)];
    let mut g = MountGuard::create_injection(chars("/tmp/d"), conf).unwrap();
    assert!(!g.enabled);
    assert_eq!(g.backing_path, chars("/tmp/d__fsinject"));
    // Disabled: the chain is bypassed.
    let (delay, res) = g.before_op(Method::Open, &chars("/x"));
    assert_eq!(delay, 0);
    assert!(res.is_ok());
    let mut attr = sample_attr();
    g.on_attr(&mut attr, &chars("/x"));
    assert_eq!(attr, sample_attr());
    // Enabled: the fault fires.
    g.enable_injection();
    let (_, res) = g.before_op(Method::Open, &chars("/x"));
    assert_eq!(res, Err(13));
    g.disable_injection();
    let (_, res) = g.before_op(Method::Open, &chars("/x"));
    assert!(res.is_ok());
}

#[test]
fn reply_rewrite_touches_only_attr_shapes() {
    let conf = vec![size_override("*", 7)];
    let g = {
        let mut g = MountGuard::create_injection(chars("/tmp/d"), conf).unwrap();
        g.enable_injection();
        g
    };
    let mut entry = Reply::Entry { attr: sample_attr(), generation: 3 };
    g.on_reply(Method::Lookup, &chars("/f"), &mut entry).unwrap();
    match entry {
        Reply::Entry { attr, generation } => {
            assert_eq!(attr.size, 7);
            assert_eq!(generation, 3);
        }
        _ => panic!("reply shape changed"),
    }
    let mut data = Reply::Data { data: vec![1, 2, 3] };
    g.on_reply(Method::Read, &chars("/f"), &mut data).unwrap();
    assert_eq!(data, Reply::Data { data: vec![1, 2, 3] });
}

#[test]
fn resume_retries_busy_unmounts() {
    let mut g = MountGuard::create_injection(chars("/tmp/d"), Vec::new()).unwrap();
    g.enable_injection();
    assert_eq!(resume(&mut g, 0, Err(16)), RecoverStep::Retry);
    assert!(!g.enabled);
    assert_eq!(resume(&mut g, 1, Err(16)), RecoverStep::Retry);
    assert_eq!(resume(&mut g, 2, Ok(())), RecoverStep::Done);
    assert_eq!(resume(&mut g, 15, Err(16)), RecoverStep::GiveUp);
}

#[test]
fn slots_round_trip() {
    let rest = DirSlots { original: SlotState::RealDir, sibling: SlotState::Absent };
    let injected = apply_inject(rest).unwrap();
    assert_eq!(injected.original, SlotState::FuseMount);
    assert_eq!(injected.sibling, SlotState::RealDir);
    assert!(apply_inject(injected).is_err());
    let recovered = apply_recover(injected).unwrap();
    assert_eq!(recovered, rest);
    assert!(apply_recover(rest).is_err());
}

#[test]
fn prng_is_deterministic_and_bounded() {
    let mut a = Prng::new(7);
    let mut b = Prng::new(7);
    for _ in 0..64 {
        let ra = a.roll();
        assert_eq!(ra, b.roll());
        assert!(ra < 100);
    }
}

#[test]
fn tracer_attach_is_refcounted() {
    let mut reg = TracerRegistry::new();
    assert!(reg.attach(42)); // first attach stops the threads
    assert!(!reg.attach(42)); // a second client only shares
    assert!(reg.attach(7)); // another process is its own attachment
    assert!(!reg.detach(42)); // one share back: still stopped
    assert!(reg.detach(42)); // last share back: resume
    assert!(!reg.detach(42)); // nothing left to detach
    assert!(reg.detach(7));
}

#[test]
fn lifecycle_visits_every_stage_once() {
    let s = MountStage::Unmounted;
    let s = lifecycle_step(s, MountEvent::BeginInject).unwrap();
    assert_eq!(s, MountStage::Preparing);
    let s = lifecycle_step(s, MountEvent::MountCompleted).unwrap();
    assert_eq!(s, MountStage::MountedDisabled);
    // Enabling is an explicit step; a signal may also arrive while disabled.
    let s = lifecycle_step(s, MountEvent::EnableRequested).unwrap();
    assert_eq!(s, MountStage::MountedEnabled);
    let s = lifecycle_step(s, MountEvent::SignalReceived).unwrap();
    assert_eq!(s, MountStage::Recovering);
    let s = lifecycle_step(s, MountEvent::RecoverCompleted).unwrap();
    assert_eq!(s, MountStage::Unmounted);
    // An event the stage does not expect is refused.
    assert!(lifecycle_step(MountStage::Unmounted, MountEvent::SignalReceived).is_err());
    assert!(lifecycle_step(MountStage::MountedEnabled, MountEvent::BeginInject).is_err());
}
