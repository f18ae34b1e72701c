//! The mount lifecycle decisions: the deterministic encoded sibling that
//! shelters the real directory while the mount is up, the guard that owns
//! the injector chain and its enabled flag, and the recovery-loop decision.
//! The syscalls — rename, mount, unmount, namespace entry — run outside and
//! report their outcomes back to these functions.

use vstd::prelude::*;
use crate::attr::FileAttr;
use crate::filter::{str_chars, Method};
use crate::multi_injector::{
    spec_chain_attr, spec_chain_inject, spec_config_error, spec_inject_reply, ConfigError,
    InjectorConfig, MultiInjector, entry_built,
};
use crate::reply::Reply;

verus! {

/// The suffix of the encoded sibling path. The encoding must only be
/// deterministic in the original path and collision-free against normal
/// file names; an unusual fixed suffix gives both.
pub open spec fn spec_sibling_suffix() -> Seq<char> {
    "__fsinject"@
}

/// The encoded sibling of a path: the original with the fixed suffix.
pub open spec fn spec_encoded(p: Seq<char>) -> Seq<char> {
    p + spec_sibling_suffix()
}

/// Derive the encoded sibling path that shelters the real directory while
/// the mount is interposed.
pub fn encode_path(p: &[char]) -> (v: Vec<char>)
    ensures
        v@ == spec_encoded(p@),
{
    let mut v = crate::hookfs::copy_chars(p);
    let suffix = str_chars("__fsinject");
    let mut i: usize = 0;
    while i < suffix.len()
        invariant
            i <= suffix@.len(),
            suffix@ == spec_sibling_suffix(),
            v@ == p@ + suffix@.subrange(0, i as int),
        decreases suffix@.len() - i,
    {
        v.push(suffix[i]);
        assert(v@ =~= p@ + suffix@.subrange(0, i as int + 1));
        i += 1;
    }
    assert(v@ =~= spec_encoded(p@));
    v
}

/// The encoding is injective: two paths with the same sibling are the same
/// path, so distinct directories never collide on their shelter.
pub proof fn lemma_encode_injective(p1: Seq<char>, p2: Seq<char>)
    requires
        spec_encoded(p1) == spec_encoded(p2),
    ensures
        p1 == p2,
{
    assert((p1 + spec_sibling_suffix()).len() == p1.len() + spec_sibling_suffix().len());
    assert((p2 + spec_sibling_suffix()).len() == p2.len() + spec_sibling_suffix().len());
    assert(p1.len() == p2.len());
    assert(p1 =~= spec_encoded(p1).subrange(0, p1.len() as int));
    assert(p2 =~= spec_encoded(p2).subrange(0, p2.len() as int));
}

/// What one of the two directory slots holds while injection is staged:
/// the real directory, the interposed mount, or nothing.
#[derive(Clone, Copy, PartialEq, Eq, Structural, Debug)]
pub enum SlotState {
    RealDir,
    FuseMount,
    Absent,
}

/// The two slots the injection touches: the original path and its encoded
/// sibling.
#[derive(Clone, Copy, PartialEq, Eq, Structural, Debug)]
pub struct DirSlots {
    pub original: SlotState,
    pub sibling: SlotState,
}

/// The state at rest: the real directory at the original path, no sibling.
pub open spec fn spec_slots_at_rest() -> DirSlots {
    DirSlots { original: SlotState::RealDir, sibling: SlotState::Absent }
}

/// The slots after the inject dance: the original path renamed aside to the
/// sibling, a mount interposed at the original path.
pub open spec fn spec_slots_injected() -> DirSlots {
    DirSlots { original: SlotState::FuseMount, sibling: SlotState::RealDir }
}

/// Track the inject dance on the slot model: rename the original aside,
/// then mount over the original path. Only a resting state may be injected.
pub fn apply_inject(d: DirSlots) -> (r: Result<DirSlots, ()>)
    ensures
        d == spec_slots_at_rest() ==> r == Ok::<DirSlots, ()>(spec_slots_injected()),
        d != spec_slots_at_rest() ==> r is Err,
{
    if d.original == SlotState::RealDir && d.sibling == SlotState::Absent {
        Ok(DirSlots { original: SlotState::FuseMount, sibling: SlotState::RealDir })
    } else {
        Err(())
    }
}

/// Track the recover dance on the slot model: unmount the original path,
/// then rename the sibling back. Only an injected state may be recovered.
pub fn apply_recover(d: DirSlots) -> (r: Result<DirSlots, ()>)
    ensures
        d == spec_slots_injected() ==> r == Ok::<DirSlots, ()>(spec_slots_at_rest()),
        d != spec_slots_injected() ==> r is Err,
{
    if d.original == SlotState::FuseMount && d.sibling == SlotState::RealDir {
        Ok(DirSlots { original: SlotState::RealDir, sibling: SlotState::Absent })
    } else {
        Err(())
    }
}

/// The slots after recovering an injected state.
pub open spec fn spec_recover(d: DirSlots) -> DirSlots {
    if d == spec_slots_injected() {
        spec_slots_at_rest()
    } else {
        d
    }
}

/// The slots after injecting a resting state.
pub open spec fn spec_inject_slots(d: DirSlots) -> DirSlots {
    if d == spec_slots_at_rest() {
        spec_slots_injected()
    } else {
        d
    }
}

/// Round trip: inject then recover restores the resting state — the
/// original path holds the real directory again and the sibling is gone, so
/// the view at the original path is what it was before the injection, up to
/// what the target itself wrote through the mount while it was up.
pub proof fn lemma_mount_round_trip(d: DirSlots)
    requires
        d == spec_slots_at_rest(),
    ensures
        spec_inject_slots(d) != d,
        spec_recover(spec_inject_slots(d)) == d,
{
}

/// The guard of one live injection: the original path, its encoded backing
/// sibling, the injector chain, and whether the chain is consulted. It is
/// created disabled; dropping it outside tears the session down.
#[derive(Debug)]
pub struct MountGuard {
    pub enabled: bool,
    pub original_path: Vec<char>,
    pub backing_path: Vec<char>,
    pub injectors: MultiInjector,
}

impl MountGuard {
    /// Stage an injection for a directory: derive the backing sibling and
    /// build the chain from the configuration. The guard starts disabled.
    /// Fails exactly when the configuration is invalid, with its first
    /// error.
    pub fn create_injection(path: Vec<char>, conf: Vec<InjectorConfig>) -> (r: Result<
        MountGuard,
        ConfigError,
    >)
        ensures
            match r {
                Ok(g) => {
                    &&& spec_config_error(conf@) is None
                    &&& !g.enabled
                    &&& g.original_path@ == path@
                    &&& g.backing_path@ == spec_encoded(path@)
                    &&& g.injectors.injectors@.len() == conf@.len()
                    &&& forall|i: int|
                        0 <= i < conf@.len() ==> entry_built(
                            conf@[i],
                            #[trigger] g.injectors.injectors@[i],
                            i as u64,
                        )
                },
                Err(e) => spec_config_error(conf@) == Some(e),
            },
    {
        let injectors = match MultiInjector::build(conf) {
            Ok(mi) => mi,
            Err(e) => {
                return Err(e);
            },
        };
        let backing_path = encode_path(path.as_slice());
        Ok(MountGuard { enabled: false, original_path: path, backing_path, injectors })
    }

    /// Turn the chain on: from now on every operation consults it.
    pub fn enable_injection(&mut self)
        ensures
            final(self).enabled,
            final(self).original_path == old(self).original_path,
            final(self).backing_path == old(self).backing_path,
            final(self).injectors == old(self).injectors,
    {
        self.enabled = true;
    }

    /// Turn the chain off: operations pass through untouched again.
    pub fn disable_injection(&mut self)
        ensures
            !final(self).enabled,
            final(self).original_path == old(self).original_path,
            final(self).backing_path == old(self).backing_path,
            final(self).injectors == old(self).injectors,
    {
        self.enabled = false;
    }

    /// Consult the chain before an operation. While the guard is disabled
    /// the chain is bypassed: no delay, no errno, no generator stepped.
    pub fn before_op(&mut self, m: Method, path: &[char]) -> (r: (u64, Result<(), i32>))
        ensures
            final(self).enabled == old(self).enabled,
            final(self).original_path == old(self).original_path,
            final(self).backing_path == old(self).backing_path,
            ({
                if !old(self).enabled {
                    &&& r == (0u64, Ok::<(), i32>(()))
                    &&& final(self).injectors == old(self).injectors
                } else {
                    let s = spec_chain_inject(old(self).injectors.injectors@, m, path@);
                    &&& final(self).injectors.injectors@ == s.0
                    &&& r.0 as nat == if s.1 <= u64::MAX {
                        s.1
                    } else {
                        u64::MAX as nat
                    }
                    &&& r.1 == s.2
                }
            }),
    {
        if self.enabled {
            self.injectors.inject(m, path)
        } else {
            (0, Ok(()))
        }
    }

    /// Let the chain rewrite an attribute record about to be replied, when
    /// the guard is enabled; otherwise leave it untouched.
    pub fn on_attr(&self, attr: &mut FileAttr, path: &[char])
        ensures
            *final(attr) == if self.enabled {
                spec_chain_attr(self.injectors.injectors@, *old(attr), path@)
            } else {
                *old(attr)
            },
    {
        if self.enabled {
            self.injectors.inject_attr(attr, path);
        }
    }

    /// Let the chain rewrite the reply of one operation, when the guard is
    /// enabled; otherwise hand it back unchanged.
    pub fn on_reply(&self, method: Method, path: &[char], reply: &mut Reply) -> (r: Result<
        (),
        i32,
    >)
        ensures
            r is Ok,
            *final(reply) == if self.enabled {
                spec_inject_reply(self.injectors.injectors@, *old(reply), path@)
            } else {
                *old(reply)
            },
    {
        if self.enabled {
            self.injectors.inject_reply(method, path, reply)
        } else {
            Ok(())
        }
    }
}

/// Where the orchestration stands.
#[derive(Clone, Copy, PartialEq, Eq, Structural, Debug)]
pub enum MountStage {
    Unmounted,
    Preparing,
    MountedDisabled,
    MountedEnabled,
    Recovering,
}

/// What happened outside: the completion of one phase of the dance.
#[derive(Clone, Copy, PartialEq, Eq, Structural, Debug)]
pub enum MountEvent {
    BeginInject,
    MountCompleted,
    EnableRequested,
    SignalReceived,
    RecoverCompleted,
}

/// The lifecycle transition table: begin takes an unmounted state into
/// preparation; a completed mount leaves injection disabled until it is
/// enabled explicitly; a signal starts recovery from either mounted state;
/// a completed recovery unmounts. Nothing else is a transition.
pub open spec fn spec_lifecycle_step(s: MountStage, e: MountEvent) -> Option<MountStage> {
    match (s, e) {
        (MountStage::Unmounted, MountEvent::BeginInject) => Some(MountStage::Preparing),
        (MountStage::Preparing, MountEvent::MountCompleted) => Some(MountStage::MountedDisabled),
        (MountStage::MountedDisabled, MountEvent::EnableRequested) => Some(
            MountStage::MountedEnabled,
        ),
        (MountStage::MountedDisabled, MountEvent::SignalReceived) => Some(MountStage::Recovering),
        (MountStage::MountedEnabled, MountEvent::SignalReceived) => Some(MountStage::Recovering),
        (MountStage::Recovering, MountEvent::RecoverCompleted) => Some(MountStage::Unmounted),
        _ => None,
    }
}

/// Advance the lifecycle on one completed phase. An event that the current
/// stage does not expect is refused and the stage stands.
pub fn lifecycle_step(s: MountStage, e: MountEvent) -> (r: Result<MountStage, ()>)
    ensures
        match spec_lifecycle_step(s, e) {
            Some(next) => r == Ok::<MountStage, ()>(next),
            None => r is Err,
        },
{
    match (s, e) {
        (MountStage::Unmounted, MountEvent::BeginInject) => Ok(MountStage::Preparing),
        (MountStage::Preparing, MountEvent::MountCompleted) => Ok(MountStage::MountedDisabled),
        (MountStage::MountedDisabled, MountEvent::EnableRequested) => Ok(
            MountStage::MountedEnabled,
        ),
        (MountStage::MountedDisabled, MountEvent::SignalReceived) => Ok(MountStage::Recovering),
        (MountStage::MountedEnabled, MountEvent::SignalReceived) => Ok(MountStage::Recovering),
        (MountStage::Recovering, MountEvent::RecoverCompleted) => Ok(MountStage::Unmounted),
        _ => Err(()),
    }
}

/// The ordinary life of an injection visits every stage once and comes back
/// to the unmounted state.
pub proof fn lemma_lifecycle_round_trip()
    ensures
        ({
            let s1 = spec_lifecycle_step(MountStage::Unmounted, MountEvent::BeginInject);
            let s2 = spec_lifecycle_step(s1->0, MountEvent::MountCompleted);
            let s3 = spec_lifecycle_step(s2->0, MountEvent::EnableRequested);
            let s4 = spec_lifecycle_step(s3->0, MountEvent::SignalReceived);
            let s5 = spec_lifecycle_step(s4->0, MountEvent::RecoverCompleted);
            s1 is Some && s2 is Some && s3 is Some && s4 is Some && s5 == Some(
                MountStage::Unmounted,
            )
        }),
{
}

/// How often a busy unmount is retried before recovery gives up and leaves
/// the cleanup to the operator.
pub const MAX_UNMOUNT_ATTEMPTS: u64 = 16;

/// What the recovery loop does next.
#[derive(Clone, Copy, PartialEq, Eq, Structural, Debug)]
pub enum RecoverStep {
    Retry,
    Done,
    GiveUp,
}

/// One decision of the recovery loop. Injection is switched off before
/// anything else, whatever happens to the unmount. A clean unmount finishes
/// the recovery; a failed one is retried until the attempt budget is spent,
/// then the loop gives up and the operator unmounts and renames by hand.
pub fn resume(guard: &mut MountGuard, attempt: u64, unmount: Result<(), i32>) -> (r: RecoverStep)
    ensures
        !final(guard).enabled,
        final(guard).original_path == old(guard).original_path,
        final(guard).backing_path == old(guard).backing_path,
        final(guard).injectors == old(guard).injectors,
        r == (if unmount is Ok {
            RecoverStep::Done
        } else if attempt + 1 < MAX_UNMOUNT_ATTEMPTS {
            RecoverStep::Retry
        } else {
            RecoverStep::GiveUp
        }),
{
    guard.disable_injection();
    match unmount {
        Ok(_) => RecoverStep::Done,
        Err(_) => {
            if attempt < MAX_UNMOUNT_ATTEMPTS - 1 {
                RecoverStep::Retry
            } else {
                RecoverStep::GiveUp
            }
        },
    }
}

} // verus!
