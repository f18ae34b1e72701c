//! The injector chain: an ordered sequence of fault, latency and
//! attribute-override injectors built once from the configuration document.
//!
//! Before an operation runs, `inject` walks the chain in order: latency
//! injectors accumulate delay, and the first fault that fires short-circuits
//! the walk, so the operation is suppressed and its errno becomes the reply.
//! After an operation produced a reply, `inject_reply` gives every injector
//! a chance to mutate it; mutations accumulate in chain order.

use vstd::prelude::*;
use crate::attr::{AttrOverrides, FileAttr};
use crate::duration::{parse_duration, spec_parse_duration};
use crate::filter::{parse_method, spec_parse_method, Method};
use crate::injector::{
    fault_first_idx, inject_one, lemma_fault_first_idx_bounds, spec_inject_one,
    spec_inject_one_attr, AttrOverrideInjector, FaultInjector, FaultRule, Injector,
    LatencyInjector,
};
use crate::prng::{lemma_full_percent_always_fires, Prng};
use crate::filter::spec_selects;
use crate::reply::{reply_attr, reply_with_attr, Reply};

verus! {

/// One fault rule as the configuration document spells it: method tags by
/// name, a path glob, an errno and a firing percentage.
#[derive(Debug)]
pub struct FaultRuleConfig {
    pub methods: Vec<Vec<char>>,
    pub path: Vec<char>,
    pub errno: i32,
    pub percent: u8,
}

/// One latency record as the configuration document spells it; the delay is
/// a duration string such as `200ms`.
#[derive(Debug)]
pub struct LatencyConfig {
    pub methods: Vec<Vec<char>>,
    pub path: Vec<char>,
    pub delay: Vec<char>,
    pub percent: u8,
}

/// One attribute-override record: a path glob and the field overrides.
#[derive(Debug)]
pub struct AttrOverrideConfig {
    pub path: Vec<char>,
    pub overrides: AttrOverrides,
}

/// One entry of the configuration document, tagged by variant.
#[derive(Debug)]
pub enum InjectorConfig {
    Fault(Vec<FaultRuleConfig>),
    Latency(LatencyConfig),
    AttrOverride(AttrOverrideConfig),
}

/// Why a configuration document was rejected.
#[derive(Clone, Copy, PartialEq, Eq, Structural, Debug)]
pub enum ConfigError {
    UnknownMethod,
    InvalidPercent,
    InvalidDuration,
}

/// The views of a list of method tags.
pub open spec fn name_views(ms: Seq<Vec<char>>) -> Seq<Seq<char>> {
    ms.map_values(|v: Vec<char>| v@)
}

/// Every tag in the list is a known method name.
pub open spec fn spec_methods_valid(names: Seq<Seq<char>>) -> bool {
    forall|i: int| 0 <= i < names.len() ==> spec_parse_method(names[i]) is Some
}

/// The methods a list of valid tags names, in order.
pub open spec fn spec_parse_methods(names: Seq<Seq<char>>) -> Seq<Method> {
    Seq::new(names.len(), |i: int| spec_parse_method(names[i])->0)
}

/// The error one fault rule earns, if any: unknown tags first, then an
/// out-of-range percentage.
pub open spec fn spec_fault_rule_error(c: FaultRuleConfig) -> Option<ConfigError> {
    if !spec_methods_valid(name_views(c.methods@)) {
        Some(ConfigError::UnknownMethod)
    } else if c.percent > 100 {
        Some(ConfigError::InvalidPercent)
    } else {
        None
    }
}

/// The first error in a list of fault rules.
pub open spec fn spec_fault_rules_error(cs: Seq<FaultRuleConfig>) -> Option<ConfigError>
    decreases cs.len(),
{
    if cs.len() == 0 {
        None
    } else if spec_fault_rule_error(cs[0]) is Some {
        spec_fault_rule_error(cs[0])
    } else {
        spec_fault_rules_error(cs.drop_first())
    }
}

/// The error one configuration entry earns, if any.
pub open spec fn spec_entry_error(c: InjectorConfig) -> Option<ConfigError> {
    match c {
        InjectorConfig::Fault(rules) => spec_fault_rules_error(rules@),
        InjectorConfig::Latency(l) => {
            if !spec_methods_valid(name_views(l.methods@)) {
                Some(ConfigError::UnknownMethod)
            } else if l.percent > 100 {
                Some(ConfigError::InvalidPercent)
            } else if spec_parse_duration(l.delay@) is None {
                Some(ConfigError::InvalidDuration)
            } else {
                None
            }
        },
        InjectorConfig::AttrOverride(_) => None,
    }
}

/// The first error in the configuration document; the whole document is
/// valid exactly when there is none.
pub open spec fn spec_config_error(cs: Seq<InjectorConfig>) -> Option<ConfigError>
    decreases cs.len(),
{
    if cs.len() == 0 {
        None
    } else if spec_entry_error(cs[0]) is Some {
        spec_entry_error(cs[0])
    } else {
        spec_config_error(cs.drop_first())
    }
}

/// The fault injector inside a chain element.
pub open spec fn fault_of(inj: Injector) -> FaultInjector {
    match inj {
        Injector::Fault(f) => f,
        _ => arbitrary(),
    }
}

/// The latency injector inside a chain element.
pub open spec fn latency_of(inj: Injector) -> LatencyInjector {
    match inj {
        Injector::Latency(l) => l,
        _ => arbitrary(),
    }
}

/// The attribute-override injector inside a chain element.
pub open spec fn attr_override_of(inj: Injector) -> AttrOverrideInjector {
    match inj {
        Injector::AttrOverride(a) => a,
        _ => arbitrary(),
    }
}

/// A built fault rule carries the parsed methods, the same glob, errno and
/// percent as its configuration record.
pub open spec fn fault_rule_built(c: FaultRuleConfig, r: FaultRule) -> bool {
    &&& r.methods@ == spec_parse_methods(name_views(c.methods@))
    &&& r.path_pattern@ == c.path@
    &&& r.errno == c.errno
    &&& r.percent == c.percent
}

/// A built chain element reflects its configuration entry, with its own
/// generator seeded from the entry's position.
pub open spec fn entry_built(c: InjectorConfig, inj: Injector, seed: u64) -> bool {
    match c {
        InjectorConfig::Fault(rules) => {
            &&& inj is Fault
            &&& fault_of(inj).prng.state == seed
            &&& fault_of(inj).rules@.len() == rules@.len()
            &&& forall|j: int|
                0 <= j < rules@.len() ==> fault_rule_built(
                    rules@[j],
                    #[trigger] fault_of(inj).rules@[j],
                )
        },
        InjectorConfig::Latency(l) => {
            &&& inj is Latency
            &&& latency_of(inj).methods@ == spec_parse_methods(name_views(l.methods@))
            &&& latency_of(inj).path_pattern@ == l.path@
            &&& Some(latency_of(inj).delay_ns) == spec_parse_duration(l.delay@)
            &&& latency_of(inj).percent == l.percent
            &&& latency_of(inj).prng.state == seed
        },
        InjectorConfig::AttrOverride(a) => {
            &&& inj is AttrOverride
            &&& attr_override_of(inj).path_pattern@ == a.path@
            &&& attr_override_of(inj).overrides == a.overrides
        },
    }
}

fn parse_methods(names: &Vec<Vec<char>>) -> (r: Result<Vec<Method>, ConfigError>)
    ensures
        match r {
            Ok(v) => spec_methods_valid(name_views(names@)) && v@ == spec_parse_methods(
                name_views(names@),
            ),
            Err(e) => e == ConfigError::UnknownMethod && !spec_methods_valid(name_views(names@)),
        },
{
    let mut out: Vec<Method> = Vec::new();
    let mut i: usize = 0;
    while i < names.len()
        invariant
            i <= names@.len(),
            out@.len() == i,
            forall|k: int|
                0 <= k < i ==> spec_parse_method(#[trigger] name_views(names@)[k]) is Some,
            forall|k: int|
                0 <= k < i ==> #[trigger] out@[k] == spec_parse_method(name_views(names@)[k])->0,
        decreases names@.len() - i,
    {
        match parse_method(names[i].as_slice()) {
            Some(m) => {
                out.push(m);
            },
            None => {
                assert(spec_parse_method(name_views(names@)[i as int]) is None);
                return Err(ConfigError::UnknownMethod);
            },
        }
        i += 1;
    }
    assert(out@ =~= spec_parse_methods(name_views(names@)));
    Ok(out)
}

#[verifier::loop_isolation(false)]
fn build_fault_rules(rules: Vec<FaultRuleConfig>) -> (r: Result<Vec<FaultRule>, ConfigError>)
    ensures
        match r {
            Ok(v) => spec_fault_rules_error(rules@) is None && v@.len() == rules@.len()
                && forall|j: int|
                0 <= j < rules@.len() ==> fault_rule_built(rules@[j], #[trigger] v@[j]),
            Err(e) => spec_fault_rules_error(rules@) == Some(e),
        },
{
    let ghost rules0 = rules@;
    let mut rules = rules;
    let total = rules.len();
    let mut out: Vec<FaultRule> = Vec::new();
    let mut i: usize = 0;
    while rules.len() != 0
        invariant
            total == rules0.len(),
            rules@ == rules0.skip(i as int),
            i + rules@.len() == rules0.len(),
            out@.len() == i,
            spec_fault_rules_error(rules0) == spec_fault_rules_error(rules@),
            forall|j: int| 0 <= j < i ==> fault_rule_built(rules0[j], #[trigger] out@[j]),
        decreases rules@.len(),
    {
        let ghost pre = rules@;
        let c = rules.remove(0);
        assert(rules@ =~= rules0.skip(i as int + 1));
        assert(pre[0] == rules0[i as int]);
        let methods = match parse_methods(&c.methods) {
            Ok(v) => v,
            Err(e) => {
                assert(spec_fault_rule_error(pre[0]) == Some(e));
                assert(spec_fault_rules_error(pre) == Some(e));
                return Err(e);
            },
        };
        if c.percent > 100 {
            assert(spec_fault_rule_error(pre[0]) == Some(ConfigError::InvalidPercent));
            assert(spec_fault_rules_error(pre) == Some(ConfigError::InvalidPercent));
            return Err(ConfigError::InvalidPercent);
        }
        proof {
            assert(spec_fault_rule_error(pre[0]) is None);
            assert(spec_fault_rules_error(pre) == spec_fault_rules_error(pre.drop_first()));
            assert(pre.drop_first() =~= rules0.skip(i as int + 1));
        }
        out.push(
            FaultRule {
                methods,
                path_pattern: c.path,
                errno: c.errno,
                percent: c.percent,
            },
        );
        i += 1;
    }
    assert(rules0.skip(i as int).len() == 0);
    Ok(out)
}

/// The whole injector chain, in configuration order.
#[derive(Debug)]
pub struct MultiInjector {
    pub injectors: Vec<Injector>,
}

/// What the chain does to one call: the chain state after it, the total
/// delay asked for, and the first error an injector short-circuits with.
/// Injectors after a short circuit are not consulted.
pub open spec fn spec_chain_inject(injs: Seq<Injector>, m: Method, path: Seq<char>) -> (
    Seq<Injector>,
    nat,
    Result<(), i32>,
)
    decreases injs.len(),
{
    if injs.len() == 0 {
        (injs, 0nat, Ok::<(), i32>(()))
    } else {
        let head = spec_inject_one(injs[0], m, path);
        if head.2 is Err {
            (seq![head.0] + injs.drop_first(), head.1 as nat, head.2)
        } else {
            let rest = spec_chain_inject(injs.drop_first(), m, path);
            (seq![head.0] + rest.0, (head.1 + rest.1) as nat, rest.2)
        }
    }
}

/// What the chain does to an attribute record on the reply path: every
/// element sees it, in order.
pub open spec fn spec_chain_attr(injs: Seq<Injector>, attr: FileAttr, path: Seq<char>) -> FileAttr
    decreases injs.len(),
{
    if injs.len() == 0 {
        attr
    } else {
        spec_chain_attr(injs.drop_first(), spec_inject_one_attr(injs[0], attr, path), path)
    }
}

/// What the chain does to a reply: the attribute record it carries, if any,
/// runs through the chain; every other reply shape passes unchanged.
pub open spec fn spec_inject_reply(injs: Seq<Injector>, reply: Reply, path: Seq<char>) -> Reply {
    if reply_attr(reply) is Some {
        reply_with_attr(reply, spec_chain_attr(injs, reply_attr(reply)->0, path))
    } else {
        reply
    }
}

fn chain_inject_rec(injs: Vec<Injector>, m: Method, path: &[char]) -> (r: (
    Vec<Injector>,
    u64,
    Result<(), i32>,
))
    ensures
        ({
            let s = spec_chain_inject(injs@, m, path@);
            &&& r.0@ == s.0
            &&& r.1 as nat == if s.1 <= u64::MAX {
                s.1
            } else {
                u64::MAX as nat
            }
            &&& r.2 == s.2
        }),
    decreases injs@.len(),
{
    let ghost injs0 = injs@;
    let mut injs = injs;
    if injs.len() == 0 {
        (injs, 0, Ok(()))
    } else {
        let head = injs.remove(0);
        assert(injs@ =~= injs0.drop_first());
        let (h2, d0, e0) = inject_one(head, m, path);
        if e0.is_err() {
            injs.insert(0, h2);
            assert(injs@ =~= seq![h2] + injs0.drop_first());
            (injs, d0, e0)
        } else {
            let (rest, d1, e1) = chain_inject_rec(injs, m, path);
            let mut rest = rest;
            rest.insert(0, h2);
            assert(rest@ =~= seq![h2] + spec_chain_inject(injs0.drop_first(), m, path@).0);
            let d = d0.saturating_add(d1);
            (rest, d, e1)
        }
    }
}

impl MultiInjector {
    /// Build the chain from the configuration document. The document is
    /// valid exactly when every method tag is known, every percentage is at
    /// most 100 and every delay parses; the first offence, in document
    /// order, is the error. Each element gets its own generator, seeded
    /// deterministically from its position.
    #[verifier::loop_isolation(false)]
    pub fn build(conf: Vec<InjectorConfig>) -> (r: Result<MultiInjector, ConfigError>)
        ensures
            match r {
                Ok(mi) => {
                    &&& spec_config_error(conf@) is None
                    &&& mi.injectors@.len() == conf@.len()
                    &&& forall|i: int|
                        0 <= i < conf@.len() ==> entry_built(
                            conf@[i],
                            #[trigger] mi.injectors@[i],
                            i as u64,
                        )
                },
                Err(e) => spec_config_error(conf@) == Some(e),
            },
    {
        let ghost conf0 = conf@;
        let mut conf = conf;
        let total = conf.len();
        let mut out: Vec<Injector> = Vec::new();
        let mut i: usize = 0;
        while conf.len() != 0
            invariant
                total == conf0.len(),
                conf@ == conf0.skip(i as int),
                i + conf@.len() == conf0.len(),
                out@.len() == i,
                spec_config_error(conf0) == spec_config_error(conf@),
                forall|j: int| 0 <= j < i ==> entry_built(conf0[j], #[trigger] out@[j], j as u64),
            decreases conf@.len(),
        {
            let ghost pre = conf@;
            let c = conf.remove(0);
            assert(conf@ =~= conf0.skip(i as int + 1));
            assert(pre[0] == conf0[i as int]);
            match c {
                InjectorConfig::Fault(rules) => {
                    let built = match build_fault_rules(rules) {
                        Ok(v) => v,
                        Err(e) => {
                            assert(spec_entry_error(pre[0]) == Some(e));
                            assert(spec_config_error(pre) == Some(e));
                            return Err(e);
                        },
                    };
                    out.push(
                        Injector::Fault(
                            FaultInjector { rules: built, prng: Prng::new(i as u64) },
                        ),
                    );
                },
                InjectorConfig::Latency(l) => {
                    let methods = match parse_methods(&l.methods) {
                        Ok(v) => v,
                        Err(e) => {
                            assert(spec_entry_error(pre[0]) == Some(e));
                            assert(spec_config_error(pre) == Some(e));
                            return Err(e);
                        },
                    };
                    if l.percent > 100 {
                        assert(spec_entry_error(pre[0]) == Some(ConfigError::InvalidPercent));
                        assert(spec_config_error(pre) == Some(ConfigError::InvalidPercent));
                        return Err(ConfigError::InvalidPercent);
                    }
                    let delay_ns = match parse_duration(l.delay.as_slice()) {
                        Some(d) => d,
                        None => {
                            assert(spec_entry_error(pre[0]) == Some(ConfigError::InvalidDuration));
                            assert(spec_config_error(pre) == Some(ConfigError::InvalidDuration));
                            return Err(ConfigError::InvalidDuration);
                        },
                    };
                    out.push(
                        Injector::Latency(
                            LatencyInjector {
                                methods,
                                path_pattern: l.path,
                                delay_ns,
                                percent: l.percent,
                                prng: Prng::new(i as u64),
                            },
                        ),
                    );
                },
                InjectorConfig::AttrOverride(a) => {
                    out.push(
                        Injector::AttrOverride(
                            AttrOverrideInjector {
                                path_pattern: a.path,
                                overrides: a.overrides,
                            },
                        ),
                    );
                },
            }
            proof {
                assert(spec_entry_error(pre[0]) is None);
                assert(spec_config_error(pre) == spec_config_error(pre.drop_first()));
                assert(pre.drop_first() =~= conf0.skip(i as int + 1));
            }
            i += 1;
        }
        assert(conf0.skip(i as int).len() == 0);
        Ok(MultiInjector { injectors: out })
    }

    /// Decide one call: the total delay to apply before the operation (the
    /// sum over the chain, saturating at the 64-bit bound) and the first
    /// error, if an injector short-circuits the walk.
    pub fn inject(&mut self, m: Method, path: &[char]) -> (r: (u64, Result<(), i32>))
        ensures
            ({
                let s = spec_chain_inject(old(self).injectors@, m, path@);
                &&& final(self).injectors@ == s.0
                &&& r.0 as nat == if s.1 <= u64::MAX {
                    s.1
                } else {
                    u64::MAX as nat
                }
                &&& r.1 == s.2
            }),
    {
        let mut taken: Vec<Injector> = Vec::new();
        core::mem::swap(&mut taken, &mut self.injectors);
        let (out, delay, res) = chain_inject_rec(taken, m, path);
        self.injectors = out;
        (delay, res)
    }

    /// Let every injector, in order, rewrite an attribute record about to
    /// be replied for `path`.
    pub fn inject_attr(&self, attr: &mut FileAttr, path: &[char])
        ensures
            *final(attr) == spec_chain_attr(self.injectors@, *old(attr), path@),
    {
        let n = self.injectors.len();
        let mut i: usize = 0;
        assert(self.injectors@.skip(0) =~= self.injectors@);
        while i < n
            invariant
                i <= n,
                n == self.injectors@.len(),
                spec_chain_attr(self.injectors@.skip(i as int), *attr, path@) == spec_chain_attr(
                    self.injectors@,
                    *old(attr),
                    path@,
                ),
            decreases n - i,
        {
            let ghost pre = *attr;
            let ghost s = self.injectors@.skip(i as int);
            match &self.injectors[i] {
                Injector::AttrOverride(a) => a.inject_attr(attr, path),
                _ => {},
            }
            proof {
                assert(s[0] == self.injectors@[i as int]);
                assert(s.drop_first() =~= self.injectors@.skip(i as int + 1));
                assert(*attr == spec_inject_one_attr(s[0], pre, path@));
            }
            i += 1;
        }
        assert(self.injectors@.skip(n as int) =~= Seq::<Injector>::empty());
    }

    /// Let every injector, in order, rewrite the reply of one call. Only
    /// the attribute record inside a reply is subject to rewriting today,
    /// so this never fails.
    pub fn inject_reply(&self, _method: Method, path: &[char], reply: &mut Reply) -> (r: Result<
        (),
        i32,
    >)
        ensures
            r is Ok,
            *final(reply) == spec_inject_reply(self.injectors@, *old(reply), path@),
    {
        match reply {
            Reply::Entry { attr, .. } => self.inject_attr(attr, path),
            Reply::Attr { attr } => self.inject_attr(attr, path),
            Reply::Create { attr, .. } => self.inject_attr(attr, path),
            _ => {},
        }
        Ok(())
    }
}

/// Passthrough identity: with an empty injector list the chain delays
/// nothing, errs nothing, and hands every attribute record and every reply
/// back unchanged, so each operation's reply is exactly what the backing
/// directory produced.
pub proof fn lemma_empty_chain_passthrough(m: Method, path: Seq<char>, attr: FileAttr, reply: Reply)
    ensures
        spec_chain_inject(Seq::<Injector>::empty(), m, path) == (
            Seq::<Injector>::empty(),
            0nat,
            Ok::<(), i32>(()),
        ),
        spec_chain_attr(Seq::<Injector>::empty(), attr, path) == attr,
        spec_inject_reply(Seq::<Injector>::empty(), reply, path) == reply,
{
    match reply {
        Reply::Entry { attr: a, generation } => {
            assert(reply_with_attr(reply, a) == reply);
        },
        Reply::Attr { attr: a } => {
            assert(reply_with_attr(reply, a) == reply);
        },
        Reply::Create { attr: a, generation, fh, flags } => {
            assert(reply_with_attr(reply, a) == reply);
        },
        _ => {},
    }
}

/// Fault short circuit: when some element of the chain is a fault injector
/// whose first matching rule fires with certainty, and no element before it
/// errs on this call, the chain's decision is exactly that rule's errno —
/// the underlying operation is suppressed.
pub proof fn lemma_chain_fault_short_circuit(
    injs: Seq<Injector>,
    i: int,
    m: Method,
    path: Seq<char>,
)
    requires
        0 <= i < injs.len(),
        injs[i] is Fault,
        fault_first_idx(fault_of(injs[i]).rules@, m, path) < fault_of(injs[i]).rules@.len(),
        fault_of(injs[i]).rules@[fault_first_idx(fault_of(injs[i]).rules@, m, path)].percent
            == 100,
        forall|j: int| 0 <= j < i ==> spec_inject_one(#[trigger] injs[j], m, path).2 is Ok,
    ensures
        spec_chain_inject(injs, m, path).2 == Err::<(), i32>(
            fault_of(injs[i]).rules@[fault_first_idx(fault_of(injs[i]).rules@, m, path)].errno,
        ),
    decreases i,
{
    if i == 0 {
        let f = fault_of(injs[0]);
        lemma_fault_first_idx_bounds(f.rules@, m, path);
        lemma_full_percent_always_fires(f.prng.state);
    } else {
        let t = injs.drop_first();
        assert(spec_inject_one(injs[0], m, path).2 is Ok);
        assert(t[i - 1] == injs[i]);
        assert forall|j: int| 0 <= j < i - 1 implies spec_inject_one(
            #[trigger] t[j],
            m,
            path,
        ).2 is Ok by {
            assert(t[j] == injs[j + 1]);
        }
        lemma_chain_fault_short_circuit(t, i - 1, m, path);
    }
}

/// Latency lower bound: when some element of the chain is a latency
/// injector that selects this call and fires with certainty, and no element
/// before it errs, the chain asks for at least that injector's delay.
pub proof fn lemma_chain_latency_lower_bound(
    injs: Seq<Injector>,
    i: int,
    m: Method,
    path: Seq<char>,
)
    requires
        0 <= i < injs.len(),
        injs[i] is Latency,
        spec_selects(latency_of(injs[i]).methods@, latency_of(injs[i]).path_pattern@, m, path),
        latency_of(injs[i]).percent == 100,
        forall|j: int| 0 <= j < i ==> spec_inject_one(#[trigger] injs[j], m, path).2 is Ok,
    ensures
        spec_chain_inject(injs, m, path).1 >= latency_of(injs[i]).delay_ns,
    decreases i,
{
    if i == 0 {
        let l = latency_of(injs[0]);
        lemma_full_percent_always_fires(l.prng.state);
        assert(spec_inject_one(injs[0], m, path).1 == l.delay_ns);
    } else {
        let t = injs.drop_first();
        assert(spec_inject_one(injs[0], m, path).2 is Ok);
        assert(t[i - 1] == injs[i]);
        assert forall|j: int| 0 <= j < i - 1 implies spec_inject_one(
            #[trigger] t[j],
            m,
            path,
        ).2 is Ok by {
            assert(t[j] == injs[j + 1]);
        }
        lemma_chain_latency_lower_bound(t, i - 1, m, path);
    }
}

} // verus!
