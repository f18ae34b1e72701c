//! The three injector variants. Each decides, from its configuration and
//! its own pseudo-random state, what one call suffers: an errno short
//! circuit (fault), a delay before the operation runs (latency), or a
//! rewrite of the attribute record in the reply (attribute override).
//!
//! The decisions are pure: the caller performs the delay and encodes the
//! errno; nothing here touches the backing directory.

use vstd::prelude::*;
use crate::attr::{apply_overrides, spec_apply_overrides, AttrOverrides, FileAttr};
use crate::filter::{glob_match, glob_matches, selects, spec_selects, Method};
use crate::prng::{gate_fires, spec_prng_next, spec_roll, Prng};

verus! {

/// One fault rule: on the calls its filter selects, reply the errno with
/// the given probability.
#[derive(Clone, PartialEq, Eq, Debug)]
pub struct FaultRule {
    pub methods: Vec<Method>,
    pub path_pattern: Vec<char>,
    pub errno: i32,
    pub percent: u8,
}

/// Whether a fault rule's filter selects a call.
pub open spec fn rule_selects(r: FaultRule, m: Method, path: Seq<char>) -> bool {
    spec_selects(r.methods@, r.path_pattern@, m, path)
}

/// The index of the first rule whose filter selects the call, or the rule
/// count when none does.
pub open spec fn fault_first_idx(rules: Seq<FaultRule>, m: Method, path: Seq<char>) -> int
    decreases rules.len(),
{
    if rules.len() == 0 {
        0
    } else if rule_selects(rules[0], m, path) {
        0
    } else {
        1 + fault_first_idx(rules.drop_first(), m, path)
    }
}

/// The first-match index lies between 0 and the rule count, and when it is
/// below the count it points at a rule whose filter selects the call.
pub proof fn lemma_fault_first_idx_bounds(rules: Seq<FaultRule>, m: Method, path: Seq<char>)
    ensures
        0 <= fault_first_idx(rules, m, path) <= rules.len(),
        fault_first_idx(rules, m, path) < rules.len() ==> rule_selects(
            rules[fault_first_idx(rules, m, path)],
            m,
            path,
        ),
        forall|k: int|
            0 <= k < fault_first_idx(rules, m, path) ==> !rule_selects(rules[k], m, path),
    decreases rules.len(),
{
    if rules.len() != 0 && !rule_selects(rules[0], m, path) {
        let t = rules.drop_first();
        lemma_fault_first_idx_bounds(t, m, path);
        let idx = fault_first_idx(rules, m, path);
        if idx < rules.len() {
            assert(rules[idx] == t[idx - 1]);
        }
        assert forall|k: int| 0 <= k < idx implies !rule_selects(rules[k], m, path) by {
            if k > 0 {
                assert(rules[k] == t[k - 1]);
            }
        }
    }
}

proof fn lemma_fault_first_idx_from_scan(rules: Seq<FaultRule>, m: Method, path: Seq<char>, i: int)
    requires
        0 <= i <= rules.len(),
        forall|k: int| 0 <= k < i ==> !rule_selects(rules[k], m, path),
        i == rules.len() || rule_selects(rules[i], m, path),
    ensures
        fault_first_idx(rules, m, path) == i,
    decreases rules.len(),
{
    if i == 0 {
    } else {
        let t = rules.drop_first();
        assert forall|k: int| 0 <= k < i - 1 implies !rule_selects(t[k], m, path) by {
            assert(t[k] == rules[k + 1]);
        }
        if i - 1 < t.len() {
            assert(t[i - 1] == rules[i]);
        }
        lemma_fault_first_idx_from_scan(t, m, path, i - 1);
    }
}

/// A fault injector: an ordered rule list and its own generator. The first
/// rule whose filter selects the call is the one consulted; its percent
/// then gates the errno.
#[derive(Clone, PartialEq, Eq, Debug)]
pub struct FaultInjector {
    pub rules: Vec<FaultRule>,
    pub prng: Prng,
}

impl FaultInjector {
    /// Decide one call. When no rule selects it the generator is not even
    /// stepped; otherwise one draw decides, and a firing rule's errno comes
    /// back as the error.
    pub fn inject(&mut self, m: Method, path: &[char]) -> (r: Result<(), i32>)
        ensures
            final(self).rules == old(self).rules,
            ({
                let rules = old(self).rules@;
                let idx = fault_first_idx(rules, m, path@);
                if idx == rules.len() {
                    r is Ok && final(self).prng == old(self).prng
                } else {
                    &&& final(self).prng.state == spec_prng_next(old(self).prng.state)
                    &&& if gate_fires(rules[idx].percent, spec_roll(old(self).prng.state)) {
                        r == Err::<(), i32>(rules[idx].errno)
                    } else {
                        r is Ok
                    }
                }
            }),
    {
        let n = self.rules.len();
        let mut i: usize = 0;
        while i < n
            invariant
                i <= n,
                n == self.rules@.len(),
                *self == *old(self),
                forall|k: int| 0 <= k < i ==> !rule_selects(self.rules@[k], m, path@),
            decreases n - i,
        {
            let hit = selects(&self.rules[i].methods, &self.rules[i].path_pattern, m, path);
            if hit {
                proof {
                    lemma_fault_first_idx_from_scan(self.rules@, m, path@, i as int);
                }
                let roll = self.prng.roll();
                if roll < self.rules[i].percent {
                    return Err(self.rules[i].errno);
                } else {
                    return Ok(());
                }
            }
            i += 1;
        }
        proof {
            lemma_fault_first_idx_from_scan(self.rules@, m, path@, n as int);
        }
        Ok(())
    }
}

/// A latency injector: on the calls its filter selects, with the given
/// probability, delay the operation by `delay_ns` before it runs.
#[derive(Clone, PartialEq, Eq, Debug)]
pub struct LatencyInjector {
    pub methods: Vec<Method>,
    pub path_pattern: Vec<char>,
    pub delay_ns: u64,
    pub percent: u8,
    pub prng: Prng,
}

impl LatencyInjector {
    /// Decide one call: the delay to apply before the operation, in
    /// nanoseconds. A call the filter does not select leaves the generator
    /// untouched and costs nothing.
    pub fn inject(&mut self, m: Method, path: &[char]) -> (delay_ns: u64)
        ensures
            final(self).methods == old(self).methods,
            final(self).path_pattern == old(self).path_pattern,
            final(self).delay_ns == old(self).delay_ns,
            final(self).percent == old(self).percent,
            ({
                let l = *old(self);
                if spec_selects(l.methods@, l.path_pattern@, m, path@) {
                    &&& final(self).prng.state == spec_prng_next(l.prng.state)
                    &&& delay_ns == if gate_fires(l.percent, spec_roll(l.prng.state)) {
                        l.delay_ns
                    } else {
                        0u64
                    }
                } else {
                    final(self).prng == l.prng && delay_ns == 0
                }
            }),
    {
        if selects(&self.methods, &self.path_pattern, m, path) {
            let roll = self.prng.roll();
            if roll < self.percent {
                self.delay_ns
            } else {
                0
            }
        } else {
            0
        }
    }
}

/// An attribute-override injector: on every attribute reply whose path
/// matches its glob, overwrite the configured fields.
#[derive(Clone, PartialEq, Eq, Debug)]
pub struct AttrOverrideInjector {
    pub path_pattern: Vec<char>,
    pub overrides: AttrOverrides,
}

/// The attribute record after one override injector saw it.
pub open spec fn spec_override_attr(
    a: AttrOverrideInjector,
    attr: FileAttr,
    path: Seq<char>,
) -> FileAttr {
    if glob_matches(a.path_pattern@, path) {
        spec_apply_overrides(a.overrides, attr)
    } else {
        attr
    }
}

impl AttrOverrideInjector {
    /// Rewrite an attribute record about to be replied for `path`.
    pub fn inject_attr(&self, attr: &mut FileAttr, path: &[char])
        ensures
            *final(attr) == spec_override_attr(*self, *old(attr), path@),
    {
        if glob_match(self.path_pattern.as_slice(), path) {
            apply_overrides(&self.overrides, attr);
        }
    }
}

/// One element of the injector chain.
#[derive(Clone, PartialEq, Eq, Debug)]
pub enum Injector {
    Fault(FaultInjector),
    Latency(LatencyInjector),
    AttrOverride(AttrOverrideInjector),
}

/// What one injector does to one call: its state after the call, the delay
/// it asks for, and the error it short-circuits with.
pub open spec fn spec_inject_one(inj: Injector, m: Method, path: Seq<char>) -> (
    Injector,
    u64,
    Result<(), i32>,
) {
    match inj {
        Injector::Fault(f) => {
            let idx = fault_first_idx(f.rules@, m, path);
            if idx == f.rules@.len() {
                (inj, 0u64, Ok(()))
            } else {
                let stepped = FaultInjector {
                    rules: f.rules,
                    prng: Prng { state: spec_prng_next(f.prng.state) },
                };
                if gate_fires(f.rules@[idx].percent, spec_roll(f.prng.state)) {
                    (Injector::Fault(stepped), 0u64, Err(f.rules@[idx].errno))
                } else {
                    (Injector::Fault(stepped), 0u64, Ok(()))
                }
            }
        },
        Injector::Latency(l) => {
            if spec_selects(l.methods@, l.path_pattern@, m, path) {
                let stepped = LatencyInjector {
                    methods: l.methods,
                    path_pattern: l.path_pattern,
                    delay_ns: l.delay_ns,
                    percent: l.percent,
                    prng: Prng { state: spec_prng_next(l.prng.state) },
                };
                let d = if gate_fires(l.percent, spec_roll(l.prng.state)) {
                    l.delay_ns
                } else {
                    0u64
                };
                (Injector::Latency(stepped), d, Ok(()))
            } else {
                (inj, 0u64, Ok(()))
            }
        },
        Injector::AttrOverride(_) => (inj, 0u64, Ok(())),
    }
}

/// What one injector does to an attribute record on the reply path.
pub open spec fn spec_inject_one_attr(inj: Injector, attr: FileAttr, path: Seq<char>) -> FileAttr {
    match inj {
        Injector::AttrOverride(a) => spec_override_attr(a, attr, path),
        _ => attr,
    }
}

/// Run one injector on one call, consuming and returning it.
#[verifier::rlimit(100)]
pub fn inject_one(inj: Injector, m: Method, path: &[char]) -> (r: (Injector, u64, Result<(), i32>))
    ensures
        r == spec_inject_one(inj, m, path@),
{
    match inj {
        Injector::Fault(mut f) => {
            let ghost f0 = f;
            let res = f.inject(m, path);
            proof {
                let s = spec_inject_one(Injector::Fault(f0), m, path@);
                let idx = fault_first_idx(f0.rules@, m, path@);
                lemma_fault_first_idx_bounds(f0.rules@, m, path@);
                if idx == f0.rules@.len() {
                    assert(f == f0);
                    assert(s == (Injector::Fault(f0), 0u64, Ok::<(), i32>(())));
                } else {
                    let stepped = FaultInjector {
                        rules: f0.rules,
                        prng: Prng { state: spec_prng_next(f0.prng.state) },
                    };
                    assert(f.rules == stepped.rules && f.prng == stepped.prng);
                    assert(f == stepped);
                    assert(s.0 == Injector::Fault(stepped));
                    assert(s.1 == 0u64);
                    if gate_fires(f0.rules@[idx].percent, spec_roll(f0.prng.state)) {
                        assert(s.2 == Err::<(), i32>(f0.rules@[idx].errno));
                        match res {
                            Ok(u) => assert(false),
                            Err(e) => {
                                assert(e == f0.rules@[idx].errno);
                                assert(res == Err::<(), i32>(e));
                            },
                        }
                        assert(res == s.2);
                    } else {
                        assert(s.2 == Ok::<(), i32>(()));
                        match res {
                            Ok(u) => assert(res == Ok::<(), i32>(u)),
                            Err(e) => assert(false),
                        }
                        assert(res == s.2);
                    }
                }
            }
            (Injector::Fault(f), 0, res)
        },
        Injector::Latency(mut l) => {
            let ghost l0 = l;
            let d = l.inject(m, path);
            proof {
                let s = spec_inject_one(Injector::Latency(l0), m, path@);
                if spec_selects(l0.methods@, l0.path_pattern@, m, path@) {
                    let stepped = LatencyInjector {
                        methods: l0.methods,
                        path_pattern: l0.path_pattern,
                        delay_ns: l0.delay_ns,
                        percent: l0.percent,
                        prng: Prng { state: spec_prng_next(l0.prng.state) },
                    };
                    assert(l.methods == stepped.methods && l.path_pattern == stepped.path_pattern
                        && l.delay_ns == stepped.delay_ns && l.percent == stepped.percent
                        && l.prng == stepped.prng);
                    assert(l == stepped);
                    assert(s.0 == Injector::Latency(stepped));
                    assert(d == s.1);
                } else {
                    assert(l == l0);
                    assert(s == (Injector::Latency(l0), 0u64, Ok::<(), i32>(())));
                }
            }
            (Injector::Latency(l), d, Ok(()))
        },
        Injector::AttrOverride(a) => (Injector::AttrOverride(a), 0, Ok(())),
    }
}

} // verus!
