//! The descriptor replacement plan. Before the mount swap, the open
//! descriptors of the target whose paths lie under the directory being
//! interposed are recorded; the plan says, for each of them, the fresh path
//! to open in the target — same suffix under the new base — keeping the
//! open flags and the seek offset. Executing the plan (open, seek, dup2,
//! close, under ptrace) happens outside.

use vstd::prelude::*;
use crate::hookfs::copy_chars;

verus! {

/// One recorded open descriptor of the target: its number, the path it
/// resolves to, its open flags and its current offset.
#[derive(Clone, PartialEq, Eq, Debug)]
pub struct FdRecord {
    pub fd: i32,
    pub path: Vec<char>,
    pub flags: i32,
    pub offset: i64,
}

/// One step of the plan: reopen `new_path` with the same flags, seek to the
/// same offset, and move the result over the old descriptor number.
#[derive(Clone, PartialEq, Eq, Debug)]
pub struct ReplaceStep {
    pub fd: i32,
    pub new_path: Vec<char>,
    pub flags: i32,
    pub offset: i64,
}

/// The model of a record or step: descriptor, path, flags, offset.
pub open spec fn record_model(r: FdRecord) -> (i32, Seq<char>, i32, i64) {
    (r.fd, r.path@, r.flags, r.offset)
}

/// The model of a plan step.
pub open spec fn step_model(s: ReplaceStep) -> (i32, Seq<char>, i32, i64) {
    (s.fd, s.new_path@, s.flags, s.offset)
}

/// Whether a path lies under a base directory: the base itself, or a
/// descendant past a separator.
pub open spec fn path_under(base: Seq<char>, p: Seq<char>) -> bool {
    p == base || (p.len() > base.len() && p.subrange(0, base.len() as int) == base && p[base.len() as int]
        == '/')
}

/// The same path relocated from one base to another: the new base plus the
/// old suffix.
pub open spec fn rewrite_path(base: Seq<char>, new_base: Seq<char>, p: Seq<char>) -> Seq<char> {
    new_base + p.skip(base.len() as int)
}

/// The plan for a sequence of recorded descriptors: those under the base,
/// in order, each relocated and otherwise unchanged.
pub open spec fn spec_plan(
    rs: Seq<(i32, Seq<char>, i32, i64)>,
    base: Seq<char>,
    new_base: Seq<char>,
) -> Seq<(i32, Seq<char>, i32, i64)>
    decreases rs.len(),
{
    if rs.len() == 0 {
        Seq::empty()
    } else {
        let front = spec_plan(rs.drop_last(), base, new_base);
        let last = rs.last();
        if path_under(base, last.1) {
            front + seq![(last.0, rewrite_path(base, new_base, last.1), last.2, last.3)]
        } else {
            front
        }
    }
}

/// The models of a record list.
pub open spec fn records_model(rs: Seq<FdRecord>) -> Seq<(i32, Seq<char>, i32, i64)> {
    rs.map_values(|r: FdRecord| record_model(r))
}

/// The models of a plan.
pub open spec fn steps_model(ss: Seq<ReplaceStep>) -> Seq<(i32, Seq<char>, i32, i64)> {
    ss.map_values(|s: ReplaceStep| step_model(s))
}

/// Decide whether a path lies under a base directory.
pub fn is_under(base: &[char], p: &[char]) -> (r: bool)
    ensures
        r == path_under(base@, p@),
{
    if p.len() < base.len() {
        return false;
    }
    if p.len() > base.len() && p[base.len()] != '/' {
        return false;
    }
    let mut k: usize = 0;
    while k < base.len()
        invariant
            k <= base@.len(),
            base@.len() <= p@.len(),
            p@.len() > base@.len() ==> p@[base@.len() as int] == '/',
            forall|j: int| 0 <= j < k ==> p@[j] == base@[j],
        decreases base@.len() - k,
    {
        if p[k] != base[k] {
            assert(p@.subrange(0, base@.len() as int)[k as int] != base@[k as int]);
            assert(p@ != base@);
            return false;
        }
        k += 1;
    }
    if p.len() == base.len() {
        assert(p@ =~= base@);
        true
    } else {
        assert(p@.subrange(0, base@.len() as int) =~= base@);
        assert(p@ != base@);
        true
    }
}

/// Relocate a path from one base to another.
pub fn relocate(base: &[char], new_base: &[char], p: &[char]) -> (v: Vec<char>)
    requires
        base@.len() <= p@.len(),
    ensures
        v@ == rewrite_path(base@, new_base@, p@),
{
    let mut v = copy_chars(new_base);
    let mut k: usize = base.len();
    while k < p.len()
        invariant
            base@.len() <= k <= p@.len(),
            v@ == new_base@ + p@.subrange(base@.len() as int, k as int),
        decreases p@.len() - k,
    {
        v.push(p[k]);
        assert(v@ =~= new_base@ + p@.subrange(base@.len() as int, k as int + 1));
        k += 1;
    }
    assert(v@ =~= rewrite_path(base@, new_base@, p@));
    v
}

/// Compute the replacement plan: one step for every recorded descriptor
/// whose path lies under `base`, in order, relocated under `new_base` with
/// flags and offset preserved. Descriptors opened after the snapshot route
/// through the mount by themselves and are rightly absent.
#[verifier::loop_isolation(false)]
pub fn prepare_plan(records: &Vec<FdRecord>, base: &[char], new_base: &[char]) -> (plan: Vec<
    ReplaceStep,
>)
    ensures
        steps_model(plan@) == spec_plan(records_model(records@), base@, new_base@),
{
    let mut plan: Vec<ReplaceStep> = Vec::new();
    let mut i: usize = 0;
    while i < records.len()
        invariant
            i <= records@.len(),
            steps_model(plan@) == spec_plan(
                records_model(records@.subrange(0, i as int)),
                base@,
                new_base@,
            ),
        decreases records@.len() - i,
    {
        let ghost pre = plan@;
        let r = &records[i];
        if is_under(base, r.path.as_slice()) {
            let step = ReplaceStep {
                fd: r.fd,
                new_path: relocate(base, new_base, r.path.as_slice()),
                flags: r.flags,
                offset: r.offset,
            };
            plan.push(step);
            assert(steps_model(plan@) =~= steps_model(pre) + seq![step_model(step)]);
        }
        proof {
            let rm = records_model(records@.subrange(0, i as int + 1));
            assert(rm.drop_last() =~= records_model(records@.subrange(0, i as int)));
            assert(rm.last() == record_model(records@[i as int]));
        }
        i += 1;
    }
    assert(records@.subrange(0, records@.len() as int) =~= records@);
    plan
}

/// Descriptor continuity, plan side: every step of the plan descends from a
/// recorded descriptor under the base, keeps its number, flags and offset,
/// and names the same suffix under the new base — so reads and writes on
/// the rewritten descriptor continue against the same file.
pub proof fn lemma_plan_preserves(
    rs: Seq<(i32, Seq<char>, i32, i64)>,
    base: Seq<char>,
    new_base: Seq<char>,
)
    ensures
        forall|k: int|
            0 <= k < spec_plan(rs, base, new_base).len() ==> exists|j: int|
                {
                    &&& 0 <= j < rs.len()
                    &&& path_under(base, (#[trigger] rs[j]).1)
                    &&& #[trigger] spec_plan(rs, base, new_base)[k] == (
                        rs[j].0,
                        rewrite_path(base, new_base, rs[j].1),
                        rs[j].2,
                        rs[j].3,
                    )
                },
    decreases rs.len(),
{
    if rs.len() != 0 {
        lemma_plan_preserves(rs.drop_last(), base, new_base);
        let front = spec_plan(rs.drop_last(), base, new_base);
        assert forall|k: int| 0 <= k < spec_plan(rs, base, new_base).len() implies exists|j: int|
            {
                &&& 0 <= j < rs.len()
                &&& path_under(base, (#[trigger] rs[j]).1)
                &&& #[trigger] spec_plan(rs, base, new_base)[k] == (
                    rs[j].0,
                    rewrite_path(base, new_base, rs[j].1),
                    rs[j].2,
                    rs[j].3,
                )
            } by {
            if k < front.len() {
                let j = choose|j: int|
                    {
                        &&& 0 <= j < rs.drop_last().len()
                        &&& path_under(base, (#[trigger] rs.drop_last()[j]).1)
                        &&& front[k] == (
                            rs.drop_last()[j].0,
                            rewrite_path(base, new_base, rs.drop_last()[j].1),
                            rs.drop_last()[j].2,
                            rs.drop_last()[j].3,
                        )
                    };
                assert(rs[j] == rs.drop_last()[j]);
                assert(spec_plan(rs, base, new_base)[k] == front[k]);
            } else {
                let j = rs.len() - 1;
                assert(path_under(base, rs[j].1));
                assert(spec_plan(rs, base, new_base)[k] == (
                    rs[j].0,
                    rewrite_path(base, new_base, rs[j].1),
                    rs[j].2,
                    rs[j].3,
                ));
            }
        }
    }
}

/// Relocating a path under the base to the new base and back is the
/// identity, and the relocated path lies under the new base: the reverse
/// pass of the replacer routes every rewritten descriptor to its original
/// file.
pub proof fn lemma_rewrite_round_trip(base: Seq<char>, new_base: Seq<char>, p: Seq<char>)
    requires
        path_under(base, p),
    ensures
        path_under(new_base, rewrite_path(base, new_base, p)),
        rewrite_path(new_base, base, rewrite_path(base, new_base, p)) == p,
{
    let q = rewrite_path(base, new_base, p);
    if p == base {
        assert(p.skip(base.len() as int) =~= Seq::<char>::empty());
        assert(q =~= new_base);
    } else {
        assert(q.subrange(0, new_base.len() as int) =~= new_base);
        assert(q[new_base.len() as int] == p[base.len() as int]);
    }
    assert(q.skip(new_base.len() as int) =~= p.skip(base.len() as int));
    assert(rewrite_path(new_base, base, q) =~= base + p.skip(base.len() as int));
    if p == base {
        assert(base + p.skip(base.len() as int) =~= p);
    } else {
        assert(base + p.skip(base.len() as int) =~= p);
    }
}

} // verus!
