//! The shared ptrace attachment record. Attaching is idempotent by process:
//! the first attach stops the target's threads, later ones only raise a
//! reference count, and only the last detach resumes them — so clients can
//! share one attachment and stop/resume stays balanced.

use vstd::prelude::*;

verus! {

/// One attachment: the traced process and how many clients share it.
#[derive(Clone, Copy, PartialEq, Eq, Structural, Debug)]
pub struct Attachment {
    pub pid: i32,
    pub count: u64,
}

/// The registry of live attachments, one per traced process.
#[derive(Debug)]
pub struct TracerRegistry {
    pub entries: Vec<Attachment>,
}

impl TracerRegistry {
    /// Well-formedness: one record per process, every count positive.
    pub open spec fn wf(&self) -> bool {
        &&& forall|i: int|
            0 <= i < self.entries@.len() ==> (#[trigger] self.entries@[i]).count >= 1
        &&& forall|i: int, j: int|
            0 <= i < j < self.entries@.len() ==> (#[trigger] self.entries@[i]).pid != (
            #[trigger] self.entries@[j]).pid
    }

    /// Whether a process is currently attached.
    pub open spec fn spec_attached(&self, pid: i32) -> bool {
        exists|i: int| 0 <= i < self.entries@.len() && (#[trigger] self.entries@[i]).pid == pid
    }

    /// The index of an attached process.
    pub open spec fn idx_of_pid(&self, pid: i32) -> int {
        choose|i: int| 0 <= i < self.entries@.len() && (#[trigger] self.entries@[i]).pid == pid
    }

    /// How many clients share the attachment; zero when not attached.
    pub open spec fn spec_count(&self, pid: i32) -> u64 {
        if self.spec_attached(pid) {
            self.entries@[self.idx_of_pid(pid)].count
        } else {
            0
        }
    }

    /// An empty registry: nothing is traced.
    pub fn new() -> (r: TracerRegistry)
        ensures
            r.wf(),
            r.entries@.len() == 0,
    {
        TracerRegistry { entries: Vec::new() }
    }

    fn find_pid(&self, pid: i32) -> (r: Option<usize>)
        requires
            self.wf(),
        ensures
            match r {
                Some(i) => self.spec_attached(pid) && i == self.idx_of_pid(pid) && i
                    < self.entries@.len() && self.entries@[i as int].pid == pid,
                None => !self.spec_attached(pid),
            },
    {
        let mut i: usize = 0;
        while i < self.entries.len()
            invariant
                self.wf(),
                i <= self.entries@.len(),
                forall|k: int| 0 <= k < i ==> (#[trigger] self.entries@[k]).pid != pid,
            decreases self.entries@.len() - i,
        {
            if self.entries[i].pid == pid {
                proof {
                    let j = self.idx_of_pid(pid);
                    assert(0 <= j < self.entries@.len() && self.entries@[j].pid == pid);
                }
                return Some(i);
            }
            i += 1;
        }
        None
    }

    /// Take a share of the attachment. Returns whether the threads must be
    /// stopped now — exactly on the first attach; later attaches only raise
    /// the count by one.
    pub fn attach(&mut self, pid: i32) -> (stop_now: bool)
        requires
            old(self).wf(),
            old(self).spec_count(pid) < u64::MAX,
        ensures
            final(self).wf(),
            stop_now <==> !old(self).spec_attached(pid),
            final(self).spec_attached(pid),
            final(self).spec_count(pid) == old(self).spec_count(pid) + 1,
            forall|x: i32|
                x != pid ==> #[trigger] final(self).spec_count(x) == old(self).spec_count(x),
            forall|x: i32|
                x != pid ==> (#[trigger] final(self).spec_attached(x) <==> old(
                    self,
                ).spec_attached(x)),
    {
        let ghost t = *old(self);
        match self.find_pid(pid) {
            Some(i) => {
                let e = self.entries.remove(i);
                let bumped = Attachment { pid: e.pid, count: e.count + 1 };
                self.entries.insert(i, bumped);
                proof {
                    assert(self.entries@ =~= t.entries@.update(i as int, bumped));
                    lemma_registry_update(t, *self, i as int);
                }
                false
            },
            None => {
                let fresh = Attachment { pid, count: 1 };
                self.entries.push(fresh);
                proof {
                    assert(self.entries@ =~= t.entries@.push(fresh));
                    lemma_registry_push(t, *self, fresh);
                }
                true
            },
        }
    }

    /// Give a share back. Returns whether the threads must be resumed now —
    /// exactly on the last detach, which drops the record. Detaching an
    /// untraced process changes nothing.
    pub fn detach(&mut self, pid: i32) -> (resume_now: bool)
        requires
            old(self).wf(),
        ensures
            final(self).wf(),
            resume_now <==> old(self).spec_count(pid) == 1,
            final(self).spec_count(pid) == if old(self).spec_count(pid) == 0 {
                0u64
            } else {
                (old(self).spec_count(pid) - 1) as u64
            },
            forall|x: i32|
                x != pid ==> #[trigger] final(self).spec_count(x) == old(self).spec_count(x),
            forall|x: i32|
                x != pid ==> (#[trigger] final(self).spec_attached(x) <==> old(
                    self,
                ).spec_attached(x)),
    {
        let ghost t = *old(self);
        match self.find_pid(pid) {
            None => false,
            Some(i) => {
                let e = self.entries.remove(i);
                if e.count > 1 {
                    let kept = Attachment { pid: e.pid, count: e.count - 1 };
                    self.entries.insert(i, kept);
                    proof {
                        assert(self.entries@ =~= t.entries@.update(i as int, kept));
                        lemma_registry_update(t, *self, i as int);
                    }
                    false
                } else {
                    proof {
                        assert(self.entries@ =~= t.entries@.remove(i as int));
                        lemma_registry_remove(t, *self, i as int);
                    }
                    true
                }
            },
        }
    }
}

proof fn lemma_registry_update(t: TracerRegistry, u: TracerRegistry, i: int)
    requires
        t.wf(),
        0 <= i < t.entries@.len(),
        u.entries@ == t.entries@.update(
            i,
            Attachment { pid: t.entries@[i].pid, count: u.entries@[i].count },
        ),
        u.entries@[i].count >= 1,
    ensures
        u.wf(),
        forall|x: i32| #[trigger] u.spec_attached(x) <==> t.spec_attached(x),
        u.spec_count(t.entries@[i].pid) == u.entries@[i].count,
        forall|x: i32| x != t.entries@[i].pid ==> #[trigger] u.spec_count(x) == t.spec_count(x),
{
    assert forall|x: i32| #[trigger] u.spec_attached(x) implies t.spec_attached(x) by {
        let j = choose|j: int| 0 <= j < u.entries@.len() && u.entries@[j].pid == x;
        assert(t.entries@[j].pid == x);
    }
    assert forall|x: i32| #[trigger] t.spec_attached(x) implies u.spec_attached(x) by {
        let j = choose|j: int| 0 <= j < t.entries@.len() && t.entries@[j].pid == x;
        assert(u.entries@[j].pid == x);
    }
    assert forall|x: i32| u.spec_attached(x) implies #[trigger] u.idx_of_pid(x) == t.idx_of_pid(
        x,
    ) by {
        let ju = u.idx_of_pid(x);
        let jt = t.idx_of_pid(x);
        assert(0 <= ju < u.entries@.len() && u.entries@[ju].pid == x);
        assert(0 <= jt < t.entries@.len() && t.entries@[jt].pid == x);
        assert(t.entries@[ju].pid == x);
    }
}

proof fn lemma_registry_push(t: TracerRegistry, u: TracerRegistry, fresh: Attachment)
    requires
        t.wf(),
        !t.spec_attached(fresh.pid),
        fresh.count == 1,
        u.entries@ == t.entries@.push(fresh),
    ensures
        u.wf(),
        u.spec_attached(fresh.pid),
        u.spec_count(fresh.pid) == 1,
        forall|x: i32| x != fresh.pid ==> #[trigger] u.spec_count(x) == t.spec_count(x),
        forall|x: i32|
            x != fresh.pid ==> (#[trigger] u.spec_attached(x) <==> t.spec_attached(x)),
{
    let n = t.entries@.len() as int;
    assert(u.entries@[n] == fresh);
    assert(u.spec_attached(fresh.pid));
    let ji = u.idx_of_pid(fresh.pid);
    assert(0 <= ji < u.entries@.len() && u.entries@[ji].pid == fresh.pid);
    if ji != n {
        assert(t.entries@[ji].pid == fresh.pid);
        assert(false);
    }
    assert forall|x: i32| x != fresh.pid implies (#[trigger] u.spec_attached(x)
        <==> t.spec_attached(x)) by {
        if u.spec_attached(x) {
            let j = choose|j: int| 0 <= j < u.entries@.len() && u.entries@[j].pid == x;
            assert(j != n);
            assert(t.entries@[j].pid == x);
        }
        if t.spec_attached(x) {
            let j = choose|j: int| 0 <= j < t.entries@.len() && t.entries@[j].pid == x;
            assert(u.entries@[j].pid == x);
        }
    }
    assert forall|x: i32| x != fresh.pid && t.spec_attached(x) implies #[trigger] u.spec_count(x)
        == t.spec_count(x) by {
        let jt = t.idx_of_pid(x);
        assert(0 <= jt < t.entries@.len() && t.entries@[jt].pid == x);
        assert(u.entries@[jt].pid == x);
        let ju = u.idx_of_pid(x);
        assert(0 <= ju < u.entries@.len() && u.entries@[ju].pid == x);
        assert(ju != n);
        assert(t.entries@[ju].pid == x);
    }
}

proof fn lemma_registry_remove(t: TracerRegistry, u: TracerRegistry, i: int)
    requires
        t.wf(),
        0 <= i < t.entries@.len(),
        u.entries@ == t.entries@.remove(i),
    ensures
        u.wf(),
        !u.spec_attached(t.entries@[i].pid),
        forall|x: i32| x != t.entries@[i].pid ==> #[trigger] u.spec_count(x) == t.spec_count(x),
        forall|x: i32|
            x != t.entries@[i].pid ==> (#[trigger] u.spec_attached(x) <==> t.spec_attached(x)),
{
    let gone = t.entries@[i].pid;
    if u.spec_attached(gone) {
        let j = choose|j: int| 0 <= j < u.entries@.len() && u.entries@[j].pid == gone;
        if j < i {
            assert(t.entries@[j].pid == gone);
        } else {
            assert(t.entries@[j + 1].pid == gone);
        }
        assert(false);
    }
    assert forall|x: i32| x != gone implies (#[trigger] u.spec_attached(x) <==> t.spec_attached(
        x,
    )) by {
        if u.spec_attached(x) {
            let j = choose|j: int| 0 <= j < u.entries@.len() && u.entries@[j].pid == x;
            if j < i {
                assert(t.entries@[j].pid == x);
            } else {
                assert(t.entries@[j + 1].pid == x);
            }
        }
        if t.spec_attached(x) {
            let j = choose|j: int| 0 <= j < t.entries@.len() && t.entries@[j].pid == x;
            assert(j != i);
            if j < i {
                assert(u.entries@[j].pid == x);
            } else {
                assert(u.entries@[j - 1].pid == x);
            }
        }
    }
    assert forall|x: i32| x != gone && t.spec_attached(x) implies #[trigger] u.spec_count(x)
        == t.spec_count(x) by {
        let jt = t.idx_of_pid(x);
        assert(0 <= jt < t.entries@.len() && t.entries@[jt].pid == x);
        assert(jt != i);
        if jt < i {
            assert(u.entries@[jt] == t.entries@[jt]);
        } else {
            assert(u.entries@[jt - 1] == t.entries@[jt]);
        }
        assert(u.spec_attached(x));
        let ju = u.idx_of_pid(x);
        assert(0 <= ju < u.entries@.len() && u.entries@[ju].pid == x);
        if ju < i {
            assert(t.entries@[ju].pid == x);
            assert(u.entries@[ju] == t.entries@[jt]);
        } else {
            assert(t.entries@[ju + 1].pid == x);
            assert(u.entries@[ju] == t.entries@[jt]);
        }
    }
}

} // verus!
