//! The hook filesystem's bookkeeping: the inode table (number ↔ path, with
//! per-entry lookup counts) and the open-handle table (cookie ↔ host
//! descriptor). The I/O against the backing directory happens outside; these
//! tables are what make the numbers the kernel sees stable and the
//! descriptors exclusively owned.

use vstd::prelude::*;

verus! {

/// The errno for a name that resolves to nothing.
pub const ENOENT: i32 = 2;

/// The errno for a handle that is not open.
pub const EBADF: i32 = 9;

/// One pinned inode: its number, its path relative to the mount root
/// (empty for the root itself), and its lookup count.
#[derive(Clone, PartialEq, Eq, Debug)]
pub struct InodeEntry {
    pub ino: u64,
    pub path: Vec<char>,
    pub lookups: u64,
}

/// The inode table. Inode 1 is the root and is never stored; every stored
/// entry is pinned: its lookup count is positive, and its number and path
/// are unique in the table.
#[derive(Debug)]
pub struct InodeTable {
    pub entries: Vec<InodeEntry>,
    pub next_ino: u64,
}

/// The number of the root inode.
pub const ROOT_INO: u64 = 1;

impl InodeTable {
    /// Well-formedness: numbers start above the root and below the
    /// allocation counter, counts are positive, numbers and paths unique.
    pub open spec fn wf(&self) -> bool {
        &&& self.next_ino >= 2
        &&& forall|i: int|
            0 <= i < self.entries@.len() ==> 1 < (#[trigger] self.entries@[i]).ino
                < self.next_ino
        &&& forall|i: int|
            0 <= i < self.entries@.len() ==> (#[trigger] self.entries@[i]).lookups >= 1
        &&& forall|i: int, j: int|
            0 <= i < j < self.entries@.len() ==> (#[trigger] self.entries@[i]).ino != (
            #[trigger] self.entries@[j]).ino
        &&& forall|i: int, j: int|
            0 <= i < j < self.entries@.len() ==> (#[trigger] self.entries@[i]).path@ != (
            #[trigger] self.entries@[j]).path@
    }

    /// Whether a non-root inode number is pinned in the table.
    pub open spec fn spec_has_ino(&self, ino: u64) -> bool {
        exists|i: int| 0 <= i < self.entries@.len() && (#[trigger] self.entries@[i]).ino == ino
    }

    /// Whether some path is pinned in the table.
    pub open spec fn spec_has_path(&self, path: Seq<char>) -> bool {
        exists|i: int| 0 <= i < self.entries@.len() && (#[trigger] self.entries@[i]).path@ == path
    }

    /// The table index of a pinned inode number.
    pub open spec fn idx_of_ino(&self, ino: u64) -> int {
        choose|i: int| 0 <= i < self.entries@.len() && (#[trigger] self.entries@[i]).ino == ino
    }

    /// The table index of a pinned path.
    pub open spec fn idx_of_path(&self, path: Seq<char>) -> int {
        choose|i: int| 0 <= i < self.entries@.len() && (#[trigger] self.entries@[i]).path@ == path
    }

    /// The number pinned for a path.
    pub open spec fn spec_ino_of_path(&self, path: Seq<char>) -> u64 {
        self.entries@[self.idx_of_path(path)].ino
    }

    /// The lookup count of an inode: zero when it is not pinned.
    pub open spec fn spec_lookups(&self, ino: u64) -> u64 {
        if self.spec_has_ino(ino) {
            self.entries@[self.idx_of_ino(ino)].lookups
        } else {
            0
        }
    }

    /// The path of an inode the kernel may name: the root's is empty.
    pub open spec fn spec_path_of(&self, ino: u64) -> Seq<char> {
        if ino == ROOT_INO {
            Seq::empty()
        } else {
            self.entries@[self.idx_of_ino(ino)].path@
        }
    }

    /// Whether the kernel may name this inode at all.
    pub open spec fn spec_resolvable(&self, ino: u64) -> bool {
        ino == ROOT_INO || self.spec_has_ino(ino)
    }

    /// An empty table: only the root exists; numbering starts at 2.
    pub fn new() -> (r: InodeTable)
        ensures
            r.wf(),
            r.entries@.len() == 0,
            r.next_ino == 2,
    {
        InodeTable { entries: Vec::new(), next_ino: 2 }
    }

    fn find_ino(&self, ino: u64) -> (r: Option<usize>)
        requires
            self.wf(),
        ensures
            match r {
                Some(i) => self.spec_has_ino(ino) && i == self.idx_of_ino(ino) && i
                    < self.entries@.len() && self.entries@[i as int].ino == ino,
                None => !self.spec_has_ino(ino),
            },
    {
        let mut i: usize = 0;
        while i < self.entries.len()
            invariant
                self.wf(),
                i <= self.entries@.len(),
                forall|k: int| 0 <= k < i ==> (#[trigger] self.entries@[k]).ino != ino,
            decreases self.entries@.len() - i,
        {
            if self.entries[i].ino == ino {
                proof {
                    let j = self.idx_of_ino(ino);
                    assert(0 <= j < self.entries@.len() && self.entries@[j].ino == ino);
                }
                return Some(i);
            }
            i += 1;
        }
        None
    }

    fn find_path(&self, path: &Vec<char>) -> (r: Option<usize>)
        requires
            self.wf(),
        ensures
            match r {
                Some(i) => self.spec_has_path(path@) && i == self.idx_of_path(path@) && i
                    < self.entries@.len() && self.entries@[i as int].path@ == path@,
                None => !self.spec_has_path(path@),
            },
    {
        let mut i: usize = 0;
        while i < self.entries.len()
            invariant
                self.wf(),
                i <= self.entries@.len(),
                forall|k: int| 0 <= k < i ==> (#[trigger] self.entries@[k]).path@ != path@,
            decreases self.entries@.len() - i,
        {
            if crate::filter::chars_eq(self.entries[i].path.as_slice(), path.as_slice()) {
                proof {
                    let j = self.idx_of_path(path@);
                    assert(0 <= j < self.entries@.len() && self.entries@[j].path@ == path@);
                }
                return Some(i);
            }
            i += 1;
        }
        None
    }
}

/// The path of a child entry: the parent's path, a separator, the name.
pub open spec fn spec_child_path(parent: Seq<char>, name: Seq<char>) -> Seq<char> {
    parent + seq!['/'] + name
}

/// Copy a character slice into a fresh vector.
pub fn copy_chars(s: &[char]) -> (v: Vec<char>)
    ensures
        v@ == s@,
{
    let mut v: Vec<char> = Vec::new();
    let mut i: usize = 0;
    while i < s.len()
        invariant
            i <= s@.len(),
            v@ == s@.subrange(0, i as int),
        decreases s@.len() - i,
    {
        v.push(s[i]);
        assert(v@ =~= s@.subrange(0, i as int + 1));
        i += 1;
    }
    assert(v@ =~= s@);
    v
}

/// Join a parent path and a child name.
pub fn join_path(parent: &[char], name: &[char]) -> (v: Vec<char>)
    ensures
        v@ == spec_child_path(parent@, name@),
{
    let mut v = copy_chars(parent);
    v.push('/');
    let mut i: usize = 0;
    while i < name.len()
        invariant
            i <= name@.len(),
            v@ == parent@ + seq!['/'] + name@.subrange(0, i as int),
        decreases name@.len() - i,
    {
        v.push(name[i]);
        assert(v@ =~= parent@ + seq!['/'] + name@.subrange(0, i as int + 1));
        i += 1;
    }
    assert(v@ =~= spec_child_path(parent@, name@));
    v
}

impl InodeTable {
    /// Resolve `name` under `parent` and pin the result: an already pinned
    /// path has its lookup count raised by one; a new path is pinned under
    /// a fresh number with count one. Fails with the no-entry errno exactly
    /// when the parent is not resolvable.
    pub fn lookup(&mut self, parent: u64, name: &Vec<char>) -> (r: Result<u64, i32>)
        requires
            old(self).wf(),
            old(self).next_ino < u64::MAX,
            forall|i: int|
                0 <= i < old(self).entries@.len() ==> (#[trigger] old(self).entries@[i]).lookups
                    < u64::MAX,
        ensures
            final(self).wf(),
            ({
                let t = *old(self);
                let u = *final(self);
                if !t.spec_resolvable(parent) {
                    r == Err::<u64, i32>(ENOENT) && u == t
                } else {
                    let p = spec_child_path(t.spec_path_of(parent), name@);
                    &&& r is Ok
                    &&& u.spec_has_ino(r->Ok_0)
                    &&& u.spec_path_of(r->Ok_0) == p
                    &&& if t.spec_has_path(p) {
                        &&& r == Ok::<u64, i32>(t.spec_ino_of_path(p))
                        &&& u.next_ino == t.next_ino
                        &&& u.spec_lookups(r->Ok_0) == t.spec_lookups(r->Ok_0) + 1
                    } else {
                        &&& r == Ok::<u64, i32>(t.next_ino)
                        &&& u.next_ino == t.next_ino + 1
                        &&& !t.spec_has_ino(t.next_ino)
                        &&& u.spec_lookups(r->Ok_0) == 1
                    }
                    &&& forall|x: u64|
                        x != r->Ok_0 ==> #[trigger] u.spec_lookups(x) == t.spec_lookups(x)
                    &&& forall|x: u64|
                        #[trigger] u.spec_resolvable(x) <==> t.spec_resolvable(x) || x == r->Ok_0
                    &&& forall|x: u64|
                        x != r->Ok_0 && t.spec_resolvable(x) ==> #[trigger] u.spec_path_of(x)
                            == t.spec_path_of(x)
                }
            }),
    {
        let parent_path: Vec<char> = if parent == ROOT_INO {
            Vec::new()
        } else {
            match self.find_ino(parent) {
                Some(i) => copy_chars(self.entries[i].path.as_slice()),
                None => {
                    return Err(ENOENT);
                },
            }
        };
        assert(parent_path@ == old(self).spec_path_of(parent));
        let p = join_path(parent_path.as_slice(), name.as_slice());
        match self.find_path(&p) {
            Some(i) => {
                let e = self.entries.remove(i);
                let ghost t = *old(self);
                let bumped = InodeEntry { ino: e.ino, path: e.path, lookups: e.lookups + 1 };
                self.entries.insert(i, bumped);
                proof {
                    assert(self.entries@ =~= t.entries@.update(i as int, bumped));
                    lemma_update_entry(t, *self, i as int);
                }
                Ok(e.ino)
            },
            None => {
                let ino = self.next_ino;
                let ghost t = *old(self);
                let fresh = InodeEntry { ino, path: p, lookups: 1 };
                self.entries.push(fresh);
                self.next_ino = ino + 1;
                proof {
                    assert(self.entries@ =~= t.entries@.push(fresh));
                    assert(!t.spec_has_ino(ino));
                    lemma_push_entry(t, *self, fresh);
                }
                Ok(ino)
            },
        }
    }

    /// Unpin `n` lookups of an inode. The entry survives exactly when fewer
    /// than its count are forgotten; otherwise it is dropped. Forgetting the
    /// root or an unknown number changes nothing. Returns whether the entry
    /// was dropped.
    pub fn forget(&mut self, ino: u64, n: u64) -> (dropped: bool)
        requires
            old(self).wf(),
        ensures
            final(self).wf(),
            ({
                let t = *old(self);
                let u = *final(self);
                if !t.spec_has_ino(ino) {
                    !dropped && u == t
                } else {
                    &&& dropped <==> n >= t.spec_lookups(ino)
                    &&& u.spec_has_ino(ino) <==> n < t.spec_lookups(ino)
                    &&& u.spec_has_ino(ino) ==> u.spec_lookups(ino) == t.spec_lookups(ino) - n
                        && u.spec_path_of(ino) == t.spec_path_of(ino)
                    &&& u.next_ino == t.next_ino
                    &&& forall|x: u64|
                        x != ino ==> #[trigger] u.spec_lookups(x) == t.spec_lookups(x)
                    &&& forall|x: u64|
                        x != ino ==> (#[trigger] u.spec_resolvable(x) <==> t.spec_resolvable(x))
                    &&& forall|x: u64|
                        x != ino && t.spec_resolvable(x) ==> #[trigger] u.spec_path_of(x)
                            == t.spec_path_of(x)
                }
            }),
    {
        match self.find_ino(ino) {
            None => false,
            Some(i) => {
                let ghost t = *old(self);
                let e = self.entries.remove(i);
                if n < e.lookups {
                    let kept = InodeEntry { ino: e.ino, path: e.path, lookups: e.lookups - n };
                    self.entries.insert(i, kept);
                    proof {
                        assert(self.entries@ =~= t.entries@.update(i as int, kept));
                        lemma_update_entry(t, *self, i as int);
                    }
                    false
                } else {
                    proof {
                        assert(self.entries@ =~= t.entries@.remove(i as int));
                        lemma_remove_entry(t, *self, i as int);
                    }
                    true
                }
            },
        }
    }

    /// The path pinned for an inode, when the kernel may name it.
    pub fn path_of(&self, ino: u64) -> (r: Option<Vec<char>>)
        requires
            self.wf(),
        ensures
            match r {
                Some(p) => self.spec_resolvable(ino) && p@ == self.spec_path_of(ino),
                None => !self.spec_resolvable(ino),
            },
    {
        if ino == ROOT_INO {
            Some(Vec::new())
        } else {
            match self.find_ino(ino) {
                Some(i) => Some(copy_chars(self.entries[i].path.as_slice())),
                None => None,
            }
        }
    }
}

proof fn lemma_update_entry(t: InodeTable, u: InodeTable, i: int)
    requires
        t.wf(),
        0 <= i < t.entries@.len(),
        u.entries@ == t.entries@.update(
            i,
            InodeEntry {
                ino: t.entries@[i].ino,
                path: u.entries@[i].path,
                lookups: u.entries@[i].lookups,
            },
        ),
        u.entries@[i].path == t.entries@[i].path,
        u.entries@[i].lookups >= 1,
        u.next_ino == t.next_ino,
    ensures
        u.wf(),
        forall|x: u64| #[trigger] u.spec_has_ino(x) <==> t.spec_has_ino(x),
        forall|x: u64| u.spec_has_ino(x) ==> #[trigger] u.idx_of_ino(x) == t.idx_of_ino(x),
        forall|x: u64|
            x != t.entries@[i].ino ==> #[trigger] u.spec_lookups(x) == t.spec_lookups(x),
        u.spec_lookups(t.entries@[i].ino) == u.entries@[i].lookups,
        forall|x: u64| #[trigger] u.spec_resolvable(x) <==> t.spec_resolvable(x),
        forall|x: u64|
            t.spec_resolvable(x) ==> #[trigger] u.spec_path_of(x) == t.spec_path_of(x),
        forall|p: Seq<char>| #[trigger] u.spec_has_path(p) <==> t.spec_has_path(p),
{
    assert forall|x: u64| #[trigger] u.spec_has_ino(x) implies t.spec_has_ino(x) by {
        let j = choose|j: int| 0 <= j < u.entries@.len() && u.entries@[j].ino == x;
        assert(t.entries@[j].ino == x);
    }
    assert forall|x: u64| #[trigger] t.spec_has_ino(x) implies u.spec_has_ino(x) by {
        let j = choose|j: int| 0 <= j < t.entries@.len() && t.entries@[j].ino == x;
        assert(u.entries@[j].ino == x);
    }
    assert forall|x: u64| u.spec_has_ino(x) implies #[trigger] u.idx_of_ino(x) == t.idx_of_ino(
        x,
    ) by {
        let ju = u.idx_of_ino(x);
        let jt = t.idx_of_ino(x);
        assert(0 <= ju < u.entries@.len() && u.entries@[ju].ino == x);
        assert(0 <= jt < t.entries@.len() && t.entries@[jt].ino == x);
        assert(t.entries@[ju].ino == x);
    }
    assert forall|p: Seq<char>| #[trigger] u.spec_has_path(p) implies t.spec_has_path(p) by {
        let j = choose|j: int| 0 <= j < u.entries@.len() && u.entries@[j].path@ == p;
        assert(t.entries@[j].path@ == p);
    }
    assert forall|p: Seq<char>| #[trigger] t.spec_has_path(p) implies u.spec_has_path(p) by {
        let j = choose|j: int| 0 <= j < t.entries@.len() && t.entries@[j].path@ == p;
        assert(u.entries@[j].path@ == p);
    }
}

proof fn lemma_push_entry(t: InodeTable, u: InodeTable, fresh: InodeEntry)
    requires
        t.wf(),
        fresh.ino == t.next_ino,
        1 < fresh.ino,
        fresh.lookups == 1,
        !t.spec_has_path(fresh.path@),
        u.entries@ == t.entries@.push(fresh),
        u.next_ino == t.next_ino + 1,
    ensures
        u.wf(),
        !t.spec_has_ino(fresh.ino),
        u.spec_has_ino(fresh.ino),
        u.idx_of_ino(fresh.ino) == t.entries@.len(),
        u.spec_lookups(fresh.ino) == 1,
        u.spec_path_of(fresh.ino) == fresh.path@,
        forall|x: u64| x != fresh.ino ==> #[trigger] u.spec_lookups(x) == t.spec_lookups(x),
        forall|x: u64|
            #[trigger] u.spec_resolvable(x) <==> t.spec_resolvable(x) || x == fresh.ino,
        forall|x: u64|
            x != fresh.ino && t.spec_resolvable(x) ==> #[trigger] u.spec_path_of(x)
                == t.spec_path_of(x),
{
    let n = t.entries@.len() as int;
    assert(u.entries@[n] == fresh);
    if t.spec_has_ino(fresh.ino) {
        let j = t.idx_of_ino(fresh.ino);
        assert(t.entries@[j].ino < t.next_ino);
    }
    assert forall|x: u64| x != fresh.ino implies (#[trigger] u.spec_has_ino(x) <==> t.spec_has_ino(
        x,
    )) by {
        if u.spec_has_ino(x) {
            let j = choose|j: int| 0 <= j < u.entries@.len() && u.entries@[j].ino == x;
            assert(j != n);
            assert(t.entries@[j].ino == x);
        }
        if t.spec_has_ino(x) {
            let j = choose|j: int| 0 <= j < t.entries@.len() && t.entries@[j].ino == x;
            assert(u.entries@[j].ino == x);
        }
    }
    assert forall|x: u64| x != fresh.ino && u.spec_has_ino(x) implies #[trigger] u.idx_of_ino(x)
        == t.idx_of_ino(x) by {
        let ju = u.idx_of_ino(x);
        assert(0 <= ju < u.entries@.len() && u.entries@[ju].ino == x);
        assert(ju != n);
        assert(t.entries@[ju].ino == x);
        let jt = t.idx_of_ino(x);
        assert(0 <= jt < t.entries@.len() && t.entries@[jt].ino == x);
    }
    let ji = u.idx_of_ino(fresh.ino);
    assert(0 <= ji < u.entries@.len() && u.entries@[ji].ino == fresh.ino);
    if ji != n {
        assert(t.entries@[ji].ino == fresh.ino);
        assert(false);
    }
}

proof fn lemma_remove_entry(t: InodeTable, u: InodeTable, i: int)
    requires
        t.wf(),
        0 <= i < t.entries@.len(),
        u.entries@ == t.entries@.remove(i),
        u.next_ino == t.next_ino,
    ensures
        u.wf(),
        !u.spec_has_ino(t.entries@[i].ino),
        forall|x: u64|
            x != t.entries@[i].ino ==> (#[trigger] u.spec_has_ino(x) <==> t.spec_has_ino(x)),
        forall|x: u64|
            x != t.entries@[i].ino ==> #[trigger] u.spec_lookups(x) == t.spec_lookups(x),
        forall|x: u64|
            x != t.entries@[i].ino ==> (#[trigger] u.spec_resolvable(x) <==> t.spec_resolvable(
                x,
            )),
        forall|x: u64|
            x != t.entries@[i].ino && t.spec_resolvable(x) ==> #[trigger] u.spec_path_of(x)
                == t.spec_path_of(x),
{
    let gone = t.entries@[i].ino;
    assert forall|x: u64| x != gone implies (#[trigger] u.spec_has_ino(x) <==> t.spec_has_ino(
        x,
    )) by {
        if u.spec_has_ino(x) {
            let j = choose|j: int| 0 <= j < u.entries@.len() && u.entries@[j].ino == x;
            if j < i {
                assert(t.entries@[j].ino == x);
            } else {
                assert(t.entries@[j + 1].ino == x);
            }
        }
        if t.spec_has_ino(x) {
            let j = choose|j: int| 0 <= j < t.entries@.len() && t.entries@[j].ino == x;
            assert(j != i);
            if j < i {
                assert(u.entries@[j].ino == x);
            } else {
                assert(u.entries@[j - 1].ino == x);
            }
        }
    }
    if u.spec_has_ino(gone) {
        let j = choose|j: int| 0 <= j < u.entries@.len() && u.entries@[j].ino == gone;
        if j < i {
            assert(t.entries@[j].ino == gone);
        } else {
            assert(t.entries@[j + 1].ino == gone);
        }
        assert(false);
    }
    assert forall|x: u64| x != gone implies #[trigger] u.spec_lookups(x) == t.spec_lookups(x) by {
        lemma_remove_entry_same(t, u, i, x);
    }
    assert forall|x: u64| x != gone && t.spec_resolvable(x) implies #[trigger] u.spec_path_of(x)
        == t.spec_path_of(x) by {
        lemma_remove_entry_same(t, u, i, x);
    }
}

proof fn lemma_remove_entry_same(t: InodeTable, u: InodeTable, i: int, x: u64)
    requires
        t.wf(),
        0 <= i < t.entries@.len(),
        u.entries@ == t.entries@.remove(i),
        x != t.entries@[i].ino,
    ensures
        u.spec_has_ino(x) <==> t.spec_has_ino(x),
        u.spec_lookups(x) == t.spec_lookups(x),
        t.spec_resolvable(x) ==> u.spec_path_of(x) == t.spec_path_of(x),
{
    if t.spec_has_ino(x) {
        let jt = t.idx_of_ino(x);
        assert(0 <= jt < t.entries@.len() && t.entries@[jt].ino == x);
        assert(jt != i);
        if jt < i {
            assert(u.entries@[jt] == t.entries@[jt]);
        } else {
            assert(u.entries@[jt - 1] == t.entries@[jt]);
        }
        assert(u.spec_has_ino(x));
        let ju = u.idx_of_ino(x);
        assert(0 <= ju < u.entries@.len() && u.entries@[ju].ino == x);
        if ju < i {
            assert(t.entries@[ju].ino == x);
            assert(ju == jt);
            assert(u.entries@[ju] == t.entries@[jt]);
        } else {
            assert(t.entries@[ju + 1].ino == x);
            assert(ju + 1 == jt);
            assert(u.entries@[ju] == t.entries@[jt]);
        }
    } else {
        if u.spec_has_ino(x) {
            let j = choose|j: int| 0 <= j < u.entries@.len() && u.entries@[j].ino == x;
            if j < i {
                assert(t.entries@[j].ino == x);
            } else {
                assert(t.entries@[j + 1].ino == x);
            }
            assert(false);
        }
    }
}

/// What remains of a lookup count `k` after a series of forgets, applied in
/// order; a count that reaches zero frees the entry, and further forgets of
/// a freed entry change nothing.
pub open spec fn remaining_after(k: int, ns: Seq<u64>) -> int
    decreases ns.len(),
{
    if ns.len() == 0 {
        k
    } else if k <= 0 {
        0
    } else if ns[0] >= k {
        remaining_after(0, ns.drop_first())
    } else {
        remaining_after(k - ns[0], ns.drop_first())
    }
}

/// The total of a series of forget amounts.
pub open spec fn total_of(ns: Seq<u64>) -> int
    decreases ns.len(),
{
    if ns.len() == 0 {
        0
    } else {
        ns[0] + total_of(ns.drop_first())
    }
}

/// Inode pinning: an inode handed out with lookup count `k` survives every
/// series of forgets whose total stays below `k` — with exactly the
/// remainder as its count — and is freed exactly when the forgotten total
/// reaches `k`. Each `forget` call realises one step of `remaining_after`,
/// and each `lookup` raises `k` by one.
pub proof fn lemma_inode_pinning(k: u64, ns: Seq<u64>)
    ensures
        remaining_after(k as int, ns) > 0 <==> total_of(ns) < k,
        total_of(ns) < k ==> remaining_after(k as int, ns) == k - total_of(ns),
    decreases ns.len(),
{
    if ns.len() == 0 {
    } else {
        let t = ns.drop_first();
        assert(total_of(t) >= 0) by {
            lemma_total_nonneg(t);
        }
        if k == 0 {
            lemma_remaining_of_zero(t);
        } else if ns[0] >= k {
            lemma_remaining_of_zero(t);
        } else {
            lemma_inode_pinning((k - ns[0]) as u64, t);
        }
    }
}

proof fn lemma_total_nonneg(ns: Seq<u64>)
    ensures
        total_of(ns) >= 0,
    decreases ns.len(),
{
    if ns.len() != 0 {
        lemma_total_nonneg(ns.drop_first());
    }
}

proof fn lemma_remaining_of_zero(ns: Seq<u64>)
    ensures
        remaining_after(0, ns) == 0,
    decreases ns.len(),
{
    if ns.len() != 0 {
        lemma_remaining_of_zero(ns.drop_first());
    }
}

/// One open handle: its cookie and the host descriptor it owns.
#[derive(Clone, Copy, PartialEq, Eq, Structural, Debug)]
pub struct HandleEntry {
    pub fh: u64,
    pub fd: i32,
}

/// The open-handle table: cookie ↔ host descriptor, cookies allocated from
/// a counter and unique for the table's lifetime.
#[derive(Debug)]
pub struct HandleTable {
    pub entries: Vec<HandleEntry>,
    pub next_fh: u64,
}

impl HandleTable {
    /// Well-formedness: every cookie is below the allocation counter and
    /// unique.
    pub open spec fn wf(&self) -> bool {
        &&& forall|i: int|
            0 <= i < self.entries@.len() ==> (#[trigger] self.entries@[i]).fh < self.next_fh
        &&& forall|i: int, j: int|
            0 <= i < j < self.entries@.len() ==> (#[trigger] self.entries@[i]).fh != (
            #[trigger] self.entries@[j]).fh
    }

    /// Whether a cookie is open.
    pub open spec fn spec_has_fh(&self, fh: u64) -> bool {
        exists|i: int| 0 <= i < self.entries@.len() && (#[trigger] self.entries@[i]).fh == fh
    }

    /// The index of an open cookie.
    pub open spec fn idx_of_fh(&self, fh: u64) -> int {
        choose|i: int| 0 <= i < self.entries@.len() && (#[trigger] self.entries@[i]).fh == fh
    }

    /// The host descriptor an open cookie owns.
    pub open spec fn spec_fd_of(&self, fh: u64) -> i32 {
        self.entries@[self.idx_of_fh(fh)].fd
    }

    /// An empty table.
    pub fn new() -> (r: HandleTable)
        ensures
            r.wf(),
            r.entries@.len() == 0,
            r.next_fh == 1,
    {
        HandleTable { entries: Vec::new(), next_fh: 1 }
    }

    fn find_fh(&self, fh: u64) -> (r: Option<usize>)
        requires
            self.wf(),
        ensures
            match r {
                Some(i) => self.spec_has_fh(fh) && i == self.idx_of_fh(fh) && i
                    < self.entries@.len() && self.entries@[i as int].fh == fh,
                None => !self.spec_has_fh(fh),
            },
    {
        let mut i: usize = 0;
        while i < self.entries.len()
            invariant
                self.wf(),
                i <= self.entries@.len(),
                forall|k: int| 0 <= k < i ==> (#[trigger] self.entries@[k]).fh != fh,
            decreases self.entries@.len() - i,
        {
            if self.entries[i].fh == fh {
                proof {
                    let j = self.idx_of_fh(fh);
                    assert(0 <= j < self.entries@.len() && self.entries@[j].fh == fh);
                }
                return Some(i);
            }
            i += 1;
        }
        None
    }

    /// Record a host descriptor under a fresh cookie; the open or opendir
    /// reply hands the cookie to the kernel.
    pub fn open(&mut self, fd: i32) -> (fh: u64)
        requires
            old(self).wf(),
            old(self).next_fh < u64::MAX,
        ensures
            final(self).wf(),
            fh == old(self).next_fh,
            !old(self).spec_has_fh(fh),
            final(self).spec_has_fh(fh),
            final(self).spec_fd_of(fh) == fd,
            final(self).next_fh == old(self).next_fh + 1,
            forall|x: u64|
                x != fh ==> (#[trigger] final(self).spec_has_fh(x) <==> old(self).spec_has_fh(x)),
            forall|x: u64|
                x != fh && old(self).spec_has_fh(x) ==> #[trigger] final(self).spec_fd_of(x)
                    == old(self).spec_fd_of(x),
    {
        let ghost t = *old(self);
        let fh = self.next_fh;
        let fresh = HandleEntry { fh, fd };
        self.entries.push(fresh);
        self.next_fh = fh + 1;
        proof {
            let n = t.entries@.len() as int;
            assert(self.entries@ =~= t.entries@.push(fresh));
            if t.spec_has_fh(fh) {
                let j = t.idx_of_fh(fh);
                assert(0 <= j < t.entries@.len() && t.entries@[j].fh == fh);
                assert(t.entries@[j].fh < t.next_fh);
                assert(false);
            }
            assert(self.entries@[n].fh == fh);
            assert(self.spec_has_fh(fh));
            let ji = self.idx_of_fh(fh);
            assert(0 <= ji < self.entries@.len() && self.entries@[ji].fh == fh);
            if ji != n {
                assert(t.entries@[ji].fh == fh);
                assert(false);
            }
            assert(self.spec_fd_of(fh) == fd);
            assert forall|x: u64| x != fh implies (#[trigger] self.spec_has_fh(x)
                <==> t.spec_has_fh(x)) by {
                if self.spec_has_fh(x) {
                    let j = choose|j: int|
                        0 <= j < self.entries@.len() && self.entries@[j].fh == x;
                    assert(j != n);
                    assert(t.entries@[j].fh == x);
                }
                if t.spec_has_fh(x) {
                    let j = choose|j: int| 0 <= j < t.entries@.len() && t.entries@[j].fh == x;
                    assert(self.entries@[j].fh == x);
                }
            }
            assert forall|x: u64| x != fh && t.spec_has_fh(x) implies #[trigger] self.spec_fd_of(
                x,
            ) == t.spec_fd_of(x) by {
                let jt = t.idx_of_fh(x);
                assert(0 <= jt < t.entries@.len() && t.entries@[jt].fh == x);
                assert(self.entries@[jt].fh == x);
                assert(self.spec_has_fh(x));
                let ju = self.idx_of_fh(x);
                assert(0 <= ju < self.entries@.len() && self.entries@[ju].fh == x);
                assert(ju != n);
                assert(t.entries@[ju].fh == x);
            }
        }
        fh
    }

    /// Close a cookie: hand its descriptor back — to be closed by the
    /// caller — and drop the record. Fails with the bad-handle errno exactly
    /// when the cookie is not open, so a handle can be released once and
    /// only once.
    pub fn release(&mut self, fh: u64) -> (r: Result<i32, i32>)
        requires
            old(self).wf(),
        ensures
            final(self).wf(),
            ({
                let t = *old(self);
                let u = *final(self);
                if t.spec_has_fh(fh) {
                    &&& r == Ok::<i32, i32>(t.spec_fd_of(fh))
                    &&& !u.spec_has_fh(fh)
                    &&& u.next_fh == t.next_fh
                    &&& forall|x: u64|
                        x != fh ==> (#[trigger] u.spec_has_fh(x) <==> t.spec_has_fh(x))
                    &&& forall|x: u64|
                        x != fh && t.spec_has_fh(x) ==> #[trigger] u.spec_fd_of(x)
                            == t.spec_fd_of(x)
                } else {
                    r == Err::<i32, i32>(EBADF) && u == t
                }
            }),
    {
        match self.find_fh(fh) {
            None => Err(EBADF),
            Some(i) => {
                let ghost t = *old(self);
                let e = self.entries.remove(i);
                proof {
                    assert(self.entries@ =~= t.entries@.remove(i as int));
                    assert forall|x: u64| x != fh implies (#[trigger] self.spec_has_fh(x)
                        <==> t.spec_has_fh(x)) by {
                        if self.spec_has_fh(x) {
                            let j = choose|j: int|
                                0 <= j < self.entries@.len() && self.entries@[j].fh == x;
                            if j < i {
                                assert(t.entries@[j].fh == x);
                            } else {
                                assert(t.entries@[j + 1].fh == x);
                            }
                        }
                        if t.spec_has_fh(x) {
                            let j = choose|j: int|
                                0 <= j < t.entries@.len() && t.entries@[j].fh == x;
                            assert(j != i);
                            if j < i {
                                assert(self.entries@[j].fh == x);
                            } else {
                                assert(self.entries@[j - 1].fh == x);
                            }
                        }
                    }
                    if self.spec_has_fh(fh) {
                        let j = choose|j: int|
                            0 <= j < self.entries@.len() && self.entries@[j].fh == fh;
                        if j < i {
                            assert(t.entries@[j].fh == fh);
                        } else {
                            assert(t.entries@[j + 1].fh == fh);
                        }
                        assert(false);
                    }
                    assert forall|x: u64| x != fh && t.spec_has_fh(x) implies
                        #[trigger] self.spec_fd_of(x) == t.spec_fd_of(x) by {
                        let jt = t.idx_of_fh(x);
                        assert(0 <= jt < t.entries@.len() && t.entries@[jt].fh == x);
                        assert(jt != i);
                        if jt < i {
                            assert(self.entries@[jt] == t.entries@[jt]);
                        } else {
                            assert(self.entries@[jt - 1] == t.entries@[jt]);
                        }
                        assert(self.spec_has_fh(x));
                        let ju = self.idx_of_fh(x);
                        assert(0 <= ju < self.entries@.len() && self.entries@[ju].fh == x);
                        if ju < i {
                            assert(t.entries@[ju].fh == x);
                            assert(self.entries@[ju] == t.entries@[jt]);
                        } else {
                            assert(t.entries@[ju + 1].fh == x);
                            assert(self.entries@[ju] == t.entries@[jt]);
                        }
                    }
                }
                Ok(e.fd)
            },
        }
    }

    /// The host descriptor behind an open cookie.
    pub fn get(&self, fh: u64) -> (r: Option<i32>)
        requires
            self.wf(),
        ensures
            match r {
                Some(fd) => self.spec_has_fh(fh) && fd == self.spec_fd_of(fh),
                None => !self.spec_has_fh(fh),
            },
    {
        match self.find_fh(fh) {
            Some(i) => Some(self.entries[i].fd),
            None => None,
        }
    }
}

/// Handle closure: a fresh handle is open after `open` and owns the given
/// descriptor; the one matching `release` returns that descriptor and
/// closes it; and because a released cookie is no longer open, a second
/// release of it must fail. Stated over the table predicates that `open`
/// and `release` establish.
pub proof fn lemma_handle_closure(t0: HandleTable, t1: HandleTable, t2: HandleTable, fh: u64)
    requires
        !t0.spec_has_fh(fh),
        t1.spec_has_fh(fh),
        !t2.spec_has_fh(fh),
        forall|x: u64| x != fh ==> (#[trigger] t1.spec_has_fh(x) <==> t0.spec_has_fh(x)),
        forall|x: u64| x != fh ==> (#[trigger] t2.spec_has_fh(x) <==> t1.spec_has_fh(x)),
    ensures
        forall|x: u64| #[trigger] t2.spec_has_fh(x) <==> t0.spec_has_fh(x),
        !t2.spec_has_fh(fh),
{
}

} // verus!
