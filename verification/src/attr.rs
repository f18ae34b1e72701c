//! The file attribute record the hook filesystem replies with, modeled as
//! plain values, and the attribute-override rule that rewrites chosen
//! fields of it.

use vstd::prelude::*;

verus! {

/// A point in time: seconds and nanoseconds since the epoch.
#[derive(Clone, Copy, PartialEq, Eq, Structural, Debug)]
pub struct TimeSpec {
    pub sec: i64,
    pub nsec: u32,
}

/// The kind of a filesystem entry.
#[derive(Clone, Copy, PartialEq, Eq, Structural, Debug)]
pub enum FileKind {
    NamedPipe,
    CharDevice,
    BlockDevice,
    Directory,
    RegularFile,
    Symlink,
    Socket,
}

/// The attribute record of one entry, as replied to the kernel.
#[derive(Clone, Copy, PartialEq, Eq, Structural, Debug)]
pub struct FileAttr {
    pub ino: u64,
    pub size: u64,
    pub blocks: u64,
    pub atime: TimeSpec,
    pub mtime: TimeSpec,
    pub ctime: TimeSpec,
    pub crtime: TimeSpec,
    pub kind: FileKind,
    pub perm: u16,
    pub nlink: u32,
    pub uid: u32,
    pub gid: u32,
    pub rdev: u32,
    pub flags: u32,
}

/// The field overrides of one attribute-override rule: each present field
/// replaces the corresponding attribute field, absent fields leave it alone.
#[derive(Clone, Copy, PartialEq, Eq, Structural, Debug)]
pub struct AttrOverrides {
    pub ino: Option<u64>,
    pub size: Option<u64>,
    pub blocks: Option<u64>,
    pub atime: Option<TimeSpec>,
    pub mtime: Option<TimeSpec>,
    pub ctime: Option<TimeSpec>,
    pub crtime: Option<TimeSpec>,
    pub kind: Option<FileKind>,
    pub mode: Option<u16>,
    pub nlink: Option<u32>,
    pub uid: Option<u32>,
    pub gid: Option<u32>,
    pub rdev: Option<u32>,
    pub flags: Option<u32>,
}

impl AttrOverrides {
    /// An override record with no field set; applying it changes nothing.
    pub fn none() -> (r: AttrOverrides)
        ensures
            r == spec_no_overrides(),
    {
        AttrOverrides {
            ino: None,
            size: None,
            blocks: None,
            atime: None,
            mtime: None,
            ctime: None,
            crtime: None,
            kind: None,
            mode: None,
            nlink: None,
            uid: None,
            gid: None,
            rdev: None,
            flags: None,
        }
    }
}

/// The override record with no field set.
pub open spec fn spec_no_overrides() -> AttrOverrides {
    AttrOverrides {
        ino: None,
        size: None,
        blocks: None,
        atime: None,
        mtime: None,
        ctime: None,
        crtime: None,
        kind: None,
        mode: None,
        nlink: None,
        uid: None,
        gid: None,
        rdev: None,
        flags: None,
    }
}

/// The attribute record after one override rule: every present override
/// field replaces its attribute field, every absent one leaves the field
/// of the incoming record.
pub open spec fn spec_apply_overrides(ov: AttrOverrides, a: FileAttr) -> FileAttr {
    FileAttr {
        ino: if ov.ino is Some { ov.ino->0 } else { a.ino },
        size: if ov.size is Some { ov.size->0 } else { a.size },
        blocks: if ov.blocks is Some { ov.blocks->0 } else { a.blocks },
        atime: if ov.atime is Some { ov.atime->0 } else { a.atime },
        mtime: if ov.mtime is Some { ov.mtime->0 } else { a.mtime },
        ctime: if ov.ctime is Some { ov.ctime->0 } else { a.ctime },
        crtime: if ov.crtime is Some { ov.crtime->0 } else { a.crtime },
        kind: if ov.kind is Some { ov.kind->0 } else { a.kind },
        perm: if ov.mode is Some { ov.mode->0 } else { a.perm },
        nlink: if ov.nlink is Some { ov.nlink->0 } else { a.nlink },
        uid: if ov.uid is Some { ov.uid->0 } else { a.uid },
        gid: if ov.gid is Some { ov.gid->0 } else { a.gid },
        rdev: if ov.rdev is Some { ov.rdev->0 } else { a.rdev },
        flags: if ov.flags is Some { ov.flags->0 } else { a.flags },
    }
}

/// Overwrite the attribute fields that the rule sets.
pub fn apply_overrides(ov: &AttrOverrides, attr: &mut FileAttr)
    ensures
        *final(attr) == spec_apply_overrides(*ov, *old(attr)),
{
    if let Some(v) = ov.ino {
        attr.ino = v;
    }
    if let Some(v) = ov.size {
        attr.size = v;
    }
    if let Some(v) = ov.blocks {
        attr.blocks = v;
    }
    if let Some(v) = ov.atime {
        attr.atime = v;
    }
    if let Some(v) = ov.mtime {
        attr.mtime = v;
    }
    if let Some(v) = ov.ctime {
        attr.ctime = v;
    }
    if let Some(v) = ov.crtime {
        attr.crtime = v;
    }
    if let Some(v) = ov.kind {
        attr.kind = v;
    }
    if let Some(v) = ov.mode {
        attr.perm = v;
    }
    if let Some(v) = ov.nlink {
        attr.nlink = v;
    }
    if let Some(v) = ov.uid {
        attr.uid = v;
    }
    if let Some(v) = ov.gid {
        attr.gid = v;
    }
    if let Some(v) = ov.rdev {
        attr.rdev = v;
    }
    if let Some(v) = ov.flags {
        attr.flags = v;
    }
}

/// Override fidelity: applying a rule replaces exactly the fields the rule
/// sets, with exactly the configured constants, and leaves every other
/// field of the attribute record unchanged.
pub proof fn lemma_override_fidelity(ov: AttrOverrides, a: FileAttr)
    ensures
        ov.ino is Some ==> spec_apply_overrides(ov, a).ino == ov.ino->0,
        ov.ino is None ==> spec_apply_overrides(ov, a).ino == a.ino,
        ov.size is Some ==> spec_apply_overrides(ov, a).size == ov.size->0,
        ov.size is None ==> spec_apply_overrides(ov, a).size == a.size,
        ov.blocks is Some ==> spec_apply_overrides(ov, a).blocks == ov.blocks->0,
        ov.blocks is None ==> spec_apply_overrides(ov, a).blocks == a.blocks,
        ov.atime is Some ==> spec_apply_overrides(ov, a).atime == ov.atime->0,
        ov.atime is None ==> spec_apply_overrides(ov, a).atime == a.atime,
        ov.mtime is Some ==> spec_apply_overrides(ov, a).mtime == ov.mtime->0,
        ov.mtime is None ==> spec_apply_overrides(ov, a).mtime == a.mtime,
        ov.ctime is Some ==> spec_apply_overrides(ov, a).ctime == ov.ctime->0,
        ov.ctime is None ==> spec_apply_overrides(ov, a).ctime == a.ctime,
        ov.crtime is Some ==> spec_apply_overrides(ov, a).crtime == ov.crtime->0,
        ov.crtime is None ==> spec_apply_overrides(ov, a).crtime == a.crtime,
        ov.kind is Some ==> spec_apply_overrides(ov, a).kind == ov.kind->0,
        ov.kind is None ==> spec_apply_overrides(ov, a).kind == a.kind,
        ov.mode is Some ==> spec_apply_overrides(ov, a).perm == ov.mode->0,
        ov.mode is None ==> spec_apply_overrides(ov, a).perm == a.perm,
        ov.nlink is Some ==> spec_apply_overrides(ov, a).nlink == ov.nlink->0,
        ov.nlink is None ==> spec_apply_overrides(ov, a).nlink == a.nlink,
        ov.uid is Some ==> spec_apply_overrides(ov, a).uid == ov.uid->0,
        ov.uid is None ==> spec_apply_overrides(ov, a).uid == a.uid,
        ov.gid is Some ==> spec_apply_overrides(ov, a).gid == ov.gid->0,
        ov.gid is None ==> spec_apply_overrides(ov, a).gid == a.gid,
        ov.rdev is Some ==> spec_apply_overrides(ov, a).rdev == ov.rdev->0,
        ov.rdev is None ==> spec_apply_overrides(ov, a).rdev == a.rdev,
        ov.flags is Some ==> spec_apply_overrides(ov, a).flags == ov.flags->0,
        ov.flags is None ==> spec_apply_overrides(ov, a).flags == a.flags,
{
}

/// Applying the empty override record is the identity.
pub proof fn lemma_no_overrides_identity(a: FileAttr)
    ensures
        spec_apply_overrides(spec_no_overrides(), a) == a,
{
}

} // verus!
