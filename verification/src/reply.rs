//! The reply of one filesystem operation, one variant per reply shape the
//! kernel protocol knows. The injector chain may mutate a reply — today
//! only the attribute record inside the shapes that carry one — before it
//! is encoded onto the wire.

use vstd::prelude::*;
use crate::attr::{FileAttr, FileKind};

verus! {

/// One directory entry of a `readdir` reply.
#[derive(Clone, PartialEq, Eq, Debug)]
pub struct DirEntry {
    pub ino: u64,
    pub offset: i64,
    pub kind: FileKind,
    pub name: Vec<char>,
}

/// The filesystem half of a statfs reply.
#[derive(Clone, Copy, PartialEq, Eq, Structural, Debug)]
pub struct StatFsReply {
    pub blocks: u64,
    pub bfree: u64,
    pub bavail: u64,
    pub files: u64,
    pub ffree: u64,
    pub bsize: u32,
    pub namelen: u32,
    pub frsize: u32,
}

/// A typed reply, ready for the sink that encodes it for the kernel.
#[derive(Clone, PartialEq, Eq, Debug)]
pub enum Reply {
    Entry { attr: FileAttr, generation: u64 },
    Attr { attr: FileAttr },
    Data { data: Vec<u8> },
    Open { fh: u64, flags: u32 },
    Write { written: u32 },
    StatFs { stat: StatFsReply },
    Xattr { data: Vec<u8> },
    Lock { start: u64, end: u64, typ: u32, pid: u32 },
    Bmap { block: u64 },
    Create { attr: FileAttr, generation: u64, fh: u64, flags: u32 },
    Directory { entries: Vec<DirEntry> },
    Empty,
}

/// The attribute record a reply carries, when its shape has one.
pub open spec fn reply_attr(r: Reply) -> Option<FileAttr> {
    match r {
        Reply::Entry { attr, .. } => Some(attr),
        Reply::Attr { attr } => Some(attr),
        Reply::Create { attr, .. } => Some(attr),
        _ => None,
    }
}

/// The same reply with its attribute record replaced; shapes without one
/// are unchanged.
pub open spec fn reply_with_attr(r: Reply, a: FileAttr) -> Reply {
    match r {
        Reply::Entry { attr, generation } => Reply::Entry { attr: a, generation },
        Reply::Attr { attr } => Reply::Attr { attr: a },
        Reply::Create { attr, generation, fh, flags } => Reply::Create {
            attr: a,
            generation,
            fh,
            flags,
        },
        _ => r,
    }
}

} // verus!
