//! Synthetic metadata. The store keeps no file metadata, so every field but
//! an entry's identifier and size is a fixed constant.

use vstd::prelude::*;
use crate::snapshot::Entry;

verus! {

/// Block size reported by filesystem statistics.
pub const BLOCK_SIZE: u32 = 4096;

/// Longest file name reported by filesystem statistics.
pub const NAME_MAX: u32 = 256;

/// Identifier of the root directory.
pub const ROOT_INO: u64 = 1;

/// Identifier of the first entry of a snapshot.
pub const FIRST_INO: u64 = 2;

/// Seconds and nanoseconds, as a point in time or as a duration.
#[derive(Clone, Copy, Debug, PartialEq, Eq, Structural)]
pub struct Timespec {
    pub sec: i64,
    pub nsec: i32,
}

/// The kinds of file this filesystem shows.
#[derive(Clone, Copy, Debug, PartialEq, Eq, Structural)]
pub enum FileKind {
    Directory,
    RegularFile,
}

/// Metadata of one file or directory.
#[derive(Clone, Copy, Debug, PartialEq, Eq, Structural)]
pub struct FileAttr {
    pub ino: u64,
    pub size: u64,
    pub blocks: u64,
    pub atime: Timespec,
    pub mtime: Timespec,
    pub ctime: Timespec,
    pub crtime: Timespec,
    pub kind: FileKind,
    pub perm: u16,
    pub nlink: u32,
    pub uid: u32,
    pub gid: u32,
    pub rdev: u32,
    pub flags: u32,
}

/// Filesystem statistics.
#[derive(Clone, Copy, Debug, PartialEq, Eq, Structural)]
pub struct Statfs {
    pub blocks: u64,
    pub bfree: u64,
    pub bavail: u64,
    pub files: u64,
    pub ffree: u64,
    pub bsize: u32,
    pub namelen: u32,
    pub frsize: u32,
}

/// The timestamp every file reports: the store tracks none.
pub open spec fn epoch() -> Timespec {
    Timespec { sec: 0, nsec: 0 }
}

/// How long a caller may keep a reply before asking again: one second.
pub open spec fn validity() -> Timespec {
    Timespec { sec: 1, nsec: 0 }
}

/// Metadata of the root directory: a directory with mode 0755, two links,
/// no size, owned by user 0 and group 0.
pub open spec fn root_attr() -> FileAttr {
    FileAttr {
        ino: ROOT_INO,
        size: 0,
        blocks: 0,
        atime: epoch(),
        mtime: epoch(),
        ctime: epoch(),
        crtime: epoch(),
        kind: FileKind::Directory,
        perm: 0o755,
        nlink: 2,
        uid: 0,
        gid: 0,
        rdev: 0,
        flags: 0,
    }
}

/// Metadata of the entry `ino` whose value is `size` bytes long: a regular
/// file with mode 0644, one link, one block, owned by user 501 and group 20.
pub open spec fn entry_attr(ino: u64, size: u64) -> FileAttr {
    FileAttr {
        ino,
        size,
        blocks: 1,
        atime: epoch(),
        mtime: epoch(),
        ctime: epoch(),
        crtime: epoch(),
        kind: FileKind::RegularFile,
        perm: 0o644,
        nlink: 1,
        uid: 501,
        gid: 20,
        rdev: 0,
        flags: 0,
    }
}

/// The statistics of a filesystem without capacity accounting: every count
/// is zero.
pub open spec fn placeholder_statfs() -> Statfs {
    Statfs {
        blocks: 0,
        bfree: 0,
        bavail: 0,
        files: 0,
        ffree: 0,
        bsize: BLOCK_SIZE,
        namelen: NAME_MAX,
        frsize: 0,
    }
}

/// The timestamp of every file.
pub fn default_time() -> (t: Timespec)
    ensures
        t == epoch(),
{
    Timespec { sec: 0, nsec: 0 }
}

/// The validity duration sent with attributes and lookups.
pub fn ttl() -> (t: Timespec)
    ensures
        t == validity(),
{
    Timespec { sec: 1, nsec: 0 }
}

/// Metadata of the root directory.
pub fn root_attributes() -> (attr: FileAttr)
    ensures
        attr == root_attr(),
{
    let t = default_time();
    FileAttr {
        ino: ROOT_INO,
        size: 0,
        blocks: 0,
        atime: t,
        mtime: t,
        ctime: t,
        crtime: t,
        kind: FileKind::Directory,
        perm: 0o755,
        nlink: 2,
        uid: 0,
        gid: 0,
        rdev: 0,
        flags: 0,
    }
}

/// Metadata of `entry` under the identifier `ino`. The size is the true
/// length of the entry's value.
pub fn entry_attributes(ino: u64, entry: &Entry) -> (attr: FileAttr)
    ensures
        attr == entry_attr(ino, entry@.value.len() as u64),
{
    let t = default_time();
    FileAttr {
        ino,
        size: entry.value.len() as u64,
        blocks: 1,
        atime: t,
        mtime: t,
        ctime: t,
        crtime: t,
        kind: FileKind::RegularFile,
        perm: 0o644,
        nlink: 1,
        uid: 501,
        gid: 20,
        rdev: 0,
        flags: 0,
    }
}

} // verus!
