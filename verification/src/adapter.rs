//! The answers to filesystem requests.
//!
//! Each handler is a function of the request and of the snapshot taken for
//! it; nothing is kept from one request to the next. The namespace is flat:
//! the root directory, identifier 1, is the only directory, and every entry
//! of the snapshot is a regular file in it. The root is listed whole and
//! once, at offset 0. The view is read-only: a write to an existing file is
//! refused, never accepted and dropped.

use vstd::prelude::*;
use crate::attr::{
    entry_attr, entry_attributes, placeholder_statfs, root_attr, root_attributes, ttl, validity,
    FileAttr, FileKind, Statfs, Timespec, BLOCK_SIZE, NAME_MAX, ROOT_INO,
};
use crate::error::FsError;
use crate::snapshot::{
    entry_of, first_with_key, has_key, holds, ino_at, lemma_has_key_gives_first, EntryView,
    Snapshot,
};

verus! {

/// The answer to a successful lookup.
#[derive(Clone, Copy, Debug, PartialEq, Eq, Structural)]
pub struct EntryReply {
    /// How long the caller may keep the answer.
    pub ttl: Timespec,
    pub attr: FileAttr,
    pub generation: u64,
}

/// The answer to a successful attribute query.
#[derive(Clone, Copy, Debug, PartialEq, Eq, Structural)]
pub struct AttrReply {
    /// How long the caller may keep the answer.
    pub ttl: Timespec,
    pub attr: FileAttr,
}

/// The answer to an open: a handle that nothing checks later.
#[derive(Clone, Copy, Debug, PartialEq, Eq, Structural)]
pub struct OpenReply {
    pub fh: u64,
    pub flags: u32,
}

/// One line of a directory listing.
#[derive(Clone, Debug, PartialEq, Eq)]
pub struct DirEntry {
    pub ino: u64,
    /// The offset that goes to the transport with the line, which hands the
    /// offset of the last line it took back when it asks for more: 0 for
    /// `.`, 1 for `..` and 2 for every entry. Since only offset 0 is
    /// answered with lines, asking for more after an entry ends the listing.
    pub offset: u64,
    pub kind: FileKind,
    pub name: String,
}

/// A line of a directory listing as mathematics.
pub struct DirEntryView {
    pub ino: u64,
    pub offset: u64,
    pub kind: FileKind,
    pub name: Seq<char>,
}

impl View for DirEntry {
    type V = DirEntryView;

    open spec fn view(&self) -> DirEntryView {
        DirEntryView { ino: self.ino, offset: self.offset, kind: self.kind, name: self.name@ }
    }
}

/// The lines of a listing as mathematics.
pub open spec fn lines_view(lines: Seq<DirEntry>) -> Seq<DirEntryView> {
    lines.map_values(|line: DirEntry| line@)
}

/// What a lookup of `name` in the directory `parent` is answered with: the
/// attributes of the first entry with that key, where the directory is the
/// root and such an entry exists.
pub open spec fn lookup_reply(s: Seq<EntryView>, parent: u64, name: Seq<char>) -> Result<
    EntryReply,
    FsError,
> {
    if parent == ROOT_INO && has_key(s, name) {
        let i = first_with_key(s, name);
        Ok(
            EntryReply {
                ttl: validity(),
                attr: entry_attr(ino_at(i) as u64, s[i].value.len() as u64),
                generation: 0,
            },
        )
    } else {
        Err(FsError::NotFound)
    }
}

/// What an attribute query for `ino` is answered with.
pub open spec fn getattr_reply(s: Seq<EntryView>, ino: u64) -> Result<AttrReply, FsError> {
    if ino == ROOT_INO {
        Ok(AttrReply { ttl: validity(), attr: root_attr() })
    } else if holds(s, ino) {
        Ok(
            AttrReply {
                ttl: validity(),
                attr: entry_attr(ino, entry_of(s, ino).value.len() as u64),
            },
        )
    } else {
        Err(FsError::NotFound)
    }
}

/// The bytes of `value` from `offset` on, at most `size` of them. An offset
/// at or past the end gives no bytes.
pub open spec fn window(value: Seq<u8>, offset: u64, size: u32) -> Seq<u8> {
    let start = if offset <= value.len() {
        offset as int
    } else {
        value.len() as int
    };
    let end = if start + size <= value.len() {
        start + size
    } else {
        value.len() as int
    };
    value.subrange(start, end)
}

/// What a read of `size` bytes at `offset` of `ino` is answered with.
pub open spec fn read_reply(s: Seq<EntryView>, ino: u64, offset: u64, size: u32) -> Result<
    Seq<u8>,
    FsError,
> {
    if holds(s, ino) {
        Ok(window(entry_of(s, ino).value, offset, size))
    } else {
        Err(FsError::NotFound)
    }
}

/// What a write to `ino` is answered with: never a count of bytes.
pub open spec fn write_reply(s: Seq<EntryView>, ino: u64) -> Result<u32, FsError> {
    if holds(s, ino) {
        Err(FsError::Unsupported)
    } else {
        Err(FsError::NotFound)
    }
}

/// The line at position `i` of the root's listing: `.`, then `..`, then the
/// entries in the order of their identifiers.
pub open spec fn line_at(s: Seq<EntryView>, i: int) -> DirEntryView {
    if i == 0 {
        DirEntryView { ino: ROOT_INO, offset: 0, kind: FileKind::Directory, name: "."@ }
    } else if i == 1 {
        DirEntryView { ino: ROOT_INO, offset: 1, kind: FileKind::Directory, name: ".."@ }
    } else {
        DirEntryView {
            ino: ino_at(i - 2) as u64,
            offset: 2,
            kind: FileKind::RegularFile,
            name: s[i - 2].key,
        }
    }
}

/// The whole listing of the root directory.
pub open spec fn listing(s: Seq<EntryView>) -> Seq<DirEntryView> {
    Seq::new(s.len() + 2, |i: int| line_at(s, i))
}

/// What a listing of the directory `ino` from `offset` is answered with:
/// the whole listing of the root at offset 0, and no line at any other
/// offset. There is no listing in parts.
pub open spec fn readdir_reply(s: Seq<EntryView>, ino: u64, offset: u64) -> Result<
    Seq<DirEntryView>,
    FsError,
> {
    if ino != ROOT_INO {
        Err(FsError::NotFound)
    } else if offset == 0 {
        Ok(listing(s))
    } else {
        Ok(Seq::empty())
    }
}

/// Filesystem statistics: placeholders, since a key-value store has no
/// capacity to account for.
pub fn statfs() -> (stats: Statfs)
    ensures
        stats == placeholder_statfs(),
{
    Statfs {
        blocks: 0,
        bfree: 0,
        bavail: 0,
        files: 0,
        ffree: 0,
        bsize: BLOCK_SIZE,
        namelen: NAME_MAX,
        frsize: 0,
    }
}

/// Looks `name` up in the directory `parent`.
pub fn lookup(snapshot: &Snapshot, parent: u64, name: &str) -> (reply: Result<EntryReply, FsError>)
    requires
        snapshot.wf(),
    ensures
        reply == lookup_reply(snapshot@, parent, name@),
{
    if parent != ROOT_INO {
        return Err(FsError::NotFound);
    }
    match snapshot.find(name) {
        Some(ino) => {
            proof {
                lemma_has_key_gives_first(snapshot@, name@);
            }
            match snapshot.get(ino) {
                Some(entry) => Ok(
                    EntryReply {
                        ttl: ttl(),
                        attr: entry_attributes(ino, entry),
                        generation: 0,
                    },
                ),
                None => Err(FsError::NotFound),
            }
        },
        None => Err(FsError::NotFound),
    }
}

/// The attributes of `ino`. The root's attributes do not depend on the
/// snapshot.
pub fn getattr(snapshot: &Snapshot, ino: u64) -> (reply: Result<AttrReply, FsError>)
    ensures
        reply == getattr_reply(snapshot@, ino),
{
    if ino == ROOT_INO {
        return Ok(AttrReply { ttl: ttl(), attr: root_attributes() });
    }
    match snapshot.get(ino) {
        Some(entry) => Ok(
            AttrReply { ttl: ttl(), attr: entry_attributes(ino, entry) },
        ),
        None => Err(FsError::NotFound),
    }
}

/// Opens `ino`. Every open succeeds: neither the identifier nor the access
/// mode is checked.
pub fn open(_ino: u64, _flags: u32) -> (reply: OpenReply)
    ensures
        reply == (OpenReply { fh: 0, flags: 0 }),
{
    OpenReply { fh: 0, flags: 0 }
}

/// Reads at most `size` bytes of the value of `ino`, starting at `offset`.
/// A read at or past the end gives no bytes, and a read that reaches past
/// the end gives the bytes that are left.
pub fn read(snapshot: &Snapshot, ino: u64, offset: u64, size: u32) -> (reply: Result<
    Vec<u8>,
    FsError,
>)
    ensures
        match reply {
            Ok(data) => read_reply(snapshot@, ino, offset, size) == Ok::<Seq<u8>, FsError>(data@),
            Err(e) => read_reply(snapshot@, ino, offset, size) == Err::<Seq<u8>, FsError>(e),
        },
{
    match snapshot.get(ino) {
        None => Err(FsError::NotFound),
        Some(entry) => {
            let len = entry.value.len();
            let start: usize = if offset <= len as u64 {
                offset as usize
            } else {
                len
            };
            let end: usize = if size as u64 <= (len - start) as u64 {
                start + size as usize
            } else {
                len
            };
            let mut data: Vec<u8> = Vec::new();
            let mut i: usize = start;
            while i < end
                invariant
                    start <= i <= end <= entry.value.len(),
                    data@ == entry.value@.subrange(start as int, i as int),
                decreases end - i,
            {
                data.push(entry.value[i]);
                i += 1;
            }
            Ok(data)
        },
    }
}

/// Refuses a write. A write to an identifier that names no entry fails
/// with `NotFound`, any other with `Unsupported`: the store is never
/// changed, whatever the offset and the data are.
pub fn write(snapshot: &Snapshot, ino: u64, _offset: u64, _data: &[u8]) -> (reply: Result<
    u32,
    FsError,
>)
    ensures
        reply == write_reply(snapshot@, ino),
{
    match snapshot.get(ino) {
        Some(_) => Err(FsError::Unsupported),
        None => Err(FsError::NotFound),
    }
}

/// Lists the directory `ino`. At offset 0 the listing is `.` and `..`, then
/// one line for each entry of the snapshot, with its identifier and its key
/// as the name. At any other offset it has no line, which is no error. Only
/// the root can be listed.
pub fn readdir(snapshot: &Snapshot, ino: u64, offset: u64) -> (reply: Result<
    Vec<DirEntry>,
    FsError,
>)
    requires
        snapshot.wf(),
    ensures
        match reply {
            Ok(lines) => readdir_reply(snapshot@, ino, offset) == Ok::<
                Seq<DirEntryView>,
                FsError,
            >(lines_view(lines@)),
            Err(e) => readdir_reply(snapshot@, ino, offset) == Err::<Seq<DirEntryView>, FsError>(
                e,
            ),
        },
{
    if ino != ROOT_INO {
        return Err(FsError::NotFound);
    }
    let mut lines: Vec<DirEntry> = Vec::new();
    if offset != 0 {
        assert(lines_view(lines@) =~= Seq::<DirEntryView>::empty());
        return Ok(lines);
    }
    let count = snapshot.len();
    let ghost all = listing(snapshot@);
    lines.push(
        DirEntry { ino: ROOT_INO, offset: 0, kind: FileKind::Directory, name: ".".to_owned() },
    );
    lines.push(
        DirEntry { ino: ROOT_INO, offset: 1, kind: FileKind::Directory, name: "..".to_owned() },
    );
    let mut i: usize = 0;
    assert(lines_view(lines@) =~= all.take(2));
    while i < count
        invariant
            i <= count,
            count == snapshot@.len(),
            snapshot.wf(),
            all == listing(snapshot@),
            lines_view(lines@) == all.take(i + 2),
        decreases count - i,
    {
        let entry = snapshot.entry_at(i);
        let ghost before = lines_view(lines@);
        lines.push(
            DirEntry {
                ino: i as u64 + 2,
                offset: 2,
                kind: FileKind::RegularFile,
                name: entry.key.clone(),
            },
        );
        assert(lines_view(lines@) =~= before.push(line_at(snapshot@, i + 2)));
        i += 1;
        assert(lines_view(lines@) =~= all.take(i + 2));
    }
    assert(all.take(all.len() as int) =~= all);
    Ok(lines)
}

} // verus!
