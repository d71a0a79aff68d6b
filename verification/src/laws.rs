//! What holds of the filesystem view as a whole, proved from the contracts
//! of its parts.

use vstd::prelude::*;
use crate::adapter::{
    getattr_reply, listing, lookup_reply, read_reply, readdir_reply, window, write_reply,
    AttrReply, DirEntryView, EntryReply,
};
use crate::attr::{entry_attr, root_attr, validity, FileKind, ROOT_INO};
use crate::builder::{step, valid_state, BuildState, EventView};
use crate::dispatch::{answer, consults_store, outcome, start, ReplyView, RequestView};
use crate::error::FsError;
use crate::snapshot::{
    as_map, entry_of, has_key, holds, ino_at, is_first_with_key, lemma_first_with_key_unique,
    lemma_has_key_gives_first, EntryView, MAX_ENTRIES,
};
use crate::store::{
    entry_for, is_simple, lemma_build_reaches_shown, lemma_shown_covers, lemma_shown_distinct,
    lemma_shown_len, lemma_shown_sources, run, shown, transcript, unique_keys, Record,
};

verus! {

/// The identifiers of a snapshot of `n` entries are the numbers from 2 to
/// `n + 1`: the root's identifier names no entry, every position has an
/// identifier of its own, and every identifier names one position.
pub proof fn snapshot_numbers_entries_from_two(s: Seq<EntryView>)
    requires
        s.len() <= MAX_ENTRIES,
    ensures
        !holds(s, ROOT_INO),
        !as_map(s).dom().contains(ROOT_INO),
        forall|ino: u64| as_map(s).dom().contains(ino) <==> 2 <= ino < s.len() + 2,
        forall|i: int|
            0 <= i < s.len() ==> holds(s, #[trigger] ino_at(i) as u64) && entry_of(
                s,
                ino_at(i) as u64,
            ) == s[i],
        forall|i: int, j: int|
            0 <= i < s.len() && 0 <= j < s.len() && i != j ==> #[trigger] ino_at(i)
                != #[trigger] ino_at(j),
{
}

/// A listing of the root from any offset but 0 has no line, whatever the
/// snapshot holds, and is no error.
pub proof fn readdir_past_start_is_empty(s: Seq<EntryView>, offset: u64)
    requires
        offset != 0,
    ensures
        readdir_reply(s, ROOT_INO, offset) == Ok::<Seq<DirEntryView>, FsError>(Seq::empty()),
{
}

/// Listing the root from the start gives `.` and `..` and then one line
/// for each entry, in the order of the identifiers; the line of an entry
/// carries its identifier and its key and calls it a regular file.
pub proof fn readdir_lists_every_entry(s: Seq<EntryView>)
    requires
        s.len() <= MAX_ENTRIES,
    ensures
        readdir_reply(s, ROOT_INO, 0) == Ok::<Seq<DirEntryView>, FsError>(listing(s)),
        listing(s).len() == s.len() + 2,
        listing(s)[0].name == "."@ && listing(s)[0].kind == FileKind::Directory,
        listing(s)[1].name == ".."@ && listing(s)[1].kind == FileKind::Directory,
        forall|i: int|
            0 <= i < s.len() ==> (#[trigger] listing(s)[i + 2]).name == s[i].key && listing(s)[i
                + 2].ino == ino_at(i) && listing(s)[i + 2].kind == FileKind::RegularFile,
{
}

/// Of a store without repeated keys, the listing of the root names every
/// key that holds a simple value on exactly one line after `.` and `..`.
pub proof fn readdir_names_each_simple_key_once(store: Seq<Record>, i: int) -> (line: int)
    requires
        unique_keys(store),
        0 <= i < store.len(),
        is_simple(store[i]),
    ensures
        2 <= line < listing(shown(store)).len(),
        listing(shown(store))[line].name == store[i].key,
        listing(shown(store))[line].kind == FileKind::RegularFile,
        forall|other: int|
            2 <= other < listing(shown(store)).len() && (#[trigger] listing(
                shown(store),
            )[other]).name == store[i].key ==> other == line,
{
    let s = shown(store);
    lemma_shown_covers(store, i);
    lemma_shown_distinct(store);
    let j = choose|j: int| 0 <= j < s.len() && #[trigger] s[j] == entry_for(store[i]);
    assert forall|other: int|
        2 <= other < listing(s).len() && (#[trigger] listing(s)[other]).name
            == store[i].key implies other == j + 2 by {
        if other != j + 2 {
            assert(s[other - 2].key != s[j].key);
        }
    }
    j + 2
}

/// A lookup in the root of a key that holds a simple value succeeds with a
/// regular file, and a read of the identifier it gives returns the value:
/// the bytes from the offset on, as many as were asked for and are there.
/// Read from the start with a size that covers it, that is the whole value.
pub proof fn lookup_then_read_returns_value(store: Seq<Record>, i: int, offset: u64, size: u32)
    requires
        unique_keys(store),
        0 <= i < store.len(),
        is_simple(store[i]),
        store.len() <= MAX_ENTRIES,
    ensures
        lookup_reply(shown(store), ROOT_INO, store[i].key) matches Ok(entry) && entry.attr.kind
            == FileKind::RegularFile && entry.attr.size == store[i].value.len() as u64
            && read_reply(shown(store), entry.attr.ino, offset, size) == Ok::<Seq<u8>, FsError>(
            window(store[i].value, offset, size),
        ),
        size >= store[i].value.len() ==> window(store[i].value, 0, size) == store[i].value,
{
    let s = shown(store);
    let name = store[i].key;
    lemma_shown_len(store);
    lemma_shown_covers(store, i);
    lemma_shown_distinct(store);
    let j = choose|j: int| 0 <= j < s.len() && #[trigger] s[j] == entry_for(store[i]);
    assert(is_first_with_key(s, name, j)) by {
        assert forall|k: int| 0 <= k < j implies (#[trigger] s[k]).key != name by {
            assert(s[k].key != s[j].key);
        }
    }
    lemma_first_with_key_unique(s, name, j);
    if size >= store[i].value.len() {
        assert(window(store[i].value, 0, size) =~= store[i].value);
    }
}

/// A successful lookup names an entry that has the key asked for, and
/// reports the length of its value as the size.
pub proof fn lookup_finds_entry_with_key(s: Seq<EntryView>, name: Seq<char>)
    requires
        has_key(s, name),
        s.len() <= MAX_ENTRIES,
    ensures
        lookup_reply(s, ROOT_INO, name) matches Ok(entry) && holds(s, entry.attr.ino) && entry_of(
            s,
            entry.attr.ino,
        ).key == name && entry.attr == entry_attr(
            entry.attr.ino,
            entry_of(s, entry.attr.ino).value.len() as u64,
        ) && entry.ttl == validity(),
{
    lemma_has_key_gives_first(s, name);
}

/// A lookup of a name that no entry has as its key fails with `NotFound`,
/// and so does every lookup outside the root.
pub proof fn lookup_of_absent_name_fails(s: Seq<EntryView>, parent: u64, name: Seq<char>)
    requires
        parent != ROOT_INO || !has_key(s, name),
    ensures
        lookup_reply(s, parent, name) == Err::<EntryReply, FsError>(FsError::NotFound),
{
}

/// A lookup of a name that no key with a simple value bears fails with
/// `NotFound`.
pub proof fn lookup_of_name_not_in_store_fails(store: Seq<Record>, name: Seq<char>)
    requires
        forall|i: int| 0 <= i < store.len() && is_simple(#[trigger] store[i]) ==> store[i].key != name,
    ensures
        lookup_reply(shown(store), ROOT_INO, name) == Err::<EntryReply, FsError>(FsError::NotFound),
{
    lemma_absent_from_shown(store, name);
}

/// A name that no key with a simple value bears is the key of no entry.
proof fn lemma_absent_from_shown(store: Seq<Record>, name: Seq<char>)
    requires
        forall|i: int| 0 <= i < store.len() && is_simple(#[trigger] store[i]) ==> store[i].key != name,
    ensures
        !has_key(shown(store), name),
{
    let s = shown(store);
    assert forall|j: int| 0 <= j < s.len() implies (#[trigger] s[j]).key != name by {
        lemma_shown_sources(store, j);
    }
}

/// The attributes of the root are the same whatever the snapshot holds.
pub proof fn getattr_of_root_is_fixed(s: Seq<EntryView>)
    ensures
        getattr_reply(s, ROOT_INO) == Ok::<AttrReply, FsError>(
            AttrReply { ttl: validity(), attr: root_attr() },
        ),
{
}

/// A read at or past the end of a value succeeds with no bytes.
pub proof fn read_past_end_is_empty(s: Seq<EntryView>, ino: u64, offset: u64, size: u32)
    requires
        holds(s, ino),
        offset >= entry_of(s, ino).value.len(),
    ensures
        read_reply(s, ino, offset, size) == Ok::<Seq<u8>, FsError>(Seq::empty()),
{
    assert(window(entry_of(s, ino).value, offset, size) =~= Seq::<u8>::empty());
}

/// A read never returns more bytes than were asked for, and a read that
/// reaches past the end returns the bytes that are left.
pub proof fn read_is_bounded(value: Seq<u8>, offset: u64, size: u32)
    ensures
        window(value, offset, size).len() <= size,
        offset <= value.len() && offset + size >= value.len() ==> window(value, offset, size)
            == value.skip(offset as int),
        offset + size <= value.len() ==> window(value, offset, size) == value.subrange(
            offset as int,
            offset + size,
        ),
{
    if offset <= value.len() && offset + size >= value.len() {
        assert(window(value, offset, size) =~= value.skip(offset as int));
    }
}

/// Every entry of a snapshot shows a key of the store that holds a simple
/// value.
pub proof fn snapshot_holds_only_simple_values(store: Seq<Record>, j: int)
    requires
        0 <= j < shown(store).len(),
    ensures
        exists|i: int|
            0 <= i < store.len() && is_simple(#[trigger] store[i]) && shown(store)[j] == entry_for(
                store[i],
            ),
{
    lemma_shown_sources(store, j);
}

/// Of a store without repeated keys, a key that holds a composite value is
/// in no snapshot, on no line of the listing that shows an entry, and found
/// by no lookup.
pub proof fn composite_keys_never_appear(store: Seq<Record>, i: int, parent: u64)
    requires
        unique_keys(store),
        0 <= i < store.len(),
        !is_simple(store[i]),
    ensures
        !has_key(shown(store), store[i].key),
        forall|j: int| 0 <= j < shown(store).len() ==> (#[trigger] shown(store)[j]).key != store[i].key,
        forall|line: int|
            2 <= line < listing(shown(store)).len() ==> (#[trigger] listing(
                shown(store),
            )[line]).name != store[i].key,
        lookup_reply(shown(store), parent, store[i].key) == Err::<EntryReply, FsError>(
            FsError::NotFound,
        ),
{
    let s = shown(store);
    let name = store[i].key;
    assert forall|k: int| 0 <= k < store.len() && is_simple(#[trigger] store[k]) implies store[k].key
        != name by {
        assert(k != i);
    }
    lemma_absent_from_shown(store, name);
    assert forall|line: int| 2 <= line < listing(s).len() implies (#[trigger] listing(
        s,
    )[line]).name != name by {
        assert(s[line - 2].key != name);
    }
}

/// A write never succeeds: it fails with `NotFound` where the identifier
/// names no entry and with `Unsupported` where it names one.
pub proof fn write_is_always_refused(s: Seq<EntryView>, ino: u64)
    ensures
        write_reply(s, ino) is Err,
        holds(s, ino) <==> write_reply(s, ino) == Err::<u32, FsError>(FsError::Unsupported),
        !holds(s, ino) <==> write_reply(s, ino) == Err::<u32, FsError>(FsError::NotFound),
{
}

/// A request that does not consult the store is answered the same
/// whatever the store holds.
pub proof fn unconsulted_answer_is_fixed(
    request: RequestView,
    s1: Seq<EntryView>,
    s2: Seq<EntryView>,
)
    requires
        !consults_store(request),
    ensures
        answer(request, s1) == answer(request, s2),
{
}

/// A request that consults the store, served by a store that answers every
/// question, is answered from the snapshot of that store.
pub proof fn exchange_answers_from_store(request: RequestView, store: Seq<Record>)
    requires
        consults_store(request),
        store.len() <= MAX_ENTRIES,
    ensures
        outcome(request, run(start(request), transcript(store))) == answer(request, shown(store)),
{
    lemma_build_reaches_shown(store);
}

/// A request that does not consult the store is answered at once, as it
/// would be from any snapshot.
pub proof fn exchange_answers_without_store(request: RequestView, s: Seq<EntryView>)
    requires
        !consults_store(request),
    ensures
        outcome(request, start(request)) == answer(request, s),
{
}

/// A request that consults the store fails with `StoreUnavailable` when the
/// store fails once in the course of the exchange, or has lost a key that
/// was asked for.
pub proof fn exchange_fails_with_store(request: RequestView, events: Seq<EventView>, at: int)
    requires
        consults_store(request),
        0 <= at < events.len(),
        events[at] == EventView::Failure || events[at] == EventView::Absent,
    ensures
        outcome(request, run(start(request), events)) == Err::<ReplyView, FsError>(
            FsError::StoreUnavailable,
        ),
{
    build_with_failure_fails(start(request), events, at);
}

/// Every state that a build passes through is valid: whatever the store
/// answers, a question is pending on a key that exists, or the build is
/// over, and no more entries are kept than can be numbered.
pub proof fn build_states_stay_valid(state: BuildState, event: EventView)
    requires
        valid_state(state),
    ensures
        valid_state(step(state, event)),
{
}

/// A build in which the store fails once, or has lost a key that was asked
/// for, ends failed, whatever it answers afterwards.
pub proof fn build_with_failure_fails(state: BuildState, events: Seq<EventView>, at: int)
    requires
        0 <= at < events.len(),
        events[at] == EventView::Failure || events[at] == EventView::Absent,
    ensures
        run(state, events) == BuildState::Failed,
    decreases events.len(),
{
    if at < events.len() - 1 {
        build_with_failure_fails(state, events.drop_last(), at);
    }
}

} // verus!
