//! The store as the builder sees it, and what a build over it arrives at.
//!
//! A store is modelled as the list of its keys in the order of one listing,
//! each with the name of its type and, for a simple value, its bytes. The
//! model exists only in proofs: it says what a snapshot has to hold, and
//! `lemma_build_reaches_shown` proves that a build whose questions are all
//! answered by such a store ends with exactly that.

use vstd::prelude::*;
use crate::builder::{classifying, fetching, is_simple_kind, step, BuildState, EventView};
use crate::snapshot::{distinct_keys, EntryView, MAX_ENTRIES};

verus! {

/// One key of the store: its name, the name of the type of its value, and
/// the bytes of its value. The bytes of a composite value are never looked
/// at.
pub struct Record {
    pub key: Seq<char>,
    pub kind: Seq<char>,
    pub value: Seq<u8>,
}

/// Whether the record holds a simple value.
pub open spec fn is_simple(record: Record) -> bool {
    is_simple_kind(record.kind)
}

/// The entry that shows a record.
pub open spec fn entry_for(record: Record) -> EntryView {
    EntryView { key: record.key, value: record.value }
}

/// The entries that a snapshot of `store` holds: one for each record with a
/// simple value, in the order of the listing.
pub open spec fn shown(store: Seq<Record>) -> Seq<EntryView>
    decreases store.len(),
{
    if store.len() == 0 {
        Seq::empty()
    } else {
        let before = shown(store.drop_last());
        if is_simple(store.last()) {
            before.push(entry_for(store.last()))
        } else {
            before
        }
    }
}

/// Whether no two records of `store` have the same key, as holds of any
/// store at one instant.
pub open spec fn unique_keys(store: Seq<Record>) -> bool {
    forall|i: int, j: int|
        0 <= i < store.len() && 0 <= j < store.len() && i != j ==> (#[trigger] store[i]).key != (
        #[trigger] store[j]).key
}

/// The keys of the entries `entries`.
pub open spec fn keys_of(entries: Seq<EntryView>) -> Seq<Seq<char>> {
    entries.map_values(|entry: EntryView| entry.key)
}

/// What `store` answers in the course of one build: its keys, then the type
/// of each key, then the value of each key that holds a simple value.
pub open spec fn transcript(store: Seq<Record>) -> Seq<EventView> {
    seq![EventView::Keys(store.map_values(|record: Record| record.key))] + store.map_values(
        |record: Record| EventView::Kind(record.kind),
    ) + shown(store).map_values(|entry: EntryView| EventView::Value(entry.value))
}

/// The state that a build is in after the answers `events`, starting from
/// `state`.
pub open spec fn run(state: BuildState, events: Seq<EventView>) -> BuildState
    decreases events.len(),
{
    if events.len() == 0 {
        state
    } else {
        step(run(state, events.drop_last()), events.last())
    }
}

/// A snapshot holds no more entries than the store has keys.
pub proof fn lemma_shown_len(store: Seq<Record>)
    ensures
        shown(store).len() <= store.len(),
    decreases store.len(),
{
    if store.len() > 0 {
        lemma_shown_len(store.drop_last());
    }
}

/// Taking one more record of the store into account adds its entry where
/// its value is simple, and nothing otherwise.
pub proof fn lemma_shown_take_succ(store: Seq<Record>, n: int)
    requires
        0 <= n < store.len(),
    ensures
        shown(store.take(n + 1)) == if is_simple(store[n]) {
            shown(store.take(n)).push(entry_for(store[n]))
        } else {
            shown(store.take(n))
        },
{
    assert(store.take(n + 1).drop_last() =~= store.take(n));
}

/// Every entry of a snapshot shows a record of the store that holds a
/// simple value.
pub proof fn lemma_shown_sources(store: Seq<Record>, j: int)
    requires
        0 <= j < shown(store).len(),
    ensures
        exists|i: int|
            0 <= i < store.len() && is_simple(#[trigger] store[i]) && shown(store)[j] == entry_for(
                store[i],
            ),
    decreases store.len(),
{
    let before = store.drop_last();
    if is_simple(store.last()) && j == shown(before).len() {
        assert(is_simple(store[store.len() - 1]));
    } else {
        lemma_shown_sources(before, j);
        let i = choose|i: int|
            0 <= i < before.len() && is_simple(#[trigger] before[i]) && shown(before)[j]
                == entry_for(before[i]);
        assert(is_simple(store[i]));
    }
}

/// Every record of the store that holds a simple value is shown by an entry
/// of the snapshot.
pub proof fn lemma_shown_covers(store: Seq<Record>, i: int)
    requires
        0 <= i < store.len(),
        is_simple(store[i]),
    ensures
        exists|j: int| 0 <= j < shown(store).len() && #[trigger] shown(store)[j] == entry_for(store[i]),
    decreases store.len(),
{
    let before = store.drop_last();
    if i == store.len() - 1 {
        let j = shown(before).len() as int;
        assert(shown(store)[j] == entry_for(store[i]));
    } else {
        lemma_shown_covers(before, i);
        let j = choose|j: int|
            0 <= j < shown(before).len() && #[trigger] shown(before)[j] == entry_for(before[i]);
        assert(shown(store)[j] == entry_for(store[i]));
    }
}

/// The snapshot of a store without repeated keys has no repeated keys.
pub proof fn lemma_shown_distinct(store: Seq<Record>)
    requires
        unique_keys(store),
    ensures
        distinct_keys(shown(store)),
    decreases store.len(),
{
    if store.len() > 0 {
        let before = store.drop_last();
        lemma_shown_distinct(before);
        let s = shown(store);
        assert forall|a: int, b: int| 0 <= a < s.len() && 0 <= b < s.len() && a != b implies (
        #[trigger] s[a]).key != (#[trigger] s[b]).key by {
            if a < shown(before).len() && b < shown(before).len() {
                assert(shown(before)[a].key != shown(before)[b].key);
            } else {
                let old_one = if a < b {
                    a
                } else {
                    b
                };
                lemma_shown_sources(before, old_one);
                let i = choose|i: int|
                    0 <= i < before.len() && is_simple(#[trigger] before[i]) && shown(
                        before,
                    )[old_one] == entry_for(before[i]);
                assert(store[i].key != store[store.len() - 1].key);
            }
        }
    }
}

/// After the listing and the types of the first `k` keys, the build is
/// classifying, and has kept the keys of the simple values among those `k`.
proof fn lemma_run_classifies(store: Seq<Record>, k: int)
    requires
        store.len() <= MAX_ENTRIES,
        0 <= k <= store.len(),
    ensures
        run(BuildState::Listing, transcript(store).take(1 + k)) == classifying(
            store.map_values(|record: Record| record.key),
            keys_of(shown(store.take(k))),
            k as nat,
        ),
    decreases k,
{
    let t = transcript(store);
    let keys = store.map_values(|record: Record| record.key);
    if k == 0 {
        assert(t.take(1).drop_last() =~= Seq::<EventView>::empty());
        assert(t.take(1).last() == EventView::Keys(keys));
        assert(store.take(0) =~= Seq::<Record>::empty());
        assert(keys_of(shown(store.take(0))) =~= Seq::<Seq<char>>::empty());
        assert(run(BuildState::Listing, t.take(1).drop_last()) == BuildState::Listing);
    } else {
        lemma_run_classifies(store, k - 1);
        lemma_shown_take_succ(store, k - 1);
        lemma_shown_len(store.take(k - 1));
        assert(t.take(1 + k).drop_last() =~= t.take(k));
        assert(t.take(1 + k).last() == EventView::Kind(store[k - 1].kind));
        let kept = keys_of(shown(store.take(k - 1)));
        if is_simple(store[k - 1]) {
            assert(keys_of(shown(store.take(k))) =~= kept.push(keys[k - 1]));
        }
    }
}

/// After the listing, every type and the first `j` values, the build has
/// fetched the first `j` entries of the snapshot.
proof fn lemma_run_fetches(store: Seq<Record>, j: int)
    requires
        store.len() <= MAX_ENTRIES,
        0 <= j <= shown(store).len(),
    ensures
        run(BuildState::Listing, transcript(store).take(1 + store.len() + j)) == fetching(
            keys_of(shown(store)),
            shown(store).take(j),
        ),
    decreases j,
{
    let t = transcript(store);
    let n = store.len() as int;
    let all = shown(store);
    if j == 0 {
        lemma_run_classifies(store, n);
        assert(store.take(n) =~= store);
        assert(all.take(0) =~= Seq::<EntryView>::empty());
    } else {
        lemma_run_fetches(store, j - 1);
        assert(t.take(1 + n + j).drop_last() =~= t.take(1 + n + j - 1));
        assert(t.take(1 + n + j).last() == EventView::Value(all[j - 1].value));
        assert(all.take(j - 1).push(all[j - 1]) =~= all.take(j));
        assert(keys_of(all)[j - 1] == all[j - 1].key);
    }
}

/// A build whose questions are answered by `store` ends with the snapshot
/// of `store`.
pub proof fn lemma_build_reaches_shown(store: Seq<Record>)
    requires
        store.len() <= MAX_ENTRIES,
    ensures
        run(BuildState::Listing, transcript(store)) == (BuildState::Done { entries: shown(store) }),
{
    let t = transcript(store);
    let all = shown(store);
    lemma_run_fetches(store, all.len() as int);
    assert(t.take(1 + store.len() as int + all.len() as int) =~= t);
    assert(all.take(all.len() as int) =~= all);
}

} // verus!
