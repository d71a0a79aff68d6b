//! The point-in-time view of the store that one request is answered from.
//!
//! A snapshot numbers the entries it holds: the entry at position `i` has
//! the identifier `i + 2`. Identifier 1 belongs to the root directory and
//! never names an entry. Two snapshots taken at different times may give
//! one key different identifiers, since the store lists its keys in no
//! particular order.

use vstd::prelude::*;
use crate::attr::FIRST_INO;

verus! {

/// The most entries a snapshot can number: identifiers are 64 bits wide and
/// start at 2.
pub const MAX_ENTRIES: u64 = 0xffff_ffff_ffff_fffd;

/// One key of the store with its value, shown as a file.
#[derive(Clone, Debug, PartialEq, Eq)]
pub struct Entry {
    pub key: String,
    pub value: Vec<u8>,
}

/// An entry as mathematics: the key's characters and the value's bytes.
pub struct EntryView {
    pub key: Seq<char>,
    pub value: Seq<u8>,
}

impl View for Entry {
    type V = EntryView;

    open spec fn view(&self) -> EntryView {
        EntryView { key: self.key@, value: self.value@ }
    }
}

/// The identifier of the entry at position `index`.
pub open spec fn ino_at(index: int) -> int {
    index + FIRST_INO
}

/// Whether `ino` names an entry of the snapshot `s`.
pub open spec fn holds(s: Seq<EntryView>, ino: u64) -> bool {
    FIRST_INO <= ino && ino - FIRST_INO < s.len()
}

/// The entry that `ino` names in `s`, where `holds(s, ino)`.
pub open spec fn entry_of(s: Seq<EntryView>, ino: u64) -> EntryView
    recommends
        holds(s, ino),
{
    s[ino - FIRST_INO]
}

/// The snapshot as a mapping from identifier to entry.
pub open spec fn as_map(s: Seq<EntryView>) -> Map<u64, EntryView> {
    Map::new(|ino: u64| holds(s, ino), |ino: u64| entry_of(s, ino))
}

/// Whether some entry of `s` has the key `name`.
pub open spec fn has_key(s: Seq<EntryView>, name: Seq<char>) -> bool {
    exists|i: int| 0 <= i < s.len() && (#[trigger] s[i]).key == name
}

/// Whether position `i` is the first in `s` whose entry has the key `name`.
pub open spec fn is_first_with_key(s: Seq<EntryView>, name: Seq<char>, i: int) -> bool {
    &&& 0 <= i < s.len()
    &&& s[i].key == name
    &&& forall|j: int| 0 <= j < i ==> (#[trigger] s[j]).key != name
}

/// The first position in `s` whose entry has the key `name`, where there is
/// one.
pub open spec fn first_with_key(s: Seq<EntryView>, name: Seq<char>) -> int
    recommends
        has_key(s, name),
{
    choose|i: int| is_first_with_key(s, name, i)
}

/// Whether no two entries of `s` have the same key, as holds of what one
/// listing of the store gives.
pub open spec fn distinct_keys(s: Seq<EntryView>) -> bool {
    forall|i: int, j: int|
        0 <= i < s.len() && 0 <= j < s.len() && i != j ==> (#[trigger] s[i]).key != (
        #[trigger] s[j]).key
}

/// At most one position is the first with a given key.
pub proof fn lemma_first_with_key_unique(s: Seq<EntryView>, name: Seq<char>, i: int)
    requires
        is_first_with_key(s, name, i),
    ensures
        has_key(s, name),
        first_with_key(s, name) == i,
{
    let k = first_with_key(s, name);
    assert(is_first_with_key(s, name, k));
    if k < i {
        assert(s[k].key != name);
    } else if i < k {
        assert(s[i].key != name);
    }
}

/// Where a key occurs, it occurs a first time.
pub proof fn lemma_has_key_gives_first(s: Seq<EntryView>, name: Seq<char>)
    requires
        has_key(s, name),
    ensures
        is_first_with_key(s, name, first_with_key(s, name)),
    decreases s.len(),
{
    let i = choose|i: int| 0 <= i < s.len() && (#[trigger] s[i]).key == name;
    lemma_first_below(s, name, i);
}

/// A key that occurs at position `i` has a first position at or before `i`.
proof fn lemma_first_below(s: Seq<EntryView>, name: Seq<char>, i: int)
    requires
        0 <= i < s.len(),
        s[i].key == name,
    ensures
        exists|k: int| 0 <= k <= i && is_first_with_key(s, name, k),
    decreases i,
{
    if exists|j: int| 0 <= j < i && (#[trigger] s[j]).key == name {
        let j = choose|j: int| 0 <= j < i && (#[trigger] s[j]).key == name;
        lemma_first_below(s, name, j);
    } else {
        assert(is_first_with_key(s, name, i));
    }
}

/// A numbered set of entries: position `i` holds the entry with the
/// identifier `i + 2`.
#[derive(Clone, Debug, PartialEq, Eq)]
pub struct Snapshot {
    entries: Vec<Entry>,
}

impl View for Snapshot {
    type V = Seq<EntryView>;

    closed spec fn view(&self) -> Seq<EntryView> {
        self.entries@.map_values(|e: Entry| e@)
    }
}

impl Snapshot {
    /// Every entry has an identifier that fits in 64 bits.
    pub open spec fn wf(&self) -> bool {
        self@.len() <= MAX_ENTRIES
    }

    /// The snapshot of an empty store.
    pub fn new() -> (snapshot: Snapshot)
        ensures
            snapshot.wf(),
            snapshot@ == Seq::<EntryView>::empty(),
    {
        let snapshot = Snapshot { entries: Vec::new() };
        assert(snapshot@ =~= Seq::<EntryView>::empty());
        snapshot
    }

    /// The number of entries.
    pub fn len(&self) -> (n: usize)
        ensures
            n == self@.len(),
    {
        self.entries.len()
    }

    /// Whether the snapshot has no entry.
    pub fn is_empty(&self) -> (empty: bool)
        ensures
            empty == (self@.len() == 0),
    {
        self.entries.len() == 0
    }

    /// Adds an entry and gives it the next free identifier, which is
    /// returned. The identifiers of the other entries stay. A snapshot that
    /// already holds `MAX_ENTRIES` entries is left as it is and `None` is
    /// returned.
    pub fn insert(&mut self, key: String, value: Vec<u8>) -> (ino: Option<u64>)
        requires
            old(self).wf(),
        ensures
            final(self).wf(),
            old(self)@.len() < MAX_ENTRIES ==> ino == Some(ino_at(old(self)@.len() as int) as u64)
                && final(self)@ == old(self)@.push(EntryView { key: key@, value: value@ }),
            old(self)@.len() >= MAX_ENTRIES ==> ino.is_none() && final(self)@ == old(self)@,
    {
        let n = self.entries.len();
        if n as u64 >= MAX_ENTRIES {
            return None;
        }
        let ghost added = EntryView { key: key@, value: value@ };
        self.entries.push(Entry { key, value });
        assert(self@ =~= old(self)@.push(added));
        Some(n as u64 + FIRST_INO)
    }

    /// The entry that `ino` names, if it names one.
    pub fn get(&self, ino: u64) -> (entry: Option<&Entry>)
        ensures
            holds(self@, ino) ==> entry.is_some() && entry.unwrap()@ == entry_of(self@, ino),
            !holds(self@, ino) ==> entry.is_none(),
    {
        if ino < FIRST_INO {
            return None;
        }
        let offset = ino - FIRST_INO;
        if offset >= self.entries.len() as u64 {
            return None;
        }
        Some(&self.entries[offset as usize])
    }

    /// The entry at position `index`, counted from 0.
    pub fn entry_at(&self, index: usize) -> (entry: &Entry)
        requires
            index < self@.len(),
        ensures
            entry@ == self@[index as int],
    {
        &self.entries[index]
    }

    /// The identifier of the first entry whose key is `name`, or `None`
    /// where no entry has that key.
    pub fn find(&self, name: &str) -> (ino: Option<u64>)
        requires
            self.wf(),
        ensures
            has_key(self@, name@) ==> ino == Some(
                ino_at(first_with_key(self@, name@)) as u64,
            ),
            !has_key(self@, name@) ==> ino.is_none(),
    {
        let wanted = name.to_owned();
        let mut i: usize = 0;
        while i < self.entries.len()
            invariant
                i <= self.entries.len(),
                self.wf(),
                wanted@ == name@,
                forall|j: int| 0 <= j < i ==> (#[trigger] self@[j]).key != name@,
            decreases self.entries.len() - i,
        {
            if self.entries[i].key == wanted {
                proof {
                    assert(self@[i as int].key == name@);
                    lemma_first_with_key_unique(self@, name@, i as int);
                }
                return Some(i as u64 + FIRST_INO);
            }
            i += 1;
        }
        None
    }
}

} // verus!
