//! Building a snapshot from what the store answers.
//!
//! The builder never talks to the store. It says which question comes next
//! (`action`) and is told what the store answered (`advance`). A build lists
//! the keys, asks each key's type in the order of the listing, keeps the keys
//! that hold a simple value, fetches the value of each kept key in the same
//! order, and numbers the entries from 2 upward. Any failure of the store,
//! a kept key that has no value any more, any answer that does not fit the
//! pending question, and a listing of more keys than can be numbered fails
//! the build: no partial snapshot is ever handed out.

use vstd::prelude::*;
use crate::error::FsError;
use crate::snapshot::{EntryView, Snapshot, MAX_ENTRIES};

verus! {

/// The question that the store is to be asked next.
#[derive(Clone, Debug, PartialEq, Eq)]
pub enum StoreAction {
    /// List every key.
    ListKeys,
    /// Tell the type of the value under this key.
    TypeOf(String),
    /// Read the value under this key.
    Fetch(String),
    /// Nothing: the snapshot is complete.
    Finished,
    /// Nothing: the build has failed.
    Failed,
}

/// What the store answered.
#[derive(Clone, Debug, PartialEq, Eq)]
pub enum StoreEvent {
    /// The keys of the store, each once.
    Keys(Vec<String>),
    /// The name of the type of the value under the key asked about.
    Kind(String),
    /// The value under the key asked for.
    Value(Vec<u8>),
    /// There is no value under the key asked for: the key has left the
    /// store since it was listed.
    Absent,
    /// The store could not be reached or refused to answer.
    Failure,
}

/// A pending question as mathematics.
pub enum ActionView {
    ListKeys,
    TypeOf(Seq<char>),
    Fetch(Seq<char>),
    Finished,
    Failed,
}

/// An answer as mathematics.
pub enum EventView {
    Keys(Seq<Seq<char>>),
    Kind(Seq<char>),
    Value(Seq<u8>),
    Absent,
    Failure,
}

/// How far a build has come.
pub enum BuildState {
    /// The keys have not been listed yet.
    Listing,
    /// The keys before position `next` have been classified, and `retained`
    /// are those among them that hold a simple value.
    Classifying { keys: Seq<Seq<char>>, retained: Seq<Seq<char>>, next: nat },
    /// Every key has been classified, and the values of the first
    /// `entries.len()` retained keys have been fetched.
    Fetching { retained: Seq<Seq<char>>, entries: Seq<EntryView> },
    /// The snapshot is complete.
    Done { entries: Seq<EntryView> },
    /// The build has failed.
    Failed,
}

/// The characters of each string of a list.
pub open spec fn names_view(names: Seq<String>) -> Seq<Seq<char>> {
    names.map_values(|name: String| name@)
}

impl View for StoreAction {
    type V = ActionView;

    open spec fn view(&self) -> ActionView {
        match *self {
            StoreAction::ListKeys => ActionView::ListKeys,
            StoreAction::TypeOf(key) => ActionView::TypeOf(key@),
            StoreAction::Fetch(key) => ActionView::Fetch(key@),
            StoreAction::Finished => ActionView::Finished,
            StoreAction::Failed => ActionView::Failed,
        }
    }
}

impl View for StoreEvent {
    type V = EventView;

    open spec fn view(&self) -> EventView {
        match *self {
            StoreEvent::Keys(keys) => EventView::Keys(names_view(keys@)),
            StoreEvent::Kind(kind) => EventView::Kind(kind@),
            StoreEvent::Value(value) => EventView::Value(value@),
            StoreEvent::Absent => EventView::Absent,
            StoreEvent::Failure => EventView::Failure,
        }
    }
}

/// Whether a type name is that of a simple value. Lists, sets, hashes and
/// the other composite types cannot be shown as one file.
pub open spec fn is_simple_kind(kind: Seq<char>) -> bool {
    kind == "string"@
}

/// The state in which the keys before `next` are classified: the next key is
/// asked about, or, when none is left, the fetching starts.
pub open spec fn classifying(keys: Seq<Seq<char>>, retained: Seq<Seq<char>>, next: nat)
    -> BuildState {
    if next < keys.len() {
        BuildState::Classifying { keys, retained, next }
    } else {
        fetching(retained, Seq::empty())
    }
}

/// The state in which `entries` are fetched: the next retained key is
/// fetched, or, when none is left, the snapshot is complete.
pub open spec fn fetching(retained: Seq<Seq<char>>, entries: Seq<EntryView>) -> BuildState {
    if entries.len() < retained.len() {
        BuildState::Fetching { retained, entries }
    } else {
        BuildState::Done { entries }
    }
}

/// The state that follows `state` when the store answers `event`. Only the
/// answer to the pending question leads on; a failure, a key that has left
/// the store and an answer to another question all fail the build.
pub open spec fn step(state: BuildState, event: EventView) -> BuildState {
    match state {
        BuildState::Listing => match event {
            EventView::Keys(keys) => if keys.len() <= MAX_ENTRIES {
                classifying(keys, Seq::empty(), 0)
            } else {
                BuildState::Failed
            },
            _ => BuildState::Failed,
        },
        BuildState::Classifying { keys, retained, next } => match event {
            EventView::Kind(kind) => classifying(
                keys,
                if is_simple_kind(kind) {
                    retained.push(keys[next as int])
                } else {
                    retained
                },
                next + 1,
            ),
            _ => BuildState::Failed,
        },
        BuildState::Fetching { retained, entries } => match event {
            EventView::Value(value) => fetching(
                retained,
                entries.push(EntryView { key: retained[entries.len() as int], value }),
            ),
            _ => BuildState::Failed,
        },
        _ => BuildState::Failed,
    }
}

/// The question that is pending in `state`.
pub open spec fn pending(state: BuildState) -> ActionView {
    match state {
        BuildState::Listing => ActionView::ListKeys,
        BuildState::Classifying { keys, retained, next } => ActionView::TypeOf(keys[next as int]),
        BuildState::Fetching { retained, entries } => ActionView::Fetch(
            retained[entries.len() as int],
        ),
        BuildState::Done { entries } => ActionView::Finished,
        BuildState::Failed => ActionView::Failed,
    }
}

/// What holds of every state that a build passes through: a question is
/// pending on a key that exists, and no more keys are kept than can be
/// numbered.
pub open spec fn valid_state(state: BuildState) -> bool {
    match state {
        BuildState::Listing => true,
        BuildState::Classifying { keys, retained, next } => {
            &&& next < keys.len()
            &&& retained.len() <= next
            &&& keys.len() <= MAX_ENTRIES
        },
        BuildState::Fetching { retained, entries } => {
            &&& entries.len() < retained.len()
            &&& retained.len() <= MAX_ENTRIES
        },
        BuildState::Done { entries } => entries.len() <= MAX_ENTRIES,
        BuildState::Failed => true,
    }
}

/// Whether `kind` names the type of a simple value.
pub fn is_simple_value(kind: &str) -> (simple: bool)
    ensures
        simple == is_simple_kind(kind@),
{
    let given = kind.to_owned();
    let simple_kind = "string".to_owned();
    given == simple_kind
}

#[derive(Clone, Copy, Debug, PartialEq, Eq, Structural)]
enum Phase {
    Listing,
    Classifying,
    Fetching,
    Done,
    Failed,
}

/// A build in progress.
#[derive(Clone, Debug)]
pub struct SnapshotBuilder {
    phase: Phase,
    keys: Vec<String>,
    cursor: usize,
    retained: Vec<String>,
    snapshot: Snapshot,
}

impl View for SnapshotBuilder {
    type V = BuildState;

    closed spec fn view(&self) -> BuildState {
        match self.phase {
            Phase::Listing => BuildState::Listing,
            Phase::Classifying => BuildState::Classifying {
                keys: names_view(self.keys@),
                retained: names_view(self.retained@),
                next: self.cursor as nat,
            },
            Phase::Fetching => BuildState::Fetching {
                retained: names_view(self.retained@),
                entries: self.snapshot@,
            },
            Phase::Done => BuildState::Done { entries: self.snapshot@ },
            Phase::Failed => BuildState::Failed,
        }
    }
}

impl SnapshotBuilder {
    /// The builder's state is one that a build passes through.
    pub closed spec fn wf(&self) -> bool {
        &&& valid_state(self@)
        &&& self.phase == Phase::Classifying ==> self.snapshot@.len() == 0
    }

    /// A well-formed builder is in a valid state.
    pub proof fn lemma_wf_valid(&self)
        requires
            self.wf(),
        ensures
            valid_state(self@),
    {
    }

    /// A build that has asked nothing yet.
    pub fn new() -> (builder: SnapshotBuilder)
        ensures
            builder.wf(),
            builder@ == BuildState::Listing,
    {
        SnapshotBuilder {
            phase: Phase::Listing,
            keys: Vec::new(),
            cursor: 0,
            retained: Vec::new(),
            snapshot: Snapshot::new(),
        }
    }

    /// A build that has nothing to ask: it is complete from the start, with
    /// the empty snapshot.
    pub fn settled() -> (builder: SnapshotBuilder)
        ensures
            builder.wf(),
            builder@ == (BuildState::Done { entries: Seq::empty() }),
    {
        SnapshotBuilder {
            phase: Phase::Done,
            keys: Vec::new(),
            cursor: 0,
            retained: Vec::new(),
            snapshot: Snapshot::new(),
        }
    }

    /// The question to put to the store next.
    pub fn action(&self) -> (action: StoreAction)
        requires
            self.wf(),
        ensures
            action@ == pending(self@),
    {
        match self.phase {
            Phase::Listing => StoreAction::ListKeys,
            Phase::Classifying => StoreAction::TypeOf(self.keys[self.cursor].clone()),
            Phase::Fetching => StoreAction::Fetch(self.retained[self.snapshot.len()].clone()),
            Phase::Done => StoreAction::Finished,
            Phase::Failed => StoreAction::Failed,
        }
    }

    /// Takes the store's answer to the pending question.
    pub fn advance(&mut self, event: StoreEvent)
        requires
            old(self).wf(),
        ensures
            final(self).wf(),
            final(self)@ == step(old(self)@, event@),
    {
        match event {
            StoreEvent::Keys(keys) => {
                match self.phase {
                    Phase::Listing => {
                        if keys.len() as u64 <= MAX_ENTRIES {
                            self.keys = keys;
                            self.retained = Vec::new();
                            self.cursor = 0;
                            self.snapshot = Snapshot::new();
                            assert(names_view(self.retained@) =~= Seq::<Seq<char>>::empty());
                            self.settle_classifying();
                        } else {
                            self.phase = Phase::Failed;
                        }
                    },
                    _ => {
                        self.phase = Phase::Failed;
                    },
                }
            },
            StoreEvent::Kind(kind) => {
                match self.phase {
                    Phase::Classifying => {
                        assert(names_view(self.keys@).len() == self.keys@.len());
                        assert(self.cursor < self.keys.len());
                        if is_simple_value(kind.as_str()) {
                            let key = self.keys[self.cursor].clone();
                            self.retained.push(key);
                            assert(names_view(self.retained@) =~= names_view(
                                old(self).retained@,
                            ).push(names_view(self.keys@)[self.cursor as int]));
                        }
                        self.cursor = self.cursor + 1;
                        self.settle_classifying();
                    },
                    _ => {
                        self.phase = Phase::Failed;
                    },
                }
            },
            StoreEvent::Value(value) => {
                match self.phase {
                    Phase::Fetching => {
                        let key = self.retained[self.snapshot.len()].clone();
                        self.snapshot.insert(key, value);
                        if self.snapshot.len() >= self.retained.len() {
                            self.phase = Phase::Done;
                        }
                    },
                    _ => {
                        self.phase = Phase::Failed;
                    },
                }
            },
            StoreEvent::Absent => {
                self.phase = Phase::Failed;
            },
            StoreEvent::Failure => {
                self.phase = Phase::Failed;
            },
        }
    }

    /// Moves on from a classification: to the next key, to the first fetch,
    /// or, where no key was kept, to the complete and empty snapshot.
    fn settle_classifying(&mut self)
        requires
            old(self).cursor <= old(self).keys.len(),
            old(self).retained.len() <= old(self).cursor,
            old(self).keys.len() <= MAX_ENTRIES,
            old(self).snapshot@.len() == 0,
        ensures
            final(self).wf(),
            final(self)@ == classifying(
                names_view(old(self).keys@),
                names_view(old(self).retained@),
                old(self).cursor as nat,
            ),
    {
        if self.cursor < self.keys.len() {
            self.phase = Phase::Classifying;
        } else if self.retained.len() > 0 {
            self.phase = Phase::Fetching;
        } else {
            self.phase = Phase::Done;
        }
        assert(self.snapshot@ =~= Seq::<EntryView>::empty());
    }

    /// The snapshot, where the build is complete; `StoreUnavailable` where
    /// it has failed or questions are still open.
    pub fn finish(self) -> (result: Result<Snapshot, FsError>)
        requires
            self.wf(),
        ensures
            match self@ {
                BuildState::Done { entries } => result.is_ok() && result.unwrap()@ == entries
                    && result.unwrap().wf(),
                _ => result == Err::<Snapshot, FsError>(FsError::StoreUnavailable),
            },
    {
        match self.phase {
            Phase::Done => Ok(self.snapshot),
            _ => Err(FsError::StoreUnavailable),
        }
    }
}

} // verus!
