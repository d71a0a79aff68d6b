//! Requests and replies as values, and the one function that answers any
//! request.
//!
//! An `Exchange` carries one request from its arrival to its reply. It asks
//! the store what the request needs, which is nothing for a request whose
//! answer does not depend on the store: such a request is answered also
//! while the store is down.

use vstd::prelude::*;
use crate::adapter::{
    getattr, getattr_reply, lines_view, lookup, lookup_reply, open, read, read_reply, readdir,
    readdir_reply, statfs, write_reply, AttrReply, DirEntry, DirEntryView, EntryReply,
    OpenReply,
};
use crate::attr::{placeholder_statfs, Statfs, ROOT_INO};
use crate::builder::{pending, step, BuildState, SnapshotBuilder, StoreAction, StoreEvent};
use crate::error::FsError;
use crate::snapshot::{EntryView, Snapshot};

verus! {

/// A filesystem request.
#[derive(Clone, Debug, PartialEq, Eq)]
pub enum Request {
    Statfs,
    Lookup { parent: u64, name: String },
    Getattr { ino: u64 },
    Open { ino: u64, flags: u32 },
    Read { ino: u64, offset: u64, size: u32 },
    Write { ino: u64, offset: u64, data: Vec<u8> },
    Readdir { ino: u64, offset: u64 },
}

/// What a request is answered with when it succeeds.
#[derive(Clone, Debug, PartialEq, Eq)]
pub enum Reply {
    Statfs(Statfs),
    Entry(EntryReply),
    Attr(AttrReply),
    Opened(OpenReply),
    Data(Vec<u8>),
    Written(u32),
    Directory(Vec<DirEntry>),
}

/// A request as mathematics.
pub enum RequestView {
    Statfs,
    Lookup { parent: u64, name: Seq<char> },
    Getattr { ino: u64 },
    Open { ino: u64, flags: u32 },
    Read { ino: u64, offset: u64, size: u32 },
    Write { ino: u64, offset: u64, data: Seq<u8> },
    Readdir { ino: u64, offset: u64 },
}

/// A reply as mathematics.
pub enum ReplyView {
    Statfs(Statfs),
    Entry(EntryReply),
    Attr(AttrReply),
    Opened(OpenReply),
    Data(Seq<u8>),
    Written(u32),
    Directory(Seq<DirEntryView>),
}

impl View for Request {
    type V = RequestView;

    open spec fn view(&self) -> RequestView {
        match *self {
            Request::Statfs => RequestView::Statfs,
            Request::Lookup { parent, name } => RequestView::Lookup { parent, name: name@ },
            Request::Getattr { ino } => RequestView::Getattr { ino },
            Request::Open { ino, flags } => RequestView::Open { ino, flags },
            Request::Read { ino, offset, size } => RequestView::Read { ino, offset, size },
            Request::Write { ino, offset, data } => RequestView::Write { ino, offset, data: data@ },
            Request::Readdir { ino, offset } => RequestView::Readdir { ino, offset },
        }
    }
}

impl View for Reply {
    type V = ReplyView;

    open spec fn view(&self) -> ReplyView {
        match *self {
            Reply::Statfs(stats) => ReplyView::Statfs(stats),
            Reply::Entry(entry) => ReplyView::Entry(entry),
            Reply::Attr(attr) => ReplyView::Attr(attr),
            Reply::Opened(opened) => ReplyView::Opened(opened),
            Reply::Data(data) => ReplyView::Data(data@),
            Reply::Written(count) => ReplyView::Written(count),
            Reply::Directory(lines) => ReplyView::Directory(lines_view(lines@)),
        }
    }
}

/// Whether the answer to `request` depends on what the store holds.
pub open spec fn consults_store(request: RequestView) -> bool {
    match request {
        RequestView::Statfs => false,
        RequestView::Lookup { parent, name } => parent == ROOT_INO,
        RequestView::Getattr { ino } => ino != ROOT_INO,
        RequestView::Open { ino, flags } => false,
        RequestView::Read { ino, offset, size } => true,
        RequestView::Write { ino, offset, data } => true,
        RequestView::Readdir { ino, offset } => ino == ROOT_INO && offset == 0,
    }
}

/// What `request` is answered with when the store is as the snapshot `s`
/// shows it.
pub open spec fn answer(request: RequestView, s: Seq<EntryView>) -> Result<ReplyView, FsError> {
    match request {
        RequestView::Statfs => Ok(ReplyView::Statfs(placeholder_statfs())),
        RequestView::Lookup { parent, name } => match lookup_reply(s, parent, name) {
            Ok(entry) => Ok(ReplyView::Entry(entry)),
            Err(e) => Err(e),
        },
        RequestView::Getattr { ino } => match getattr_reply(s, ino) {
            Ok(attr) => Ok(ReplyView::Attr(attr)),
            Err(e) => Err(e),
        },
        RequestView::Open { ino, flags } => Ok(
            ReplyView::Opened(OpenReply { fh: 0, flags: 0 }),
        ),
        RequestView::Read { ino, offset, size } => match read_reply(s, ino, offset, size) {
            Ok(data) => Ok(ReplyView::Data(data)),
            Err(e) => Err(e),
        },
        RequestView::Write { ino, offset, data } => match write_reply(s, ino) {
            Ok(count) => Ok(ReplyView::Written(count)),
            Err(e) => Err(e),
        },
        RequestView::Readdir { ino, offset } => match readdir_reply(s, ino, offset) {
            Ok(lines) => Ok(ReplyView::Directory(lines)),
            Err(e) => Err(e),
        },
    }
}

/// Whether a snapshot has to be taken before `request` is answered.
pub fn needs_snapshot(request: &Request) -> (needed: bool)
    ensures
        needed == consults_store(request@),
{
    match request {
        Request::Statfs => false,
        Request::Lookup { parent, .. } => *parent == ROOT_INO,
        Request::Getattr { ino } => *ino != ROOT_INO,
        Request::Open { .. } => false,
        Request::Read { .. } => true,
        Request::Write { .. } => true,
        Request::Readdir { ino, offset } => *ino == ROOT_INO && *offset == 0,
    }
}

/// Answers `request` from `snapshot`.
pub fn handle(request: &Request, snapshot: &Snapshot) -> (result: Result<Reply, FsError>)
    requires
        snapshot.wf(),
    ensures
        match result {
            Ok(reply) => answer(request@, snapshot@) == Ok::<ReplyView, FsError>(reply@),
            Err(e) => answer(request@, snapshot@) == Err::<ReplyView, FsError>(e),
        },
{
    match request {
        Request::Statfs => Ok(Reply::Statfs(statfs())),
        Request::Lookup { parent, name } => match lookup(snapshot, *parent, name.as_str()) {
            Ok(entry) => Ok(Reply::Entry(entry)),
            Err(e) => Err(e),
        },
        Request::Getattr { ino } => match getattr(snapshot, *ino) {
            Ok(attr) => Ok(Reply::Attr(attr)),
            Err(e) => Err(e),
        },
        Request::Open { ino, flags } => Ok(Reply::Opened(open(*ino, *flags))),
        Request::Read { ino, offset, size } => match read(snapshot, *ino, *offset, *size) {
            Ok(data) => Ok(Reply::Data(data)),
            Err(e) => Err(e),
        },
        Request::Write { ino, offset, data } => match crate::adapter::write(
            snapshot,
            *ino,
            *offset,
            data.as_slice(),
        ) {
            Ok(count) => Ok(Reply::Written(count)),
            Err(e) => Err(e),
        },
        Request::Readdir { ino, offset } => match readdir(snapshot, *ino, *offset) {
            Ok(lines) => Ok(Reply::Directory(lines)),
            Err(e) => Err(e),
        },
    }
}

/// The state in which the exchange for `request` starts: with the listing
/// of the keys, or complete where the store is not consulted.
pub open spec fn start(request: RequestView) -> BuildState {
    if consults_store(request) {
        BuildState::Listing
    } else {
        BuildState::Done { entries: Seq::empty() }
    }
}

/// What `request` is answered with when the build for it is in `state`: the
/// answer from the snapshot where the build is complete, `StoreUnavailable`
/// otherwise.
pub open spec fn outcome(request: RequestView, state: BuildState) -> Result<ReplyView, FsError> {
    match state {
        BuildState::Done { entries } => answer(request, entries),
        _ => Err(FsError::StoreUnavailable),
    }
}

/// One request on its way to its reply.
#[derive(Clone, Debug)]
pub struct Exchange {
    request: Request,
    builder: SnapshotBuilder,
}

/// An exchange as mathematics: the request and how far the build for it
/// has come.
pub struct ExchangeView {
    pub request: RequestView,
    pub state: BuildState,
}

impl View for Exchange {
    type V = ExchangeView;

    closed spec fn view(&self) -> ExchangeView {
        ExchangeView { request: self.request@, state: self.builder@ }
    }
}

impl Exchange {
    /// The build of the exchange is in a state that a build passes through.
    pub closed spec fn wf(&self) -> bool {
        self.builder.wf()
    }

    /// Takes up `request`.
    pub fn new(request: Request) -> (exchange: Exchange)
        ensures
            exchange.wf(),
            exchange@.request == request@,
            exchange@.state == start(request@),
    {
        let builder = if needs_snapshot(&request) {
            SnapshotBuilder::new()
        } else {
            SnapshotBuilder::settled()
        };
        Exchange { request, builder }
    }

    /// The question to put to the store next; `Finished` or `Failed` when
    /// the reply is ready.
    pub fn action(&self) -> (action: StoreAction)
        requires
            self.wf(),
        ensures
            action@ == pending(self@.state),
    {
        self.builder.action()
    }

    /// Takes the store's answer to the pending question.
    pub fn advance(&mut self, event: StoreEvent)
        requires
            old(self).wf(),
        ensures
            final(self).wf(),
            final(self)@.request == old(self)@.request,
            final(self)@.state == step(old(self)@.state, event@),
    {
        self.builder.advance(event);
    }

    /// The reply to the request.
    pub fn reply(self) -> (result: Result<Reply, FsError>)
        requires
            self.wf(),
        ensures
            match result {
                Ok(reply) => outcome(self@.request, self@.state) == Ok::<ReplyView, FsError>(
                    reply@,
                ),
                Err(e) => outcome(self@.request, self@.state) == Err::<ReplyView, FsError>(e),
            },
    {
        match self.builder.finish() {
            Ok(snapshot) => handle(&self.request, &snapshot),
            Err(e) => Err(e),
        }
    }
}

} // verus!
