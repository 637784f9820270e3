//! The session: its phases, what it remembers, and the step that every
//! message of the client makes it take.

use crate::capabilities::{advertise, advertised, ServerCapabilities, ServerCapabilitiesView};
use crate::diagnostics::{Diagnostic, Position};
use crate::document::{change_outcome, DocumentError, DocumentStore, DocumentView};
use crate::edit::{apply_changes, apply_edits, ContentChange, ContentChangeView};
use crate::message::{
    refusal, refuse, Action, ActionView, Call, CallView, Incoming, IncomingView, LogLevel, Note,
    NoteView, Reply, ReplyView, RpcError, RpcErrorView, ServerNote, ServerNoteView,
};
use crate::protocol::{ErrorKind, Method, RequestId, RequestIdView};
use crate::provider::{CapabilityProvider, CompletionItem, Hover};
use crate::text::text_view;
use crate::uri::{file_path, uri_path};
use vstd::prelude::*;

verus! {

/// Where a session stands in its life.
#[derive(Clone, Copy, Debug, PartialEq, Eq, Structural)]
pub enum Phase {
    /// Nothing has been received yet.
    Uninitialized,
    /// `initialize` has been answered.
    Initializing,
    /// The client has confirmed; documents and queries are served.
    Running,
    /// `shutdown` has been answered.
    ShuttingDown,
    /// `exit` has been received; nothing is served any more.
    Exited,
}

/// A request whose response is still owed.
#[derive(Clone, Debug, PartialEq, Eq)]
pub struct PendingRequest {
    pub id: RequestId,
    pub method: Method,
    /// The client has asked to cancel the request.
    pub cancelled: bool,
}

pub struct PendingView {
    pub id: RequestIdView,
    pub method: Method,
    pub cancelled: bool,
}

impl View for PendingRequest {
    type V = PendingView;

    open spec fn view(&self) -> PendingView {
        PendingView { id: self.id@, method: self.method, cancelled: self.cancelled }
    }
}

impl DeepView for PendingRequest {
    type V = PendingView;

    open spec fn deep_view(&self) -> PendingView {
        self@
    }
}

/// What a session remembers.
#[verifier::ext_equal]
pub struct SessionView {
    pub phase: Phase,
    /// The capabilities that were agreed on, once `initialize` is answered.
    pub capabilities: Option<ServerCapabilitiesView>,
    /// The open documents, by URI.
    pub documents: Map<Seq<char>, DocumentView>,
    /// The requests whose response is still owed, oldest first.
    pub pending: Seq<PendingView>,
}

/// The capabilities that are held, if any.
pub open spec fn capabilities_view(c: Option<ServerCapabilities>) -> Option<
    ServerCapabilitiesView,
> {
    match c {
        Some(c) => Some(c@),
        None => None,
    }
}

/// A session at the start of its life.
pub open spec fn initial() -> SessionView {
    SessionView {
        phase: Phase::Uninitialized,
        capabilities: None,
        documents: Map::empty(),
        pending: Seq::empty(),
    }
}

/// Index of the oldest pending request with the id `id`.
pub open spec fn pending_index(pending: Seq<PendingView>, id: RequestIdView) -> Option<int>
    decreases pending.len(),
{
    if pending.len() == 0 {
        None
    } else {
        match pending_index(pending.drop_last(), id) {
            Some(i) => Some(i),
            None => if pending.last().id == id {
                Some(pending.len() - 1)
            } else {
                None
            },
        }
    }
}

/// `pending` with every request of the id `id` marked as cancelled.
pub open spec fn mark_cancelled(pending: Seq<PendingView>, id: RequestIdView) -> Seq<PendingView> {
    Seq::new(
        pending.len(),
        |i: int|
            PendingView {
                id: pending[i].id,
                method: pending[i].method,
                cancelled: pending[i].cancelled || pending[i].id == id,
            },
    )
}

/// The text that a query on `uri` is answered from: that of the open
/// document, and the empty text where `uri` is not open.
pub open spec fn text_of(documents: Map<Seq<char>, DocumentView>, uri: Seq<char>) -> Seq<char> {
    if documents.dom().contains(uri) {
        documents[uri].text
    } else {
        Seq::empty()
    }
}

/// The notification that replaces the diagnostics of `uri` by those of `text`.
pub open spec fn publication<P: CapabilityProvider>(
    provider: P,
    uri: Seq<char>,
    text: Seq<char>,
) -> ActionView {
    ActionView::Notify(
        ServerNoteView::PublishDiagnostics {
            uri,
            diagnostics: provider.diagnostics(text),
            version: None,
        },
    )
}

/// The response that carries every diagnostic of `text`.
pub open spec fn report<P: CapabilityProvider>(
    provider: P,
    id: RequestIdView,
    text: Seq<char>,
) -> ActionView {
    ActionView::Respond { id, result: Ok(ReplyView::Diagnostics(provider.diagnostics(text))) }
}

/// What a change notification makes of the document of `uri`. A change to a
/// URI that is not open opens it, with the changes applied to the empty text.
pub open spec fn edited(
    documents: Map<Seq<char>, DocumentView>,
    uri: Seq<char>,
    version: int,
    changes: Seq<ContentChangeView>,
) -> Result<DocumentView, DocumentError> {
    if documents.dom().contains(uri) {
        change_outcome(documents, uri, version, changes)
    } else {
        match apply_edits(Seq::empty(), changes) {
            Some(text) => Ok(DocumentView { text, version }),
            None => Err(DocumentError::InvalidRange),
        }
    }
}

/// The step of a diagnostic request on a document that is not open, once
/// the file path of its URI is known: the request waits for the file, or
/// is refused where the URI has no path.
pub open spec fn deferred(s: SessionView, id: RequestIdView, path: Option<Seq<char>>) -> (
    SessionView,
    ActionView,
) {
    match path {
        Some(path) => (
            SessionView {
                phase: s.phase,
                capabilities: s.capabilities,
                documents: s.documents,
                pending: s.pending.push(
                    PendingView { id, method: Method::Diagnostic, cancelled: false },
                ),
            },
            ActionView::ReadFile { id, path },
        ),
        None => (s, refusal(id, ErrorKind::InvalidParams)),
    }
}

/// The step of a diagnostic request on `uri`, whose file path is `path`:
/// it is answered from the open document, or it waits for the file.
pub open spec fn step_diagnostic<P: CapabilityProvider>(
    provider: P,
    s: SessionView,
    id: RequestIdView,
    uri: Seq<char>,
    path: Option<Seq<char>>,
) -> (SessionView, ActionView) {
    if pending_index(s.pending, id) is Some || s.phase != Phase::Running {
        (s, refusal(id, ErrorKind::InvalidRequest))
    } else if s.documents.dom().contains(uri) {
        (s, report(provider, id, s.documents[uri].text))
    } else {
        deferred(s, id, path)
    }
}

/// The step that a request makes a session take, and the action it leads
/// to. A request whose id is still pending, or that does not fit the
/// phase, is refused as invalid and changes nothing.
pub open spec fn step_request<P: CapabilityProvider>(
    provider: P,
    s: SessionView,
    id: RequestIdView,
    call: CallView,
) -> (SessionView, ActionView) {
    if pending_index(s.pending, id) is Some {
        (s, refusal(id, ErrorKind::InvalidRequest))
    } else {
        match (s.phase, call) {
            (Phase::Uninitialized, CallView::Initialize) => (
                SessionView {
                    phase: Phase::Initializing,
                    capabilities: Some(advertised()),
                    documents: s.documents,
                    pending: s.pending,
                },
                ActionView::Respond { id, result: Ok(ReplyView::Capabilities(advertised())) },
            ),
            (Phase::Running, CallView::Shutdown) => (
                SessionView {
                    phase: Phase::ShuttingDown,
                    capabilities: s.capabilities,
                    documents: Map::empty(),
                    pending: s.pending,
                },
                ActionView::Respond { id, result: Ok(ReplyView::Empty) },
            ),
            (Phase::Running, CallView::Completion { uri, position }) => (
                s,
                ActionView::Respond {
                    id,
                    result: Ok(
                        ReplyView::Completion(
                            provider.completions(text_of(s.documents, uri), position),
                        ),
                    ),
                },
            ),
            (Phase::Running, CallView::Hover { uri, position }) => (
                s,
                ActionView::Respond {
                    id,
                    result: Ok(
                        ReplyView::Hover(provider.hover_text(text_of(s.documents, uri), position)),
                    ),
                },
            ),
            (Phase::Running, CallView::Diagnostic { uri }) => step_diagnostic(
                provider,
                s,
                id,
                uri,
                uri_path(uri),
            ),
            (Phase::Running, CallView::Unknown { method }) => (
                s,
                refusal(id, ErrorKind::MethodNotFound),
            ),
            (Phase::Running, CallView::Malformed { method }) => (
                s,
                refusal(id, ErrorKind::InvalidParams),
            ),
            _ => (s, refusal(id, ErrorKind::InvalidRequest)),
        }
    }
}

/// The step that a notification makes a session take, and the action it
/// leads to. `exit` ends the session in every phase; any other
/// notification that does not fit the phase is dropped.
pub open spec fn step_note<P: CapabilityProvider>(provider: P, s: SessionView, note: NoteView) -> (
    SessionView,
    ActionView,
) {
    match (s.phase, note) {
        (_, NoteView::Exit) => (
            SessionView {
                phase: Phase::Exited,
                capabilities: s.capabilities,
                documents: s.documents,
                pending: s.pending,
            },
            ActionView::Terminate,
        ),
        (Phase::Initializing, NoteView::Initialized) => (
            SessionView {
                phase: Phase::Running,
                capabilities: s.capabilities,
                documents: s.documents,
                pending: s.pending,
            },
            ActionView::Notify(
                ServerNoteView::LogMessage {
                    level: LogLevel::Info,
                    text: "pseudo_lsp initialized"@,
                },
            ),
        ),
        (Phase::Running, NoteView::DidOpen { uri, text, version }) => (
            SessionView {
                phase: s.phase,
                capabilities: s.capabilities,
                documents: s.documents.insert(uri, DocumentView { text, version }),
                pending: s.pending,
            },
            publication(provider, uri, text),
        ),
        (Phase::Running, NoteView::DidChange { uri, version, changes }) => match edited(
            s.documents,
            uri,
            version,
            changes,
        ) {
            Ok(doc) => (
                SessionView {
                    phase: s.phase,
                    capabilities: s.capabilities,
                    documents: s.documents.insert(uri, doc),
                    pending: s.pending,
                },
                publication(provider, uri, doc.text),
            ),
            Err(_) => (s, ActionView::Nothing),
        },
        (Phase::Running, NoteView::DidClose { uri }) => (
            SessionView {
                phase: s.phase,
                capabilities: s.capabilities,
                documents: s.documents.remove(uri),
                pending: s.pending,
            },
            ActionView::Nothing,
        ),
        (Phase::Running, NoteView::Cancel { id })
        | (Phase::ShuttingDown, NoteView::Cancel { id }) => (
            SessionView {
                phase: s.phase,
                capabilities: s.capabilities,
                documents: s.documents,
                pending: mark_cancelled(s.pending, id),
            },
            ActionView::Nothing,
        ),
        _ => (s, ActionView::Nothing),
    }
}

/// The step that a message of the client makes a session take, and the
/// action it leads to. After `exit` every message is dropped.
pub open spec fn step<P: CapabilityProvider>(
    provider: P,
    s: SessionView,
    message: IncomingView,
) -> (
    SessionView,
    ActionView,
) {
    if s.phase == Phase::Exited {
        (s, ActionView::Nothing)
    } else {
        match message {
            IncomingView::Request { id, call } => step_request(provider, s, id, call),
            IncomingView::Notification(note) => step_note(provider, s, note),
            IncomingView::Response { id } => (s, ActionView::Nothing),
        }
    }
}

/// The step that the content of a file, or the failure to read it, makes a
/// session take when it comes back under `id`. Nothing is sent for an id
/// that is not pending.
pub open spec fn step_file_read<P: CapabilityProvider>(
    provider: P,
    s: SessionView,
    id: RequestIdView,
    content: Result<Seq<char>, Seq<char>>,
) -> (SessionView, ActionView) {
    if s.phase == Phase::Exited {
        (s, ActionView::Nothing)
    } else {
        match pending_index(s.pending, id) {
            None => (s, ActionView::Nothing),
            Some(i) => {
                let rest = SessionView {
                    phase: s.phase,
                    capabilities: s.capabilities,
                    documents: s.documents,
                    pending: s.pending.remove(i),
                };
                if s.pending[i].cancelled {
                    (rest, refusal(id, ErrorKind::RequestCancelled))
                } else {
                    match content {
                        Ok(text) => (rest, report(provider, id, text)),
                        Err(reason) => (
                            rest,
                            ActionView::Respond {
                                id,
                                result: Err(
                                    RpcErrorView {
                                        kind: ErrorKind::InternalError,
                                        reason: Some(reason),
                                    },
                                ),
                            },
                        ),
                    }
                }
            },
        }
    }
}

/// The characters of what came back from reading a file.
pub open spec fn content_view(content: Result<String, String>) -> Result<Seq<char>, Seq<char>> {
    match content {
        Ok(text) => Ok(text@),
        Err(reason) => Err(reason@),
    }
}

/// The oldest request of an id among the first requests is the oldest
/// among all.
pub proof fn lemma_pending_index_prefix(pending: Seq<PendingView>, id: RequestIdView, n: int)
    requires
        0 <= n <= pending.len(),
        pending_index(pending.take(n), id) is Some,
    ensures
        pending_index(pending, id) == pending_index(pending.take(n), id),
    decreases pending.len() - n,
{
    if n < pending.len() {
        assert(pending.take(n + 1).drop_last() =~= pending.take(n));
        lemma_pending_index_prefix(pending, id, n + 1);
    } else {
        assert(pending.take(n) =~= pending);
    }
}

/// Where a request of an id is pending, the index found holds it, and no
/// smaller index does; where none is found, none is pending.
pub proof fn lemma_pending_index(pending: Seq<PendingView>, id: RequestIdView)
    ensures
        match pending_index(pending, id) {
            Some(i) => 0 <= i < pending.len() && pending[i].id == id && forall|j: int|
                0 <= j < i ==> pending[j].id != id,
            None => forall|j: int| 0 <= j < pending.len() ==> pending[j].id != id,
        },
    decreases pending.len(),
{
    if pending.len() > 0 {
        lemma_pending_index(pending.drop_last(), id);
        assert forall|j: int| 0 <= j < pending.len() - 1 implies pending[j]
            == pending.drop_last()[j] by {}
    }
}

/// Index of the oldest request in `pending` with the id `id`.
fn find_pending(pending: &Vec<PendingRequest>, id: &RequestId) -> (r: Option<usize>)
    ensures
        match r {
            Some(i) => i < pending.len() && pending_index(pending.deep_view(), id@) == Some(
                i as int,
            ),
            None => pending_index(pending.deep_view(), id@) is None,
        },
{
    let ghost all = pending.deep_view();
    let mut i: usize = 0;
    proof {
        assert(all.take(0) =~= Seq::<PendingView>::empty());
    }
    while i < pending.len()
        invariant
            i <= pending.len(),
            all == pending.deep_view(),
            pending_index(all.take(i as int), id@) is None,
        decreases pending.len() - i,
    {
        proof {
            assert(all.take(i + 1).drop_last() =~= all.take(i as int));
            assert(all.take(i + 1).last() == pending@[i as int]@);
        }
        if pending[i].id.same(id) {
            proof {
                lemma_pending_index_prefix(all, id@, i + 1);
            }
            return Some(i);
        }
        i += 1;
    }
    proof {
        assert(all.take(i as int) =~= all);
    }
    None
}

/// `pending` with every request of the id `id` marked as cancelled.
fn cancel_in(pending: &Vec<PendingRequest>, id: &RequestId) -> (out: Vec<PendingRequest>)
    ensures
        out.deep_view() == mark_cancelled(pending.deep_view(), id@),
{
    let ghost goal = mark_cancelled(pending.deep_view(), id@);
    let mut out: Vec<PendingRequest> = Vec::new();
    let mut i: usize = 0;
    while i < pending.len()
        invariant
            i <= pending.len(),
            goal == mark_cancelled(pending.deep_view(), id@),
            out.deep_view() =~= goal.take(i as int),
        decreases pending.len() - i,
    {
        let hit: bool = pending[i].id.same(id);
        let entry = PendingRequest {
            id: pending[i].id.duplicate(),
            method: pending[i].method,
            cancelled: pending[i].cancelled || hit,
        };
        let ghost before = out.deep_view();
        out.push(entry);
        proof {
            assert(entry@ == goal[i as int]);
            assert(out.deep_view() =~= before.push(entry@));
            assert(goal.take(i + 1) =~= goal.take(i as int).push(goal[i as int]));
        }
        i += 1;
    }
    proof {
        assert(goal.take(i as int) =~= goal);
    }
    out
}

/// A session, together with the analysis that answers its queries.
#[derive(Debug)]
pub struct Session<P: CapabilityProvider> {
    provider: P,
    phase: Phase,
    capabilities: Option<ServerCapabilities>,
    documents: DocumentStore,
    pending: Vec<PendingRequest>,
}

impl<P: CapabilityProvider> View for Session<P> {
    type V = SessionView;

    closed spec fn view(&self) -> SessionView {
        SessionView {
            phase: self.phase,
            capabilities: capabilities_view(self.capabilities),
            documents: self.documents@,
            pending: self.pending.deep_view(),
        }
    }
}

impl<P: CapabilityProvider> Session<P> {
    /// The analysis of the session. It never changes.
    pub closed spec fn provider(&self) -> P {
        self.provider
    }

    /// A session at the start of its life.
    pub fn new(provider: P) -> (s: Self)
        ensures
            s@ == initial(),
            s.provider() == provider,
    {
        let s = Session {
            provider,
            phase: Phase::Uninitialized,
            capabilities: None,
            documents: DocumentStore::new(),
            pending: Vec::new(),
        };
        assert(s@.pending =~= Seq::<PendingView>::empty());
        s
    }

    pub fn phase(&self) -> (p: Phase)
        ensures
            p == self@.phase,
    {
        self.phase
    }

    /// The capabilities that were agreed on, once `initialize` is answered.
    pub fn capabilities(&self) -> (c: Option<&ServerCapabilities>)
        ensures
            match c {
                Some(c) => self@.capabilities == Some(c@),
                None => self@.capabilities is None,
            },
    {
        match &self.capabilities {
            Some(c) => Some(c),
            None => None,
        }
    }

    /// The open documents.
    pub fn documents(&self) -> (d: &DocumentStore)
        ensures
            d@ == self@.documents,
    {
        &self.documents
    }

    /// The requests whose response is still owed, oldest first.
    pub fn pending(&self) -> (p: &Vec<PendingRequest>)
        ensures
            p.deep_view() == self@.pending,
    {
        &self.pending
    }

    /// Takes one message of the client and says what is to be done.
    pub fn handle(&mut self, message: Incoming) -> (action: Action)
        ensures
            final(self).provider() == old(self).provider(),
            final(self)@ == step(old(self).provider(), old(self)@, message@).0,
            action@ == step(old(self).provider(), old(self)@, message@).1,
    {
        if self.phase == Phase::Exited {
            return Action::Nothing;
        }
        match message {
            Incoming::Request { id, call } => self.handle_request(id, call),
            Incoming::Notification(note) => self.handle_note(note),
            Incoming::Response { id } => Action::Nothing,
        }
    }

    /// Takes the `initialize` request: the session answers with the
    /// capabilities it advertises, and waits for the client to confirm.
    pub fn initialize(&mut self, id: RequestId) -> (action: Action)
        ensures
            final(self).provider() == old(self).provider(),
            final(self)@ == step(
                old(self).provider(),
                old(self)@,
                IncomingView::Request { id: id@, call: CallView::Initialize },
            ).0,
            action@ == step(
                old(self).provider(),
                old(self)@,
                IncomingView::Request { id: id@, call: CallView::Initialize },
            ).1,
    {
        self.handle(Incoming::Request { id, call: Call::Initialize })
    }

    /// Takes the `initialized` notification: the session runs, and says so
    /// in a log message.
    pub fn initialized(&mut self) -> (action: Action)
        ensures
            final(self).provider() == old(self).provider(),
            final(self)@ == step(
                old(self).provider(),
                old(self)@,
                IncomingView::Notification(NoteView::Initialized),
            ).0,
            action@ == step(
                old(self).provider(),
                old(self)@,
                IncomingView::Notification(NoteView::Initialized),
            ).1,
    {
        self.handle(Incoming::Notification(Note::Initialized))
    }

    /// Takes the `shutdown` request: the session closes its documents and
    /// answers with success.
    pub fn shutdown(&mut self, id: RequestId) -> (action: Action)
        ensures
            final(self).provider() == old(self).provider(),
            final(self)@ == step(
                old(self).provider(),
                old(self)@,
                IncomingView::Request { id: id@, call: CallView::Shutdown },
            ).0,
            action@ == step(
                old(self).provider(),
                old(self)@,
                IncomingView::Request { id: id@, call: CallView::Shutdown },
            ).1,
    {
        self.handle(Incoming::Request { id, call: Call::Shutdown })
    }

    /// Takes a completion request: the answer carries the proposals of the
    /// analysis for `position` in the text of `uri`.
    pub fn completion(&mut self, id: RequestId, uri: String, position: Position) -> (action: Action)
        ensures
            final(self).provider() == old(self).provider(),
            final(self)@ == step(
                old(self).provider(),
                old(self)@,
                IncomingView::Request {
                    id: id@,
                    call: CallView::Completion { uri: uri@, position },
                },
            ).0,
            action@ == step(
                old(self).provider(),
                old(self)@,
                IncomingView::Request {
                    id: id@,
                    call: CallView::Completion { uri: uri@, position },
                },
            ).1,
    {
        self.handle(Incoming::Request { id, call: Call::Completion { uri, position } })
    }

    /// Takes a hover request: the answer carries what the analysis shows
    /// for `position` in the text of `uri`.
    pub fn hover(&mut self, id: RequestId, uri: String, position: Position) -> (action: Action)
        ensures
            final(self).provider() == old(self).provider(),
            final(self)@ == step(
                old(self).provider(),
                old(self)@,
                IncomingView::Request { id: id@, call: CallView::Hover { uri: uri@, position } },
            ).0,
            action@ == step(
                old(self).provider(),
                old(self)@,
                IncomingView::Request { id: id@, call: CallView::Hover { uri: uri@, position } },
            ).1,
    {
        self.handle(Incoming::Request { id, call: Call::Hover { uri, position } })
    }

    /// Takes an open notification: the document of `uri` is tracked with
    /// the given text, and its diagnostics are pushed.
    pub fn did_open(&mut self, uri: String, text: String, version: i32) -> (action: Action)
        ensures
            final(self).provider() == old(self).provider(),
            final(self)@ == step(
                old(self).provider(),
                old(self)@,
                IncomingView::Notification(
                    NoteView::DidOpen { uri: uri@, text: text@, version: version as int },
                ),
            ).0,
            action@ == step(
                old(self).provider(),
                old(self)@,
                IncomingView::Notification(
                    NoteView::DidOpen { uri: uri@, text: text@, version: version as int },
                ),
            ).1,
    {
        self.handle(Incoming::Notification(Note::DidOpen { uri, text, version }))
    }

    /// Takes a close notification: the document of `uri` is forgotten.
    pub fn did_close(&mut self, uri: String) -> (action: Action)
        ensures
            final(self).provider() == old(self).provider(),
            final(self)@ == step(
                old(self).provider(),
                old(self)@,
                IncomingView::Notification(NoteView::DidClose { uri: uri@ }),
            ).0,
            action@ == step(
                old(self).provider(),
                old(self)@,
                IncomingView::Notification(NoteView::DidClose { uri: uri@ }),
            ).1,
    {
        self.handle(Incoming::Notification(Note::DidClose { uri }))
    }

    /// Takes a change notification: the changes are applied to the
    /// document of `uri`, in order, and its diagnostics are pushed.
    pub fn did_change(&mut self, uri: String, version: i32, changes: Vec<ContentChange>) -> (action:
        Action)
        ensures
            final(self).provider() == old(self).provider(),
            final(self)@ == step(
                old(self).provider(),
                old(self)@,
                IncomingView::Notification(
                    NoteView::DidChange {
                        uri: uri@,
                        version: version as int,
                        changes: changes.deep_view(),
                    },
                ),
            ).0,
            action@ == step(
                old(self).provider(),
                old(self)@,
                IncomingView::Notification(
                    NoteView::DidChange {
                        uri: uri@,
                        version: version as int,
                        changes: changes.deep_view(),
                    },
                ),
            ).1,
    {
        self.handle(Incoming::Notification(Note::DidChange { uri, version, changes }))
    }

    /// Takes a diagnostic request: the answer carries every diagnostic of
    /// the document of `uri`; where `uri` is not open, the request waits
    /// for the file of `uri` to be read.
    pub fn diagnostic(&mut self, id: RequestId, uri: String) -> (action: Action)
        ensures
            final(self).provider() == old(self).provider(),
            final(self)@ == step(
                old(self).provider(),
                old(self)@,
                IncomingView::Request { id: id@, call: CallView::Diagnostic { uri: uri@ } },
            ).0,
            action@ == step(
                old(self).provider(),
                old(self)@,
                IncomingView::Request { id: id@, call: CallView::Diagnostic { uri: uri@ } },
            ).1,
    {
        self.handle(Incoming::Request { id, call: Call::Diagnostic { uri } })
    }

    /// Takes one request of the client and says what is to be done.
    pub fn handle_request(&mut self, id: RequestId, call: Call) -> (action: Action)
        ensures
            final(self).provider() == old(self).provider(),
            final(self)@ == step_request(old(self).provider(), old(self)@, id@, call@).0,
            action@ == step_request(old(self).provider(), old(self)@, id@, call@).1,
    {
        if find_pending(&self.pending, &id).is_some() {
            return refuse(id, ErrorKind::InvalidRequest);
        }
        match self.phase {
            Phase::Uninitialized => match call {
                Call::Initialize => {
                    self.phase = Phase::Initializing;
                    self.capabilities = Some(advertise());
                    Action::Respond { id, result: Ok(Reply::Capabilities(advertise())) }
                },
                _ => refuse(id, ErrorKind::InvalidRequest),
            },
            Phase::Running => match call {
                Call::Initialize => refuse(id, ErrorKind::InvalidRequest),
                Call::Shutdown => {
                    self.phase = Phase::ShuttingDown;
                    self.documents.clear();
                    Action::Respond { id, result: Ok(Reply::Empty) }
                },
                Call::Completion { uri, position } => {
                    let items: Vec<CompletionItem> = match self.documents.get(uri.as_str()) {
                        Some(text) => self.provider.complete(text, position),
                        None => {
                            proof {
                                reveal_strlit("");
                                assert(""@ =~= Seq::<char>::empty());
                            }
                            self.provider.complete("", position)
                        },
                    };
                    Action::Respond { id, result: Ok(Reply::Completion(items)) }
                },
                Call::Hover { uri, position } => {
                    let hover: Option<Hover> = match self.documents.get(uri.as_str()) {
                        Some(text) => self.provider.hover(text, position),
                        None => {
                            proof {
                                reveal_strlit("");
                                assert(""@ =~= Seq::<char>::empty());
                            }
                            self.provider.hover("", position)
                        },
                    };
                    Action::Respond { id, result: Ok(Reply::Hover(hover)) }
                },
                Call::Diagnostic { uri } => {
                    let path: Option<String> = if self.documents.get(uri.as_str()).is_some() {
                        None
                    } else {
                        file_path(uri.as_str())
                    };
                    self.request_diagnostic(id, uri.as_str(), path)
                },
                Call::Unknown { method } => refuse(id, ErrorKind::MethodNotFound),
                Call::Malformed { method } => refuse(id, ErrorKind::InvalidParams),
            },
            _ => refuse(id, ErrorKind::InvalidRequest),
        }
    }

    /// Takes a diagnostic request on `uri`, whose file path is `path`. The
    /// request is answered from the open document; where `uri` is not open,
    /// it waits for the file at `path`.
    pub fn request_diagnostic(&mut self, id: RequestId, uri: &str, path: Option<String>) -> (action:
        Action)
        ensures
            final(self).provider() == old(self).provider(),
            final(self)@ == step_diagnostic(
                old(self).provider(),
                old(self)@,
                id@,
                uri@,
                text_view(path),
            ).0,
            action@ == step_diagnostic(
                old(self).provider(),
                old(self)@,
                id@,
                uri@,
                text_view(path),
            ).1,
    {
        if find_pending(&self.pending, &id).is_some() || self.phase != Phase::Running {
            return refuse(id, ErrorKind::InvalidRequest);
        }
        match self.documents.get(uri) {
            Some(text) => {
                let found: Vec<Diagnostic> = self.provider.diagnose(text);
                Action::Respond { id, result: Ok(Reply::Diagnostics(found)) }
            },
            None => match path {
                Some(path) => {
                    let entry = PendingRequest {
                        id: id.duplicate(),
                        method: Method::Diagnostic,
                        cancelled: false,
                    };
                    let ghost before = self.pending.deep_view();
                    self.pending.push(entry);
                    proof {
                        assert(self.pending.deep_view() =~= before.push(entry@));
                    }
                    Action::ReadFile { id, path }
                },
                None => refuse(id, ErrorKind::InvalidParams),
            },
        }
    }

    /// Takes one notification of the client and says what is to be done.
    pub fn handle_note(&mut self, note: Note) -> (action: Action)
        ensures
            final(self).provider() == old(self).provider(),
            final(self)@ == step_note(old(self).provider(), old(self)@, note@).0,
            action@ == step_note(old(self).provider(), old(self)@, note@).1,
    {
        match note {
            Note::Exit => {
                self.phase = Phase::Exited;
                Action::Terminate
            },
            Note::Initialized => {
                if self.phase == Phase::Initializing {
                    self.phase = Phase::Running;
                    Action::Notify(
                        ServerNote::LogMessage {
                            level: LogLevel::Info,
                            text: "pseudo_lsp initialized".to_owned(),
                        },
                    )
                } else {
                    Action::Nothing
                }
            },
            Note::DidOpen { uri, text, version } => {
                if self.phase == Phase::Running {
                    let found: Vec<Diagnostic> = self.provider.diagnose(text.as_str());
                    self.documents.open(uri.clone(), text, version);
                    Action::Notify(
                        ServerNote::PublishDiagnostics { uri, diagnostics: found, version: None },
                    )
                } else {
                    Action::Nothing
                }
            },
            Note::DidChange { uri, version, changes } => {
                if self.phase == Phase::Running {
                    self.change(uri, version, changes)
                } else {
                    Action::Nothing
                }
            },
            Note::DidClose { uri } => {
                if self.phase == Phase::Running {
                    self.documents.close(uri.as_str());
                }
                Action::Nothing
            },
            Note::Cancel { id } => {
                if self.phase == Phase::Running || self.phase == Phase::ShuttingDown {
                    let marked: Vec<PendingRequest> = cancel_in(&self.pending, &id);
                    self.pending = marked;
                }
                Action::Nothing
            },
            Note::Unknown { method } => Action::Nothing,
            Note::Malformed { method } => Action::Nothing,
        }
    }

    /// Applies a change notification while the session is running.
    fn change(&mut self, uri: String, version: i32, changes: Vec<ContentChange>) -> (action: Action)
        requires
            old(self)@.phase == Phase::Running,
        ensures
            final(self).provider() == old(self).provider(),
            final(self)@ == step_note(
                old(self).provider(),
                old(self)@,
                NoteView::DidChange {
                    uri: uri@,
                    version: version as int,
                    changes: changes.deep_view(),
                },
            ).0,
            action@ == step_note(
                old(self).provider(),
                old(self)@,
                NoteView::DidChange {
                    uri: uri@,
                    version: version as int,
                    changes: changes.deep_view(),
                },
            ).1,
    {
        match self.documents.version(uri.as_str()) {
            Some(_) => match self.documents.apply_change(uri.as_str(), version, &changes) {
                Ok(()) => match self.documents.get(uri.as_str()) {
                    Some(text) => {
                        let found: Vec<Diagnostic> = self.provider.diagnose(text);
                        Action::Notify(
                            ServerNote::PublishDiagnostics {
                                uri,
                                diagnostics: found,
                                version: None,
                            },
                        )
                    },
                    None => Action::Nothing,
                },
                Err(_) => Action::Nothing,
            },
            None => {
                proof {
                    reveal_strlit("");
                    assert(""@ =~= Seq::<char>::empty());
                }
                match apply_changes("", &changes) {
                    Some(text) => {
                        let found: Vec<Diagnostic> = self.provider.diagnose(text.as_str());
                        self.documents.open(uri.clone(), text, version);
                        Action::Notify(
                            ServerNote::PublishDiagnostics {
                                uri,
                                diagnostics: found,
                                version: None,
                            },
                        )
                    },
                    None => Action::Nothing,
                }
            },
        }
    }

    /// Takes what came back from reading the file that the request `id`
    /// waits for: its content, or the reason why it could not be read.
    pub fn file_read(&mut self, id: RequestId, content: Result<String, String>) -> (action: Action)
        ensures
            final(self).provider() == old(self).provider(),
            final(self)@ == step_file_read(
                old(self).provider(),
                old(self)@,
                id@,
                content_view(content),
            ).0,
            action@ == step_file_read(
                old(self).provider(),
                old(self)@,
                id@,
                content_view(content),
            ).1,
    {
        if self.phase == Phase::Exited {
            return Action::Nothing;
        }
        match find_pending(&self.pending, &id) {
            None => Action::Nothing,
            Some(i) => {
                let ghost before = self.pending.deep_view();
                let entry: PendingRequest = self.pending.remove(i);
                proof {
                    assert(self.pending.deep_view() =~= before.remove(i as int));
                    assert(entry@ == before[i as int]);
                }
                if entry.cancelled {
                    refuse(id, ErrorKind::RequestCancelled)
                } else {
                    match content {
                        Ok(text) => {
                            let found: Vec<Diagnostic> = self.provider.diagnose(text.as_str());
                            Action::Respond { id, result: Ok(Reply::Diagnostics(found)) }
                        },
                        Err(reason) => Action::Respond {
                            id,
                            result: Err(
                                RpcError { kind: ErrorKind::InternalError, reason: Some(reason) },
                            ),
                        },
                    }
                }
            },
        }
    }
}

} // verus!
