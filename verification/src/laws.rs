//! What holds of every session, whatever the client sends.

use crate::capabilities::advertised;
use crate::diagnostics::DiagnosticView;
use crate::document::DocumentView;
use crate::edit::{apply_edits, law_edits_compose, ContentChangeView};
use crate::message::{
    refusal, ActionView, CallView, IncomingView, NoteView, ReplyView, ServerNoteView,
};
use crate::protocol::{ErrorKind, Method, RequestIdView};
use crate::provider::CapabilityProvider;
use crate::session::{
    edited, initial, lemma_pending_index, mark_cancelled, pending_index, publication, step,
    step_diagnostic, step_file_read, step_note, step_request, text_of, Phase, SessionView,
};
use crate::uri::uri_path;
use vstd::prelude::*;

verus! {

/// How far a phase is into the life of a session.
pub open spec fn rank(phase: Phase) -> int {
    match phase {
        Phase::Uninitialized => 0,
        Phase::Initializing => 1,
        Phase::Running => 2,
        Phase::ShuttingDown => 3,
        Phase::Exited => 4,
    }
}

/// What holds of a session at every moment of its life: no two pending
/// requests share an id, and all of them wait for a file; there are no
/// capabilities before `initialize` is answered, and from then on, as long
/// as the session lives, they are those advertised; before the session
/// runs there are neither documents nor pending requests; and once it
/// shuts down there are no documents.
pub open spec fn consistent(s: SessionView) -> bool {
    &&& forall|i: int, j: int|
        0 <= i < j < s.pending.len() ==> (#[trigger] s.pending[i]).id != (
        #[trigger] s.pending[j]).id
    &&& forall|i: int|
        0 <= i < s.pending.len() ==> (#[trigger] s.pending[i]).method == Method::Diagnostic
    &&& s.phase == Phase::Uninitialized ==> s.capabilities is None
    &&& s.capabilities is Some ==> s.capabilities == Some(advertised())
    &&& rank(Phase::Uninitialized) < rank(s.phase) < rank(Phase::Exited) ==> s.capabilities is Some
    &&& rank(s.phase) < rank(Phase::Running) ==> s.pending.len() == 0 && s.documents == Map::<
        Seq<char>,
        DocumentView,
    >::empty()
    &&& s.phase == Phase::ShuttingDown ==> s.documents == Map::<Seq<char>, DocumentView>::empty()
}

/// What a step never does: it takes no phase back, and it leaves the
/// capabilities alone once they are set.
pub open spec fn moves_forward(before: SessionView, after: SessionView) -> bool {
    &&& rank(before.phase) <= rank(after.phase)
    &&& before.capabilities is Some ==> after.capabilities == before.capabilities
}

/// The diagnostics that an action carries to the client, pushed or pulled.
pub open spec fn carried_diagnostics(action: ActionView) -> Option<Seq<DiagnosticView>> {
    match action {
        ActionView::Notify(ServerNoteView::PublishDiagnostics { diagnostics, .. }) => Some(
            diagnostics,
        ),
        ActionView::Respond { result: Ok(ReplyView::Diagnostics(diagnostics)), .. } => Some(
            diagnostics,
        ),
        _ => None,
    }
}

/// A session starts consistent.
pub proof fn law_initial_is_consistent()
    ensures
        consistent(initial()),
{
}

/// A request keeps a session consistent and moves it forward, if at all.
pub proof fn law_request_keeps_consistent<P: CapabilityProvider>(
    provider: P,
    s: SessionView,
    id: RequestIdView,
    call: CallView,
)
    requires
        consistent(s),
    ensures
        consistent(step_request(provider, s, id, call).0),
        moves_forward(s, step_request(provider, s, id, call).0),
{
    lemma_pending_index(s.pending, id);
    if call is Diagnostic {
        let uri = call->Diagnostic_uri;
        law_diagnostic_keeps_consistent(provider, s, id, uri, uri_path(uri));
    }
}

/// A diagnostic request keeps a session consistent, whatever the path of
/// its URI is.
pub proof fn law_diagnostic_keeps_consistent<P: CapabilityProvider>(
    provider: P,
    s: SessionView,
    id: RequestIdView,
    uri: Seq<char>,
    path: Option<Seq<char>>,
)
    requires
        consistent(s),
    ensures
        consistent(step_diagnostic(provider, s, id, uri, path).0),
        moves_forward(s, step_diagnostic(provider, s, id, uri, path).0),
{
    lemma_pending_index(s.pending, id);
}

/// A notification keeps a session consistent and moves it forward, if at all.
pub proof fn law_note_keeps_consistent<P: CapabilityProvider>(
    provider: P,
    s: SessionView,
    note: NoteView,
)
    requires
        consistent(s),
    ensures
        consistent(step_note(provider, s, note).0),
        moves_forward(s, step_note(provider, s, note).0),
{
    if note is Cancel {
        let marked = mark_cancelled(s.pending, note->Cancel_id);
        assert forall|i: int| 0 <= i < marked.len() implies (#[trigger] marked[i]).id
            == s.pending[i].id && marked[i].method == s.pending[i].method by {}
    }
}

/// Every message keeps a session consistent and moves it forward, if at all.
pub proof fn law_step_keeps_consistent<P: CapabilityProvider>(
    provider: P,
    s: SessionView,
    message: IncomingView,
)
    requires
        consistent(s),
    ensures
        consistent(step(provider, s, message).0),
        moves_forward(s, step(provider, s, message).0),
{
    match message {
        IncomingView::Request { id, call } => law_request_keeps_consistent(provider, s, id, call),
        IncomingView::Notification(note) => law_note_keeps_consistent(provider, s, note),
        IncomingView::Response { id } => {},
    }
}

/// What comes back from a file keeps a session consistent.
pub proof fn law_file_read_keeps_consistent<P: CapabilityProvider>(
    provider: P,
    s: SessionView,
    id: RequestIdView,
    content: Result<Seq<char>, Seq<char>>,
)
    requires
        consistent(s),
    ensures
        consistent(step_file_read(provider, s, id, content).0),
        moves_forward(s, step_file_read(provider, s, id, content).0),
{
    lemma_pending_index(s.pending, id);
}

/// Before the client has confirmed the initialization, every request but
/// the `initialize` that opens the session is refused as invalid, and
/// changes nothing.
pub proof fn law_requests_before_running_are_refused<P: CapabilityProvider>(
    provider: P,
    s: SessionView,
    id: RequestIdView,
    call: CallView,
)
    requires
        s.phase == Phase::Uninitialized || s.phase == Phase::Initializing,
        !(s.phase == Phase::Uninitialized && call is Initialize),
    ensures
        step(provider, s, IncomingView::Request { id, call }) == (
            s,
            refusal(id, ErrorKind::InvalidRequest),
        ),
{
}

/// Between `shutdown` and `exit` every request is refused as invalid: it
/// gets its response, and changes nothing.
pub proof fn law_requests_after_shutdown_are_refused<P: CapabilityProvider>(
    provider: P,
    s: SessionView,
    id: RequestIdView,
    call: CallView,
)
    requires
        s.phase == Phase::ShuttingDown,
    ensures
        step(provider, s, IncomingView::Request { id, call }) == (
            s,
            refusal(id, ErrorKind::InvalidRequest),
        ),
{
}

/// After `exit` every message is dropped: nothing is sent and nothing changes.
pub proof fn law_nothing_is_served_after_exit<P: CapabilityProvider>(
    provider: P,
    s: SessionView,
    message: IncomingView,
    id: RequestIdView,
    content: Result<Seq<char>, Seq<char>>,
)
    requires
        s.phase == Phase::Exited,
    ensures
        step(provider, s, message) == (s, ActionView::Nothing),
        step_file_read(provider, s, id, content) == (s, ActionView::Nothing),
{
}

/// `exit` ends the session in every phase.
pub proof fn law_exit_always_terminates<P: CapabilityProvider>(provider: P, s: SessionView)
    requires
        s.phase != Phase::Exited,
    ensures
        step(provider, s, IncomingView::Notification(NoteView::Exit)).0.phase == Phase::Exited,
        step(provider, s, IncomingView::Notification(NoteView::Exit)).1 == ActionView::Terminate,
{
}

/// A completion or hover request changes nothing in the session.
pub proof fn law_queries_change_nothing<P: CapabilityProvider>(
    provider: P,
    s: SessionView,
    id: RequestIdView,
    call: CallView,
)
    requires
        call is Completion || call is Hover,
    ensures
        step(provider, s, IncomingView::Request { id, call }).0 == s,
{
}

/// The answer to a completion or hover request is the same whether or not
/// another such request was answered before it.
pub proof fn law_queries_are_independent<P: CapabilityProvider>(
    provider: P,
    s: SessionView,
    first_id: RequestIdView,
    first: CallView,
    id: RequestIdView,
    call: CallView,
)
    requires
        first is Completion || first is Hover,
        call is Completion || call is Hover,
    ensures
        step(
            provider,
            step(provider, s, IncomingView::Request { id: first_id, call: first }).0,
            IncomingView::Request { id, call },
        ) == step(provider, s, IncomingView::Request { id, call }),
{
}

/// Diagnostics that are pulled for a document are those that were pushed
/// when its text was set, by opening it or by changing it.
pub proof fn law_pull_equals_push<P: CapabilityProvider>(
    provider: P,
    s: SessionView,
    note: NoteView,
    id: RequestIdView,
)
    requires
        s.phase == Phase::Running,
        pending_index(s.pending, id) is None,
        note is DidOpen || note is DidChange,
        carried_diagnostics(step(provider, s, IncomingView::Notification(note)).1) is Some,
    ensures
        ({
            let uri = if note is DidOpen {
                note->DidOpen_uri
            } else {
                note->DidChange_uri
            };
            let (after, pushed) = step(provider, s, IncomingView::Notification(note));
            let (last, pulled) = step(
                provider,
                after,
                IncomingView::Request { id, call: CallView::Diagnostic { uri } },
            );
            &&& last == after
            &&& after.documents.dom().contains(uri)
            &&& carried_diagnostics(pushed) == Some(
                provider.diagnostics(after.documents[uri].text),
            )
            &&& carried_diagnostics(pulled) == carried_diagnostics(pushed)
        }),
{
}

/// Diagnostics depend on the text alone: those pulled from a file with the
/// content `text` are those pushed for a document with the text `text`.
pub proof fn law_diagnostics_depend_on_text_alone<P: CapabilityProvider>(
    provider: P,
    s: SessionView,
    id: RequestIdView,
    uri: Seq<char>,
    text: Seq<char>,
)
    requires
        s.phase != Phase::Exited,
        pending_index(s.pending, id) is Some,
        !s.pending[pending_index(s.pending, id)->0].cancelled,
    ensures
        carried_diagnostics(step_file_read(provider, s, id, Ok(text)).1) == carried_diagnostics(
            publication(provider, uri, text),
        ),
{
}

/// A change notification either raises the version of an open document to
/// the one it carries, or leaves the document as it is.
pub proof fn law_versions_only_rise<P: CapabilityProvider>(
    provider: P,
    s: SessionView,
    uri: Seq<char>,
    version: int,
    changes: Seq<ContentChangeView>,
)
    requires
        s.phase == Phase::Running,
        s.documents.dom().contains(uri),
    ensures
        ({
            let note = NoteView::DidChange { uri, version, changes };
            let after = step(provider, s, IncomingView::Notification(note)).0;
            &&& after.documents.dom().contains(uri)
            &&& after.documents[uri] == s.documents[uri] || (after.documents[uri].version
                == version && version > s.documents[uri].version)
        }),
{
}

/// One change notification for a document: the version that the client
/// gives it, and the edits that lead to it.
pub struct ChangeEvent {
    pub version: int,
    pub changes: Seq<ContentChangeView>,
}

/// The notification that carries `event` for `uri`.
pub open spec fn change_note(uri: Seq<char>, event: ChangeEvent) -> IncomingView {
    IncomingView::Notification(
        NoteView::DidChange { uri, version: event.version, changes: event.changes },
    )
}

/// The session after the change notifications `events` for `uri`, taken in
/// the order in which they stand.
pub open spec fn after_changes<P: CapabilityProvider>(
    provider: P,
    s: SessionView,
    uri: Seq<char>,
    events: Seq<ChangeEvent>,
) -> SessionView
    decreases events.len(),
{
    if events.len() == 0 {
        s
    } else {
        step(
            provider,
            after_changes(provider, s, uri, events.drop_last()),
            change_note(uri, events.last()),
        ).0
    }
}

/// Every notification of `events` is applied when its turn comes: none is
/// stale, and every range denotes a part of the text as it then is.
pub open spec fn all_applied<P: CapabilityProvider>(
    provider: P,
    s: SessionView,
    uri: Seq<char>,
    events: Seq<ChangeEvent>,
) -> bool
    decreases events.len(),
{
    events.len() == 0 || (all_applied(provider, s, uri, events.drop_last()) && edited(
        after_changes(provider, s, uri, events.drop_last()).documents,
        uri,
        events.last().version,
        events.last().changes,
    ) is Ok)
}

/// The edits of all `events`, one after the other.
pub open spec fn all_edits(events: Seq<ChangeEvent>) -> Seq<ContentChangeView>
    decreases events.len(),
{
    if events.len() == 0 {
        Seq::empty()
    } else {
        all_edits(events.drop_last()) + events.last().changes
    }
}

/// After change notifications that were applied in order, the text of the
/// document is the text that comes of splicing their edits, one after the
/// other, into the text that the document had before; and the version is
/// that of the last notification.
pub proof fn law_changes_apply_in_order<P: CapabilityProvider>(
    provider: P,
    s: SessionView,
    uri: Seq<char>,
    events: Seq<ChangeEvent>,
)
    requires
        s.phase == Phase::Running,
        all_applied(provider, s, uri, events),
    ensures
        after_changes(provider, s, uri, events).phase == Phase::Running,
        apply_edits(text_of(s.documents, uri), all_edits(events)) == Some(
            text_of(after_changes(provider, s, uri, events).documents, uri),
        ),
        events.len() > 0 ==> after_changes(provider, s, uri, events).documents.dom().contains(uri)
            && after_changes(provider, s, uri, events).documents[uri].version
            == events.last().version,
    decreases events.len(),
{
    if events.len() > 0 {
        let earlier = events.drop_last();
        let last = events.last();
        let before = after_changes(provider, s, uri, earlier);
        law_changes_apply_in_order(provider, s, uri, earlier);
        law_edits_compose(text_of(s.documents, uri), all_edits(earlier), last.changes);
        assert(text_of(before.documents, uri) == if before.documents.dom().contains(uri) {
            before.documents[uri].text
        } else {
            Seq::<char>::empty()
        });
    }
}

} // verus!
