//! What a session takes in and what it asks its surroundings to do: typed
//! messages of the client, and the one action that each of them leads to.

use crate::capabilities::{ServerCapabilities, ServerCapabilitiesView};
use crate::diagnostics::{Diagnostic, DiagnosticView, Position};
use crate::edit::{ContentChange, ContentChangeView};
use crate::protocol::{ErrorKind, Method, RequestId, RequestIdView};
use crate::provider::{hover_view, CompletionItem, CompletionItemView, Hover};
use crate::text::text_view;
use vstd::prelude::*;

verus! {

/// A request of the client: a call that is answered with a response.
#[derive(Clone, Debug, PartialEq, Eq)]
pub enum Call {
    Initialize,
    Shutdown,
    Completion { uri: String, position: Position },
    Hover { uri: String, position: Position },
    Diagnostic { uri: String },
    /// A call of a method that the server does not know.
    Unknown { method: String },
    /// A call of a known method whose parameters do not have its shape.
    Malformed { method: Method },
}

pub enum CallView {
    Initialize,
    Shutdown,
    Completion { uri: Seq<char>, position: Position },
    Hover { uri: Seq<char>, position: Position },
    Diagnostic { uri: Seq<char> },
    Unknown { method: Seq<char> },
    Malformed { method: Method },
}

impl View for Call {
    type V = CallView;

    open spec fn view(&self) -> CallView {
        match self {
            Call::Initialize => CallView::Initialize,
            Call::Shutdown => CallView::Shutdown,
            Call::Completion { uri, position } => CallView::Completion {
                uri: uri@,
                position: *position,
            },
            Call::Hover { uri, position } => CallView::Hover { uri: uri@, position: *position },
            Call::Diagnostic { uri } => CallView::Diagnostic { uri: uri@ },
            Call::Unknown { method } => CallView::Unknown { method: method@ },
            Call::Malformed { method } => CallView::Malformed { method: *method },
        }
    }
}

/// A notification of the client: it is never answered.
#[derive(Clone, Debug, PartialEq, Eq)]
pub enum Note {
    Initialized,
    Exit,
    DidOpen { uri: String, text: String, version: i32 },
    DidChange { uri: String, version: i32, changes: Vec<ContentChange> },
    DidClose { uri: String },
    Cancel { id: RequestId },
    /// A notification of a method that the server does not know.
    Unknown { method: String },
    /// A notification of a known method whose parameters do not have its shape.
    Malformed { method: Method },
}

pub enum NoteView {
    Initialized,
    Exit,
    DidOpen { uri: Seq<char>, text: Seq<char>, version: int },
    DidChange { uri: Seq<char>, version: int, changes: Seq<ContentChangeView> },
    DidClose { uri: Seq<char> },
    Cancel { id: RequestIdView },
    Unknown { method: Seq<char> },
    Malformed { method: Method },
}

impl View for Note {
    type V = NoteView;

    open spec fn view(&self) -> NoteView {
        match self {
            Note::Initialized => NoteView::Initialized,
            Note::Exit => NoteView::Exit,
            Note::DidOpen { uri, text, version } => NoteView::DidOpen {
                uri: uri@,
                text: text@,
                version: *version as int,
            },
            Note::DidChange { uri, version, changes } => NoteView::DidChange {
                uri: uri@,
                version: *version as int,
                changes: changes.deep_view(),
            },
            Note::DidClose { uri } => NoteView::DidClose { uri: uri@ },
            Note::Cancel { id } => NoteView::Cancel { id: id@ },
            Note::Unknown { method } => NoteView::Unknown { method: method@ },
            Note::Malformed { method } => NoteView::Malformed { method: *method },
        }
    }
}

/// A message of the client.
#[derive(Clone, Debug, PartialEq, Eq)]
pub enum Incoming {
    Request { id: RequestId, call: Call },
    Notification(Note),
    Response { id: RequestId },
}

pub enum IncomingView {
    Request { id: RequestIdView, call: CallView },
    Notification(NoteView),
    Response { id: RequestIdView },
}

impl View for Incoming {
    type V = IncomingView;

    open spec fn view(&self) -> IncomingView {
        match self {
            Incoming::Request { id, call } => IncomingView::Request { id: id@, call: call@ },
            Incoming::Notification(note) => IncomingView::Notification(note@),
            Incoming::Response { id } => IncomingView::Response { id: id@ },
        }
    }
}

/// What a successful response carries.
#[derive(Clone, Debug, PartialEq, Eq)]
pub enum Reply {
    Capabilities(ServerCapabilities),
    /// Success, and nothing to report.
    Empty,
    Completion(Vec<CompletionItem>),
    Hover(Option<Hover>),
    /// Every diagnostic of the document.
    Diagnostics(Vec<Diagnostic>),
}

#[verifier::ext_equal]
pub enum ReplyView {
    Capabilities(ServerCapabilitiesView),
    Empty,
    Completion(Seq<CompletionItemView>),
    Hover(Option<Seq<char>>),
    Diagnostics(Seq<DiagnosticView>),
}

impl View for Reply {
    type V = ReplyView;

    open spec fn view(&self) -> ReplyView {
        match self {
            Reply::Capabilities(c) => ReplyView::Capabilities(c@),
            Reply::Empty => ReplyView::Empty,
            Reply::Completion(items) => ReplyView::Completion(items.deep_view()),
            Reply::Hover(hover) => ReplyView::Hover(hover_view(*hover)),
            Reply::Diagnostics(found) => ReplyView::Diagnostics(found.deep_view()),
        }
    }
}

/// What a failed response carries.
#[derive(Clone, Debug, PartialEq, Eq)]
pub struct RpcError {
    pub kind: ErrorKind,
    /// Why the handler failed, where it said so.
    pub reason: Option<String>,
}

pub struct RpcErrorView {
    pub kind: ErrorKind,
    pub reason: Option<Seq<char>>,
}

impl View for RpcError {
    type V = RpcErrorView;

    open spec fn view(&self) -> RpcErrorView {
        RpcErrorView { kind: self.kind, reason: text_view(self.reason) }
    }
}

/// The characters of what a response carries.
pub open spec fn outcome_view(result: Result<Reply, RpcError>) -> Result<ReplyView, RpcErrorView> {
    match result {
        Ok(reply) => Ok(reply@),
        Err(error) => Err(error@),
    }
}

#[derive(Clone, Copy, Debug, PartialEq, Eq, Structural)]
pub enum LogLevel {
    Error,
    Warning,
    Info,
    Log,
}

/// A notification of the server. The client never answers it.
#[derive(Clone, Debug, PartialEq, Eq)]
pub enum ServerNote {
    LogMessage { level: LogLevel, text: String },
    /// The full set of diagnostics of `uri`, in place of any set sent before.
    PublishDiagnostics { uri: String, diagnostics: Vec<Diagnostic>, version: Option<i32> },
}

#[verifier::ext_equal]
pub enum ServerNoteView {
    LogMessage { level: LogLevel, text: Seq<char> },
    PublishDiagnostics { uri: Seq<char>, diagnostics: Seq<DiagnosticView>, version: Option<i32> },
}

impl View for ServerNote {
    type V = ServerNoteView;

    open spec fn view(&self) -> ServerNoteView {
        match self {
            ServerNote::LogMessage { level, text } => ServerNoteView::LogMessage {
                level: *level,
                text: text@,
            },
            ServerNote::PublishDiagnostics {
                uri,
                diagnostics,
                version,
            } => ServerNoteView::PublishDiagnostics {
                uri: uri@,
                diagnostics: diagnostics.deep_view(),
                version: *version,
            },
        }
    }
}

impl ServerNote {
    /// The method under which the notification goes out.
    pub open spec fn method_name(self) -> Seq<char> {
        match self {
            ServerNote::LogMessage { .. } => "window/logMessage"@,
            ServerNote::PublishDiagnostics { .. } => "textDocument/publishDiagnostics"@,
        }
    }

    pub fn method(&self) -> (name: &'static str)
        ensures
            name@ == self.method_name(),
    {
        match self {
            ServerNote::LogMessage { .. } => "window/logMessage",
            ServerNote::PublishDiagnostics { .. } => "textDocument/publishDiagnostics",
        }
    }
}

/// What the surroundings of a session are to do after a message.
#[derive(Debug, PartialEq, Eq)]
pub enum Action {
    /// The message is dropped, or leads to nothing that is sent.
    Nothing,
    /// Send the response to the request `id`.
    Respond { id: RequestId, result: Result<Reply, RpcError> },
    /// Send a notification.
    Notify(ServerNote),
    /// Read the file at `path` and hand its content, or the failure, back
    /// under `id`.
    ReadFile { id: RequestId, path: String },
    /// End the process.
    Terminate,
}

#[verifier::ext_equal]
pub enum ActionView {
    Nothing,
    Respond { id: RequestIdView, result: Result<ReplyView, RpcErrorView> },
    Notify(ServerNoteView),
    ReadFile { id: RequestIdView, path: Seq<char> },
    Terminate,
}

impl View for Action {
    type V = ActionView;

    open spec fn view(&self) -> ActionView {
        match self {
            Action::Nothing => ActionView::Nothing,
            Action::Respond { id, result } => ActionView::Respond {
                id: id@,
                result: outcome_view(*result),
            },
            Action::Notify(note) => ActionView::Notify(note@),
            Action::ReadFile { id, path } => ActionView::ReadFile { id: id@, path: path@ },
            Action::Terminate => ActionView::Terminate,
        }
    }
}

/// The response that refuses the request `id` for the reason `kind`.
pub open spec fn refusal(id: RequestIdView, kind: ErrorKind) -> ActionView {
    ActionView::Respond { id, result: Err(RpcErrorView { kind, reason: None }) }
}

/// Builds the response that refuses the request `id` for the reason `kind`.
pub fn refuse(id: RequestId, kind: ErrorKind) -> (action: Action)
    ensures
        action@ == refusal(id@, kind),
{
    Action::Respond { id, result: Err(RpcError { kind, reason: None }) }
}

} // verus!
