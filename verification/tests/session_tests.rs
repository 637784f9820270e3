use pseudo_lsp::capabilities::advertise;
use pseudo_lsp::diagnostics::{Diagnostic, Position, Range, Severity};
use pseudo_lsp::edit::ContentChange;
use pseudo_lsp::message::{
    Action, Call, Incoming, LogLevel, Note, Reply, RpcError, ServerNote,
};
use pseudo_lsp::protocol::{ErrorKind, Method, RequestId};
use pseudo_lsp::provider::{CompletionItem, CompletionKind, Hover, StubProvider};
use pseudo_lsp::session::{PendingRequest, Phase, Session};

const URI: &str = "file:///tmp/demo.txt";

fn request(id: i64, call: Call) -> Incoming {
    Incoming::Request { id: RequestId::Number(id), call }
}

fn refused(id: i64, kind: ErrorKind) -> Action {
    Action::Respond { id: RequestId::Number(id), result: Err(RpcError { kind, reason: None }) }
}

fn answered(id: i64, reply: Reply) -> Action {
    Action::Respond { id: RequestId::Number(id), result: Ok(reply) }
}

fn published(uri: &str, diagnostics: Vec<Diagnostic>) -> Action {
    Action::Notify(ServerNote::PublishDiagnostics {
        uri: uri.to_string(),
        diagnostics,
        version: None,
    })
}

fn flagged(line: u32, character: u32) -> Diagnostic {
    Diagnostic {
        range: Range {
            start: Position { line, character },
            end: Position { line, character: character + 3 },
        },
        severity: Severity::Error,
        message: "Avoid using 'AAA'".to_string(),
    }
}

fn open(uri: &str, text: &str, version: i32) -> Incoming {
    Incoming::Notification(Note::DidOpen { uri: uri.to_string(), text: text.to_string(), version })
}

fn change(uri: &str, version: i32, changes: Vec<ContentChange>) -> Incoming {
    Incoming::Notification(Note::DidChange { uri: uri.to_string(), version, changes })
}

fn whole(text: &str) -> ContentChange {
    ContentChange { range: None, text: text.to_string() }
}

fn splice_in(from: (u32, u32), to: (u32, u32), text: &str) -> ContentChange {
    ContentChange {
        range: Some(Range {
            start: Position { line: from.0, character: from.1 },
            end: Position { line: to.0, character: to.1 },
        }),
        text: text.to_string(),
    }
}

fn pull(id: i64, uri: &str) -> Incoming {
    request(id, Call::Diagnostic { uri: uri.to_string() })
}

fn running() -> Session<StubProvider> {
    let mut session = Session::new(StubProvider);
    session.handle(request(0, Call::Initialize));
    session.handle(Incoming::Notification(Note::Initialized));
    assert_eq!(session.phase(), Phase::Running);
    session
}

fn stub_items() -> Vec<CompletionItem> {
    vec![
        CompletionItem {
            label: "Hello".to_string(),
            kind: Some(CompletionKind::Text),
            detail: Some("Some detail".to_string()),
        },
        CompletionItem {
            label: "Bye".to_string(),
            kind: Some(CompletionKind::Text),
            detail: Some("Some detail".to_string()),
        },
    ]
}

#[test]
fn a_new_session_is_uninitialized() {
    let session = Session::new(StubProvider);
    assert_eq!(session.phase(), Phase::Uninitialized);
    assert_eq!(session.capabilities(), None);
    assert_eq!(session.documents().len(), 0);
    assert!(session.pending().is_empty());
}

#[test]
fn initialize_answers_with_the_capabilities() {
    let mut session = Session::new(StubProvider);
    let action = session.handle(request(1, Call::Initialize));
    assert_eq!(action, answered(1, Reply::Capabilities(advertise())));
    assert_eq!(session.phase(), Phase::Initializing);
    assert_eq!(session.capabilities(), Some(&advertise()));
}

#[test]
fn initialized_announces_readiness() {
    let mut session = Session::new(StubProvider);
    session.handle(request(1, Call::Initialize));
    let action = session.handle(Incoming::Notification(Note::Initialized));
    assert_eq!(
        action,
        Action::Notify(ServerNote::LogMessage {
            level: LogLevel::Info,
            text: "pseudo_lsp initialized".to_string(),
        })
    );
    assert_eq!(session.phase(), Phase::Running);
}

#[test]
fn the_whole_life_of_a_session() {
    let mut session = Session::new(StubProvider);
    session.handle(request(1, Call::Initialize));
    session.handle(Incoming::Notification(Note::Initialized));
    assert_eq!(session.handle(request(2, Call::Shutdown)), answered(2, Reply::Empty));
    assert_eq!(session.phase(), Phase::ShuttingDown);
    assert_eq!(session.handle(Incoming::Notification(Note::Exit)), Action::Terminate);
    assert_eq!(session.phase(), Phase::Exited);
    assert_eq!(session.capabilities(), Some(&advertise()));
}

#[test]
fn requests_before_initialize_are_invalid() {
    let calls = vec![
        Call::Shutdown,
        Call::Completion { uri: URI.to_string(), position: Position { line: 0, character: 0 } },
        Call::Hover { uri: URI.to_string(), position: Position { line: 0, character: 0 } },
        Call::Diagnostic { uri: URI.to_string() },
        Call::Unknown { method: "workspace/symbol".to_string() },
        Call::Malformed { method: Method::Completion },
    ];
    let mut session = Session::new(StubProvider);
    for (n, call) in calls.iter().enumerate() {
        let action = session.handle(request(n as i64, call.clone()));
        assert_eq!(action, refused(n as i64, ErrorKind::InvalidRequest));
        assert_eq!(session.phase(), Phase::Uninitialized);
    }
    session.handle(request(100, Call::Initialize));
    for (n, call) in calls.iter().enumerate() {
        let action = session.handle(request(n as i64, call.clone()));
        assert_eq!(action, refused(n as i64, ErrorKind::InvalidRequest));
        assert_eq!(session.phase(), Phase::Initializing);
    }
    assert_eq!(
        session.handle(request(101, Call::Initialize)),
        refused(101, ErrorKind::InvalidRequest)
    );
}

#[test]
fn notifications_before_initialize_are_dropped() {
    let mut session = Session::new(StubProvider);
    assert_eq!(session.handle(open(URI, "AAA", 1)), Action::Nothing);
    assert_eq!(session.handle(change(URI, 2, vec![whole("AAA")])), Action::Nothing);
    assert_eq!(session.handle(Incoming::Notification(Note::Initialized)), Action::Nothing);
    assert_eq!(
        session.handle(Incoming::Notification(Note::DidClose { uri: URI.to_string() })),
        Action::Nothing
    );
    assert_eq!(session.phase(), Phase::Uninitialized);
    assert_eq!(session.documents().len(), 0);
}

#[test]
fn a_second_initialize_is_invalid() {
    let mut session = running();
    assert_eq!(session.handle(request(5, Call::Initialize)), refused(5, ErrorKind::InvalidRequest));
    assert_eq!(session.phase(), Phase::Running);
}

#[test]
fn exit_terminates_in_every_phase() {
    let mut fresh = Session::new(StubProvider);
    assert_eq!(fresh.handle(Incoming::Notification(Note::Exit)), Action::Terminate);
    assert_eq!(fresh.phase(), Phase::Exited);
    let mut session = running();
    assert_eq!(session.handle(Incoming::Notification(Note::Exit)), Action::Terminate);
    assert_eq!(session.phase(), Phase::Exited);
}

#[test]
fn after_exit_every_message_is_dropped() {
    let mut session = running();
    session.handle(open(URI, "AAA", 1));
    session.handle(Incoming::Notification(Note::Exit));
    assert_eq!(session.handle(request(9, Call::Shutdown)), Action::Nothing);
    assert_eq!(session.handle(request(10, Call::Initialize)), Action::Nothing);
    assert_eq!(session.handle(pull(11, URI)), Action::Nothing);
    assert_eq!(session.handle(open(URI, "AAA", 2)), Action::Nothing);
    assert_eq!(session.handle(Incoming::Notification(Note::Exit)), Action::Nothing);
    assert_eq!(
        session.handle(Incoming::Response { id: RequestId::Number(1) }),
        Action::Nothing
    );
    assert_eq!(session.file_read(RequestId::Number(11), Ok("AAA".to_string())), Action::Nothing);
    assert_eq!(session.phase(), Phase::Exited);
}

#[test]
fn a_request_between_shutdown_and_exit_gets_an_error() {
    let mut session = running();
    assert_eq!(session.handle(request(1, Call::Shutdown)), answered(1, Reply::Empty));
    let queued = request(
        2,
        Call::Completion { uri: URI.to_string(), position: Position { line: 0, character: 0 } },
    );
    assert_eq!(session.handle(queued), refused(2, ErrorKind::InvalidRequest));
    assert_eq!(session.handle(Incoming::Notification(Note::Exit)), Action::Terminate);
    assert_eq!(session.handle(request(3, Call::Shutdown)), Action::Nothing);
    assert_eq!(session.phase(), Phase::Exited);
}

#[test]
fn shutdown_closes_the_documents() {
    let mut session = running();
    session.handle(open(URI, "text", 1));
    assert_eq!(session.documents().len(), 1);
    session.handle(request(1, Call::Shutdown));
    assert_eq!(session.documents().len(), 0);
}

#[test]
fn opening_a_document_pushes_its_diagnostics() {
    let mut session = running();
    let action = session.handle(open(URI, "line0\nAAA here\nline2", 1));
    match &action {
        Action::Notify(ServerNote::PublishDiagnostics { uri, diagnostics, version }) => {
            assert_eq!(uri, URI);
            assert_eq!(*version, None);
            assert_eq!(diagnostics.len(), 1);
            assert_eq!(diagnostics[0].range.start, Position { line: 1, character: 0 });
            assert_eq!(diagnostics[0].range.end, Position { line: 1, character: 3 });
            assert_eq!(diagnostics[0].severity, Severity::Error);
            assert_eq!(diagnostics[0].message, "Avoid using 'AAA'");
        }
        other => panic!("expected a publication, got {:?}", other),
    }
    assert_eq!(session.documents().get(URI), Some("line0\nAAA here\nline2"));
    assert_eq!(session.documents().version(URI), Some(1));
}

#[test]
fn a_clean_document_pushes_an_empty_set() {
    let mut session = running();
    assert_eq!(session.handle(open(URI, "nothing here", 1)), published(URI, vec![]));
}

#[test]
fn changes_are_applied_in_order_and_diagnosed() {
    let mut session = running();
    session.handle(open(URI, "one\ntwo\n", 1));
    let action = session.handle(change(
        URI,
        2,
        vec![splice_in((1, 0), (1, 3), "AAA"), splice_in((0, 0), (0, 0), "zero\n")],
    ));
    assert_eq!(action, published(URI, vec![flagged(2, 0)]));
    assert_eq!(session.documents().get(URI), Some("zero\none\nAAA\n"));
    assert_eq!(session.documents().version(URI), Some(2));
    let action = session.handle(change(URI, 3, vec![whole("AAA AAA")]));
    assert_eq!(action, published(URI, vec![flagged(0, 0)]));
    assert_eq!(session.documents().get(URI), Some("AAA AAA"));
}

#[test]
fn a_change_to_an_unseen_uri_opens_it() {
    let mut session = running();
    let action = session.handle(change(URI, 4, vec![whole("xAAA")]));
    assert_eq!(action, published(URI, vec![flagged(0, 1)]));
    assert_eq!(session.documents().get(URI), Some("xAAA"));
    assert_eq!(session.documents().version(URI), Some(4));
    let mut session = running();
    assert_eq!(
        session.handle(change(URI, 1, vec![splice_in((0, 0), (0, 0), "AAA")])),
        published(URI, vec![flagged(0, 0)])
    );
    let mut session = running();
    assert_eq!(
        session.handle(change(URI, 1, vec![splice_in((1, 0), (1, 0), "AAA")])),
        Action::Nothing
    );
    assert_eq!(session.documents().get(URI), None);
}

#[test]
fn a_stale_change_is_dropped() {
    let mut session = running();
    session.handle(open(URI, "text", 5));
    assert_eq!(session.handle(change(URI, 5, vec![whole("AAA")])), Action::Nothing);
    assert_eq!(session.handle(change(URI, 4, vec![whole("AAA")])), Action::Nothing);
    assert_eq!(session.documents().get(URI), Some("text"));
    assert_eq!(session.documents().version(URI), Some(5));
}

#[test]
fn a_change_outside_the_text_is_dropped() {
    let mut session = running();
    session.handle(open(URI, "text", 1));
    assert_eq!(
        session.handle(change(URI, 2, vec![splice_in((0, 9), (0, 9), "AAA")])),
        Action::Nothing
    );
    assert_eq!(session.documents().get(URI), Some("text"));
    assert_eq!(session.documents().version(URI), Some(1));
}

#[test]
fn closing_forgets_the_document() {
    let mut session = running();
    session.handle(open(URI, "AAA", 1));
    let action = session.handle(Incoming::Notification(Note::DidClose { uri: URI.to_string() }));
    assert_eq!(action, Action::Nothing);
    assert_eq!(session.documents().get(URI), None);
}

#[test]
fn completion_gives_the_two_items_on_any_document() {
    let mut session = running();
    session.handle(open(URI, "some text", 1));
    for (n, uri) in [URI, "file:///never/opened", "untitled:1"].iter().enumerate() {
        let action = session.handle(request(
            n as i64,
            Call::Completion { uri: uri.to_string(), position: Position { line: 7, character: 7 } },
        ));
        assert_eq!(action, answered(n as i64, Reply::Completion(stub_items())));
    }
}

#[test]
fn hover_gives_the_hover_text() {
    let mut session = running();
    let action = session.handle(request(
        1,
        Call::Hover { uri: URI.to_string(), position: Position { line: 0, character: 0 } },
    ));
    assert_eq!(
        action,
        answered(1, Reply::Hover(Some(Hover { contents: "You're hovering!".to_string() })))
    );
}

#[test]
fn queries_leave_the_session_as_it_is() {
    let mut session = running();
    session.handle(open(URI, "AAA", 3));
    let completion =
        Call::Completion { uri: URI.to_string(), position: Position { line: 0, character: 1 } };
    let hover = Call::Hover { uri: URI.to_string(), position: Position { line: 0, character: 1 } };
    let first = session.handle(request(1, completion.clone()));
    session.handle(request(2, hover.clone()));
    session.handle(request(3, hover.clone()));
    let again = session.handle(request(1, completion));
    assert_eq!(first, again);
    assert_eq!(session.phase(), Phase::Running);
    assert_eq!(session.documents().len(), 1);
    assert_eq!(session.documents().get(URI), Some("AAA"));
    assert_eq!(session.documents().version(URI), Some(3));
    assert!(session.pending().is_empty());
}

#[test]
fn unknown_methods_and_bad_parameters() {
    let mut session = running();
    assert_eq!(
        session.handle(request(1, Call::Unknown { method: "textDocument/rename".to_string() })),
        refused(1, ErrorKind::MethodNotFound)
    );
    assert_eq!(
        session.handle(request(2, Call::Malformed { method: Method::Hover })),
        refused(2, ErrorKind::InvalidParams)
    );
    assert_eq!(
        session.handle(Incoming::Notification(Note::Unknown { method: "$/progress".to_string() })),
        Action::Nothing
    );
    assert_eq!(
        session.handle(Incoming::Notification(Note::Malformed { method: Method::DidOpen })),
        Action::Nothing
    );
    assert_eq!(
        session.handle(Incoming::Response { id: RequestId::Number(1) }),
        Action::Nothing
    );
    assert_eq!(session.phase(), Phase::Running);
}

#[test]
fn pulled_diagnostics_are_the_pushed_ones() {
    let mut session = running();
    for (n, text) in ["", "AAA", "x\nyAAA\nAAA AAA\n", "😀AAA\r\nAAA"].iter().enumerate() {
        let pushed = match session.handle(open(URI, text, n as i32)) {
            Action::Notify(ServerNote::PublishDiagnostics { diagnostics, .. }) => diagnostics,
            other => panic!("expected a publication, got {:?}", other),
        };
        let pulled = session.handle(pull(n as i64, URI));
        assert_eq!(pulled, answered(n as i64, Reply::Diagnostics(pushed)));
    }
}

#[test]
fn a_pull_on_a_closed_document_asks_for_its_file() {
    let mut session = running();
    let action = session.handle(pull(7, "file:///home/me/a%20b.txt?x=1#frag"));
    assert_eq!(
        action,
        Action::ReadFile { id: RequestId::Number(7), path: "/home/me/a%20b.txt".to_string() }
    );
    assert_eq!(
        session.pending(),
        &vec![PendingRequest {
            id: RequestId::Number(7),
            method: Method::Diagnostic,
            cancelled: false,
        }]
    );
    let action = session.file_read(RequestId::Number(7), Ok("a\nAAA".to_string()));
    assert_eq!(action, answered(7, Reply::Diagnostics(vec![flagged(1, 0)])));
    assert!(session.pending().is_empty());
}

#[test]
fn a_pull_on_a_uri_without_path_has_invalid_parameters() {
    let mut session = running();
    assert_eq!(session.handle(pull(7, "not a uri")), refused(7, ErrorKind::InvalidParams));
    assert!(session.pending().is_empty());
}

#[test]
fn request_diagnostic_waits_only_where_a_path_is_given() {
    let mut session = running();
    session.handle(open(URI, "AAA", 1));
    let action = session.request_diagnostic(RequestId::Number(1), URI, None);
    assert_eq!(action, answered(1, Reply::Diagnostics(vec![flagged(0, 0)])));
    let action = session.request_diagnostic(RequestId::Number(2), "file:///x", None);
    assert_eq!(action, refused(2, ErrorKind::InvalidParams));
    let action =
        session.request_diagnostic(RequestId::Number(3), "file:///x", Some("/x".to_string()));
    assert_eq!(action, Action::ReadFile { id: RequestId::Number(3), path: "/x".to_string() });
    let action =
        session.request_diagnostic(RequestId::Number(3), "file:///y", Some("/y".to_string()));
    assert_eq!(action, refused(3, ErrorKind::InvalidRequest));
    assert_eq!(session.pending().len(), 1);
    let mut fresh = Session::new(StubProvider);
    let action =
        fresh.request_diagnostic(RequestId::Number(1), "file:///x", Some("/x".to_string()));
    assert_eq!(action, refused(1, ErrorKind::InvalidRequest));
}

#[test]
fn a_file_that_cannot_be_read_is_an_internal_error() {
    let mut session = running();
    session.handle(pull(7, URI));
    let action = session.file_read(RequestId::Number(7), Err("permission denied".to_string()));
    assert_eq!(
        action,
        Action::Respond {
            id: RequestId::Number(7),
            result: Err(RpcError {
                kind: ErrorKind::InternalError,
                reason: Some("permission denied".to_string()),
            }),
        }
    );
    assert!(session.pending().is_empty());
    assert_eq!(session.phase(), Phase::Running);
}

#[test]
fn nothing_is_sent_for_an_id_that_is_not_pending() {
    let mut session = running();
    session.handle(pull(7, URI));
    assert_eq!(session.file_read(RequestId::Number(8), Ok("AAA".to_string())), Action::Nothing);
    assert_eq!(
        session.file_read(RequestId::Text("7".to_string()), Ok("AAA".to_string())),
        Action::Nothing
    );
    assert_eq!(session.pending().len(), 1);
    session.file_read(RequestId::Number(7), Ok(String::new()));
    assert_eq!(session.file_read(RequestId::Number(7), Ok("AAA".to_string())), Action::Nothing);
}

#[test]
fn an_id_that_is_pending_cannot_be_used_again() {
    let mut session = running();
    session.handle(pull(7, URI));
    let action = session.handle(request(7, Call::Shutdown));
    assert_eq!(action, refused(7, ErrorKind::InvalidRequest));
    assert_eq!(session.phase(), Phase::Running);
    assert_eq!(session.handle(pull(7, URI)), refused(7, ErrorKind::InvalidRequest));
    assert_eq!(session.pending().len(), 1);
    session.file_read(RequestId::Number(7), Ok(String::new()));
    assert_eq!(session.handle(request(7, Call::Shutdown)), answered(7, Reply::Empty));
}

#[test]
fn a_cancelled_request_is_answered_as_cancelled() {
    let mut session = running();
    session.handle(pull(7, URI));
    session.handle(pull(8, "file:///tmp/other.txt"));
    let action = session.handle(Incoming::Notification(Note::Cancel { id: RequestId::Number(7) }));
    assert_eq!(action, Action::Nothing);
    assert_eq!(
        session.file_read(RequestId::Number(7), Ok("AAA".to_string())),
        refused(7, ErrorKind::RequestCancelled)
    );
    assert_eq!(
        session.file_read(RequestId::Number(8), Ok("AAA".to_string())),
        answered(8, Reply::Diagnostics(vec![flagged(0, 0)]))
    );
}

#[test]
fn cancelling_an_unknown_id_changes_nothing() {
    let mut session = running();
    session.handle(pull(7, URI));
    session.handle(Incoming::Notification(Note::Cancel { id: RequestId::Number(70) }));
    assert_eq!(
        session.pending(),
        &vec![PendingRequest {
            id: RequestId::Number(7),
            method: Method::Diagnostic,
            cancelled: false,
        }]
    );
}

#[test]
fn a_pending_request_is_still_answered_after_shutdown() {
    let mut session = running();
    session.handle(pull(7, URI));
    session.handle(request(8, Call::Shutdown));
    assert_eq!(
        session.file_read(RequestId::Number(7), Ok("AAA".to_string())),
        answered(7, Reply::Diagnostics(vec![flagged(0, 0)]))
    );
}

#[test]
fn server_notifications_go_out_under_their_methods() {
    let log = ServerNote::LogMessage { level: LogLevel::Info, text: "ready".to_string() };
    assert_eq!(log.method(), "window/logMessage");
    let publish =
        ServerNote::PublishDiagnostics { uri: URI.to_string(), diagnostics: vec![], version: None };
    assert_eq!(publish.method(), "textDocument/publishDiagnostics");
}

#[test]
fn the_named_entries_take_the_same_steps() {
    let mut session = Session::new(StubProvider);
    assert_eq!(
        session.initialize(RequestId::Number(1)),
        answered(1, Reply::Capabilities(advertise()))
    );
    assert_eq!(
        session.initialized(),
        Action::Notify(ServerNote::LogMessage {
            level: LogLevel::Info,
            text: "pseudo_lsp initialized".to_string(),
        })
    );
    assert_eq!(
        session.did_open("file:///tmp/other.txt".to_string(), "AAA".to_string(), 1),
        published("file:///tmp/other.txt", vec![flagged(0, 0)])
    );
    assert_eq!(session.did_close("file:///tmp/other.txt".to_string()), Action::Nothing);
    assert_eq!(session.documents().len(), 0);
    assert_eq!(
        session.did_change(URI.to_string(), 1, vec![whole("a\nAAA")]),
        published(URI, vec![flagged(1, 0)])
    );
    let position = Position { line: 1, character: 1 };
    assert_eq!(
        session.completion(RequestId::Number(2), URI.to_string(), position),
        answered(2, Reply::Completion(stub_items()))
    );
    assert_eq!(
        session.hover(RequestId::Number(3), URI.to_string(), position),
        answered(3, Reply::Hover(Some(Hover { contents: "You're hovering!".to_string() })))
    );
    assert_eq!(
        session.diagnostic(RequestId::Number(4), URI.to_string()),
        answered(4, Reply::Diagnostics(vec![flagged(1, 0)]))
    );
    assert_eq!(session.shutdown(RequestId::Number(5)), answered(5, Reply::Empty));
    assert_eq!(session.phase(), Phase::ShuttingDown);
}
