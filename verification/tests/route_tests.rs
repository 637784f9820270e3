use pseudo_lsp::codec::{decode, Message, WireError};
use pseudo_lsp::frame::encode_frame;
use pseudo_lsp::message::{Call, Incoming, Note, RpcError};
use pseudo_lsp::protocol::{ErrorKind, Method, RequestId};
use pseudo_lsp::route::{route, wire_error, Routed};

fn wire_request(id: i64, method: &str, params: Option<&str>) -> Message {
    Message::Request {
        id: RequestId::Number(id),
        method: method.to_string(),
        params: params.map(|p| p.to_string()),
    }
}

fn wire_notification(method: &str, params: Option<&str>) -> Message {
    Message::Notification { method: method.to_string(), params: params.map(|p| p.to_string()) }
}

#[test]
fn requests_without_parameters_are_ready() {
    assert_eq!(
        route(wire_request(1, "initialize", Some("{\"capabilities\":{}}"))),
        Routed::Ready(Incoming::Request { id: RequestId::Number(1), call: Call::Initialize })
    );
    assert_eq!(
        route(wire_request(2, "shutdown", None)),
        Routed::Ready(Incoming::Request { id: RequestId::Number(2), call: Call::Shutdown })
    );
}

#[test]
fn queries_wait_for_their_parameters() {
    for (name, method) in [
        ("textDocument/completion", Method::Completion),
        ("textDocument/hover", Method::Hover),
        ("textDocument/diagnostic", Method::Diagnostic),
    ] {
        assert_eq!(
            route(wire_request(3, name, Some("{}"))),
            Routed::Typed { id: Some(RequestId::Number(3)), method, params: Some("{}".to_string()) }
        );
    }
}

#[test]
fn notifications_without_parameters_are_ready() {
    assert_eq!(
        route(wire_notification("initialized", Some("{}"))),
        Routed::Ready(Incoming::Notification(Note::Initialized))
    );
    assert_eq!(
        route(wire_notification("exit", None)),
        Routed::Ready(Incoming::Notification(Note::Exit))
    );
}

#[test]
fn document_notifications_wait_for_their_parameters() {
    for (name, method) in [
        ("textDocument/didOpen", Method::DidOpen),
        ("textDocument/didChange", Method::DidChange),
        ("textDocument/didClose", Method::DidClose),
        ("$/cancelRequest", Method::CancelRequest),
    ] {
        assert_eq!(
            route(wire_notification(name, None)),
            Routed::Typed { id: None, method, params: None }
        );
    }
}

#[test]
fn methods_that_are_not_known_are_unknown() {
    assert_eq!(
        route(wire_request(4, "textDocument/rename", None)),
        Routed::Ready(Incoming::Request {
            id: RequestId::Number(4),
            call: Call::Unknown { method: "textDocument/rename".to_string() },
        })
    );
    assert_eq!(
        route(wire_notification("", None)),
        Routed::Ready(Incoming::Notification(Note::Unknown { method: String::new() }))
    );
}

#[test]
fn a_method_of_the_other_kind_is_unknown() {
    assert_eq!(
        route(wire_request(5, "exit", None)),
        Routed::Ready(Incoming::Request {
            id: RequestId::Number(5),
            call: Call::Unknown { method: "exit".to_string() },
        })
    );
    assert_eq!(
        route(wire_request(5, "textDocument/didOpen", Some("{}"))),
        Routed::Ready(Incoming::Request {
            id: RequestId::Number(5),
            call: Call::Unknown { method: "textDocument/didOpen".to_string() },
        })
    );
    assert_eq!(
        route(wire_notification("shutdown", None)),
        Routed::Ready(Incoming::Notification(Note::Unknown { method: "shutdown".to_string() }))
    );
    assert_eq!(
        route(wire_notification("textDocument/hover", Some("{}"))),
        Routed::Ready(Incoming::Notification(Note::Unknown {
            method: "textDocument/hover".to_string()
        }))
    );
}

#[test]
fn responses_are_ready() {
    let message = Message::Response {
        id: RequestId::Text("r".to_string()),
        payload: Err(WireError { code: 1, message: "m".to_string(), data: None }),
    };
    assert_eq!(
        route(message),
        Routed::Ready(Incoming::Response { id: RequestId::Text("r".to_string()) })
    );
}

#[test]
fn from_bytes_to_the_session() {
    let frame = encode_frame(br#"{"jsonrpc":"2.0","id":0,"method":"initialize","params":{}}"#);
    assert_eq!(
        route(decode(&frame).unwrap()),
        Routed::Ready(Incoming::Request { id: RequestId::Number(0), call: Call::Initialize })
    );
}

#[test]
fn an_error_goes_out_with_the_code_of_its_kind() {
    for (kind, code, text) in [
        (ErrorKind::InvalidRequest, -32600, "Invalid request"),
        (ErrorKind::MethodNotFound, -32601, "Method not found"),
        (ErrorKind::InvalidParams, -32602, "Invalid params"),
        (ErrorKind::InternalError, -32603, "Internal error"),
        (ErrorKind::RequestCancelled, -32800, "Canceled"),
    ] {
        assert_eq!(kind.description(), text);
        assert_eq!(
            wire_error(RpcError { kind, reason: None }),
            WireError { code, message: text.to_string(), data: None }
        );
    }
}

#[test]
fn the_reason_of_an_error_is_its_message() {
    assert_eq!(
        wire_error(RpcError {
            kind: ErrorKind::InternalError,
            reason: Some("No such file or directory (os error 2)".to_string()),
        }),
        WireError {
            code: -32603,
            message: "No such file or directory (os error 2)".to_string(),
            data: None,
        }
    );
}
