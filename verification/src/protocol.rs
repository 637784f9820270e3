//! The vocabulary of the protocol: method names, request ids and the kinds
//! of error that a response can carry.

use crate::text::str_eq;
use vstd::prelude::*;

verus! {

/// The methods that the server knows.
#[derive(Clone, Copy, Debug, PartialEq, Eq, Structural)]
pub enum Method {
    Initialize,
    Initialized,
    Shutdown,
    Exit,
    DidOpen,
    DidChange,
    DidClose,
    Completion,
    Hover,
    Diagnostic,
    CancelRequest,
}

impl Method {
    /// The name of the method on the wire.
    pub open spec fn name(self) -> Seq<char> {
        match self {
            Method::Initialize => "initialize"@,
            Method::Initialized => "initialized"@,
            Method::Shutdown => "shutdown"@,
            Method::Exit => "exit"@,
            Method::DidOpen => "textDocument/didOpen"@,
            Method::DidChange => "textDocument/didChange"@,
            Method::DidClose => "textDocument/didClose"@,
            Method::Completion => "textDocument/completion"@,
            Method::Hover => "textDocument/hover"@,
            Method::Diagnostic => "textDocument/diagnostic"@,
            Method::CancelRequest => "$/cancelRequest"@,
        }
    }

    /// The method that `name` names, if the server knows it.
    pub open spec fn named(name: Seq<char>) -> Option<Method> {
        if name == "initialize"@ {
            Some(Method::Initialize)
        } else if name == "initialized"@ {
            Some(Method::Initialized)
        } else if name == "shutdown"@ {
            Some(Method::Shutdown)
        } else if name == "exit"@ {
            Some(Method::Exit)
        } else if name == "textDocument/didOpen"@ {
            Some(Method::DidOpen)
        } else if name == "textDocument/didChange"@ {
            Some(Method::DidChange)
        } else if name == "textDocument/didClose"@ {
            Some(Method::DidClose)
        } else if name == "textDocument/completion"@ {
            Some(Method::Completion)
        } else if name == "textDocument/hover"@ {
            Some(Method::Hover)
        } else if name == "textDocument/diagnostic"@ {
            Some(Method::Diagnostic)
        } else if name == "$/cancelRequest"@ {
            Some(Method::CancelRequest)
        } else {
            None
        }
    }

    /// Whether the method is called with an id and answered with a response.
    pub open spec fn expects_response(self) -> bool {
        match self {
            Method::Initialize
            | Method::Shutdown
            | Method::Completion
            | Method::Hover
            | Method::Diagnostic => true,
            _ => false,
        }
    }

    pub fn as_str(self) -> (s: &'static str)
        ensures
            s@ == self.name(),
    {
        match self {
            Method::Initialize => "initialize",
            Method::Initialized => "initialized",
            Method::Shutdown => "shutdown",
            Method::Exit => "exit",
            Method::DidOpen => "textDocument/didOpen",
            Method::DidChange => "textDocument/didChange",
            Method::DidClose => "textDocument/didClose",
            Method::Completion => "textDocument/completion",
            Method::Hover => "textDocument/hover",
            Method::Diagnostic => "textDocument/diagnostic",
            Method::CancelRequest => "$/cancelRequest",
        }
    }

    pub fn from_name(name: &str) -> (r: Option<Method>)
        ensures
            r == Method::named(name@),
    {
        if str_eq(name, "initialize") {
            Some(Method::Initialize)
        } else if str_eq(name, "initialized") {
            Some(Method::Initialized)
        } else if str_eq(name, "shutdown") {
            Some(Method::Shutdown)
        } else if str_eq(name, "exit") {
            Some(Method::Exit)
        } else if str_eq(name, "textDocument/didOpen") {
            Some(Method::DidOpen)
        } else if str_eq(name, "textDocument/didChange") {
            Some(Method::DidChange)
        } else if str_eq(name, "textDocument/didClose") {
            Some(Method::DidClose)
        } else if str_eq(name, "textDocument/completion") {
            Some(Method::Completion)
        } else if str_eq(name, "textDocument/hover") {
            Some(Method::Hover)
        } else if str_eq(name, "textDocument/diagnostic") {
            Some(Method::Diagnostic)
        } else if str_eq(name, "$/cancelRequest") {
            Some(Method::CancelRequest)
        } else {
            None
        }
    }

    pub fn is_request(self) -> (r: bool)
        ensures
            r == self.expects_response(),
    {
        match self {
            Method::Initialize
            | Method::Shutdown
            | Method::Completion
            | Method::Hover
            | Method::Diagnostic => true,
            _ => false,
        }
    }
}

/// Every method is the one that its own name names.
pub proof fn law_method_names_are_distinct(m: Method)
    ensures
        Method::named(m.name()) == Some(m),
{
    reveal_strlit("initialize");
    reveal_strlit("initialized");
    reveal_strlit("shutdown");
    reveal_strlit("exit");
    reveal_strlit("textDocument/didOpen");
    reveal_strlit("textDocument/didChange");
    reveal_strlit("textDocument/didClose");
    reveal_strlit("textDocument/completion");
    reveal_strlit("textDocument/hover");
    reveal_strlit("textDocument/diagnostic");
    reveal_strlit("$/cancelRequest");
    assert("initialize"@.len() == 10);
    assert("initialized"@.len() == 11);
    assert("shutdown"@.len() == 8);
    assert("exit"@.len() == 4);
    assert("textDocument/didOpen"@.len() == 20);
    assert("textDocument/didChange"@.len() == 22);
    assert("textDocument/didClose"@.len() == 21);
    assert("textDocument/completion"@.len() == 23);
    assert("textDocument/hover"@.len() == 18);
    assert("textDocument/diagnostic"@.len() == 23);
    assert("$/cancelRequest"@.len() == 15);
    assert("textDocument/completion"@[13] == 'c');
    assert("textDocument/diagnostic"@[13] == 'd');
}

/// The kinds of error that a response carries.
#[derive(Clone, Copy, Debug, PartialEq, Eq, Structural)]
pub enum ErrorKind {
    /// The request does not fit the phase of the session, or its id is in use.
    InvalidRequest,
    /// The server does not know the method.
    MethodNotFound,
    /// The parameters do not have the shape that the method asks for.
    InvalidParams,
    /// The handler failed.
    InternalError,
    /// The client cancelled the request.
    RequestCancelled,
}

impl ErrorKind {
    /// The number that stands for the kind on the wire.
    pub open spec fn wire_code(self) -> int {
        match self {
            ErrorKind::InvalidRequest => -32600,
            ErrorKind::MethodNotFound => -32601,
            ErrorKind::InvalidParams => -32602,
            ErrorKind::InternalError => -32603,
            ErrorKind::RequestCancelled => -32800,
        }
    }

    /// The kind that `code` stands for, if it stands for one.
    pub open spec fn of_wire_code(code: int) -> Option<ErrorKind> {
        if code == -32600 {
            Some(ErrorKind::InvalidRequest)
        } else if code == -32601 {
            Some(ErrorKind::MethodNotFound)
        } else if code == -32602 {
            Some(ErrorKind::InvalidParams)
        } else if code == -32603 {
            Some(ErrorKind::InternalError)
        } else if code == -32800 {
            Some(ErrorKind::RequestCancelled)
        } else {
            None
        }
    }

    /// A short text for the kind.
    pub open spec fn description_text(self) -> Seq<char> {
        match self {
            ErrorKind::InvalidRequest => "Invalid request"@,
            ErrorKind::MethodNotFound => "Method not found"@,
            ErrorKind::InvalidParams => "Invalid params"@,
            ErrorKind::InternalError => "Internal error"@,
            ErrorKind::RequestCancelled => "Canceled"@,
        }
    }

    pub fn description(self) -> (text: &'static str)
        ensures
            text@ == self.description_text(),
    {
        match self {
            ErrorKind::InvalidRequest => "Invalid request",
            ErrorKind::MethodNotFound => "Method not found",
            ErrorKind::InvalidParams => "Invalid params",
            ErrorKind::InternalError => "Internal error",
            ErrorKind::RequestCancelled => "Canceled",
        }
    }

    pub fn code(self) -> (c: i64)
        ensures
            c == self.wire_code(),
            ErrorKind::of_wire_code(c as int) == Some(self),
    {
        match self {
            ErrorKind::InvalidRequest => -32600,
            ErrorKind::MethodNotFound => -32601,
            ErrorKind::InvalidParams => -32602,
            ErrorKind::InternalError => -32603,
            ErrorKind::RequestCancelled => -32800,
        }
    }

    pub fn from_code(code: i64) -> (r: Option<ErrorKind>)
        ensures
            r == ErrorKind::of_wire_code(code as int),
    {
        if code == -32600 {
            Some(ErrorKind::InvalidRequest)
        } else if code == -32601 {
            Some(ErrorKind::MethodNotFound)
        } else if code == -32602 {
            Some(ErrorKind::InvalidParams)
        } else if code == -32603 {
            Some(ErrorKind::InternalError)
        } else if code == -32800 {
            Some(ErrorKind::RequestCancelled)
        } else {
            None
        }
    }
}

/// The id by which a response is matched to its request.
#[derive(Clone, Debug, PartialEq, Eq)]
pub enum RequestId {
    Number(i64),
    Text(String),
    Null,
}

pub enum RequestIdView {
    Number(i64),
    Text(Seq<char>),
    Null,
}

impl View for RequestId {
    type V = RequestIdView;

    open spec fn view(&self) -> RequestIdView {
        match self {
            RequestId::Number(n) => RequestIdView::Number(*n),
            RequestId::Text(s) => RequestIdView::Text(s@),
            RequestId::Null => RequestIdView::Null,
        }
    }
}

impl RequestId {
    /// Whether two ids are the same id.
    pub fn same(&self, other: &RequestId) -> (r: bool)
        ensures
            r == (self@ == other@),
    {
        match (self, other) {
            (RequestId::Number(a), RequestId::Number(b)) => *a == *b,
            (RequestId::Text(a), RequestId::Text(b)) => str_eq(a.as_str(), b.as_str()),
            (RequestId::Null, RequestId::Null) => true,
            _ => false,
        }
    }

    /// A copy of the id.
    pub fn duplicate(&self) -> (r: RequestId)
        ensures
            r@ == self@,
    {
        match self {
            RequestId::Number(n) => RequestId::Number(*n),
            RequestId::Text(s) => RequestId::Text(s.clone()),
            RequestId::Null => RequestId::Null,
        }
    }
}

} // verus!
