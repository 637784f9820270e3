//! From the wire to the session: which message of the wire is which
//! message of the client, as far as the name of its method tells.

use crate::codec::{Message, MessageView, WireError, WireErrorView};
use crate::message::{
    Call, CallView, Incoming, IncomingView, Note, NoteView, RpcError, RpcErrorView,
};
use crate::protocol::{Method, RequestId, RequestIdView};
use crate::text::text_view;
use vstd::prelude::*;

verus! {

/// A message of the wire, routed by its method.
#[derive(Debug, PartialEq, Eq)]
pub enum Routed {
    /// The message needs no parameters: it is ready for the session.
    Ready(Incoming),
    /// The method takes parameters, which are still to be read from their
    /// JSON text. The message is a request where it has an id.
    Typed { id: Option<RequestId>, method: Method, params: Option<String> },
}

pub enum RoutedView {
    Ready(IncomingView),
    Typed { id: Option<RequestIdView>, method: Method, params: Option<Seq<char>> },
}

impl View for Routed {
    type V = RoutedView;

    open spec fn view(&self) -> RoutedView {
        match self {
            Routed::Ready(incoming) => RoutedView::Ready(incoming@),
            Routed::Typed { id, method, params } => RoutedView::Typed {
                id: match id {
                    Some(id) => Some(id@),
                    None => None,
                },
                method: *method,
                params: text_view(*params),
            },
        }
    }
}

/// Where a request goes: to the session at once where its method takes no
/// parameters or is none that answers requests, and to the reading of its
/// parameters else.
pub open spec fn routed_request(
    id: RequestIdView,
    method: Seq<char>,
    params: Option<Seq<char>>,
) -> RoutedView {
    match Method::named(method) {
        Some(Method::Initialize) => RoutedView::Ready(
            IncomingView::Request { id, call: CallView::Initialize },
        ),
        Some(Method::Shutdown) => RoutedView::Ready(
            IncomingView::Request { id, call: CallView::Shutdown },
        ),
        Some(known) => if known.expects_response() {
            RoutedView::Typed { id: Some(id), method: known, params }
        } else {
            RoutedView::Ready(IncomingView::Request { id, call: CallView::Unknown { method } })
        },
        None => RoutedView::Ready(
            IncomingView::Request { id, call: CallView::Unknown { method } },
        ),
    }
}

/// Where a notification goes: to the session at once where its method
/// takes no parameters or is none that is notified, and to the reading of
/// its parameters else.
pub open spec fn routed_notification(method: Seq<char>, params: Option<Seq<char>>) -> RoutedView {
    match Method::named(method) {
        Some(Method::Initialized) => RoutedView::Ready(
            IncomingView::Notification(NoteView::Initialized),
        ),
        Some(Method::Exit) => RoutedView::Ready(IncomingView::Notification(NoteView::Exit)),
        Some(known) => if known.expects_response() {
            RoutedView::Ready(IncomingView::Notification(NoteView::Unknown { method }))
        } else {
            RoutedView::Typed { id: None, method: known, params }
        },
        None => RoutedView::Ready(IncomingView::Notification(NoteView::Unknown { method })),
    }
}

/// Where a message of the wire goes.
pub open spec fn routed(message: MessageView) -> RoutedView {
    match message {
        MessageView::Request { id, method, params } => routed_request(id, method, params),
        MessageView::Notification { method, params } => routed_notification(method, params),
        MessageView::Response { id, payload } => RoutedView::Ready(IncomingView::Response { id }),
    }
}

/// Routes a message of the wire by its method.
pub fn route(message: Message) -> (r: Routed)
    ensures
        r@ == routed(message@),
{
    match message {
        Message::Request { id, method, params } => match Method::from_name(method.as_str()) {
            Some(Method::Initialize) => Routed::Ready(
                Incoming::Request { id, call: Call::Initialize },
            ),
            Some(Method::Shutdown) => Routed::Ready(Incoming::Request { id, call: Call::Shutdown }),
            Some(known) => if known.is_request() {
                Routed::Typed { id: Some(id), method: known, params }
            } else {
                Routed::Ready(Incoming::Request { id, call: Call::Unknown { method } })
            },
            None => Routed::Ready(Incoming::Request { id, call: Call::Unknown { method } }),
        },
        Message::Notification { method, params } => match Method::from_name(method.as_str()) {
            Some(Method::Initialized) => Routed::Ready(Incoming::Notification(Note::Initialized)),
            Some(Method::Exit) => Routed::Ready(Incoming::Notification(Note::Exit)),
            Some(known) => if known.is_request() {
                Routed::Ready(Incoming::Notification(Note::Unknown { method }))
            } else {
                Routed::Typed { id: None, method: known, params }
            },
            None => Routed::Ready(Incoming::Notification(Note::Unknown { method })),
        },
        Message::Response { id, payload } => Routed::Ready(Incoming::Response { id }),
    }
}

/// The error of a failed response as it goes over the wire: the code of
/// its kind, and as its message the reason, or where there is none the
/// short text for the kind.
pub open spec fn wire_error_of(error: RpcErrorView) -> WireErrorView {
    WireErrorView {
        code: error.kind.wire_code() as i64,
        message: match error.reason {
            Some(reason) => reason,
            None => error.kind.description_text(),
        },
        data: None,
    }
}

/// Builds the error of a failed response as it goes over the wire.
pub fn wire_error(error: RpcError) -> (wire: WireError)
    ensures
        wire@ == wire_error_of(error@),
{
    let code: i64 = error.kind.code();
    let message: String = match error.reason {
        Some(reason) => reason,
        None => error.kind.description().to_owned(),
    };
    WireError { code, message, data: None }
}

} // verus!
