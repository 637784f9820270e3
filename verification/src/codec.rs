//! The message codec: bytes of one frame to a tagged message and back. The
//! codec looks at the envelope only; method names and the shape of
//! parameters are not its business.

use crate::frame::{
    decode_frame, encode_frame, frame_body, frame_of, law_frame_round_trip, DecodeError,
};
use crate::text::text_view;
use crate::protocol::{RequestId, RequestIdView};
use tower_lsp::jsonrpc::{Error, Id, Request, Response};
use vstd::prelude::*;
use vstd::utf8::{decode_utf8, encode_utf8, valid_utf8};

verus! {

/// The error that a failed response carries on the wire.
#[derive(Clone, Debug, PartialEq, Eq)]
pub struct WireError {
    pub code: i64,
    pub message: String,
    /// More about the error, as JSON text.
    pub data: Option<String>,
}

pub struct WireErrorView {
    pub code: i64,
    pub message: Seq<char>,
    pub data: Option<Seq<char>>,
}

impl View for WireError {
    type V = WireErrorView;

    open spec fn view(&self) -> WireErrorView {
        WireErrorView { code: self.code, message: self.message@, data: text_view(self.data) }
    }
}

/// The characters of what a response carries: its result as JSON text, or
/// its error.
pub open spec fn payload_view(payload: Result<String, WireError>) -> Result<
    Seq<char>,
    WireErrorView,
> {
    match payload {
        Ok(text) => Ok(text@),
        Err(error) => Err(error@),
    }
}

/// A message as it stands on the wire, tagged by its kind. Parameters and
/// results are JSON text that the codec hands on as it is.
#[derive(Debug, PartialEq, Eq)]
pub enum Message {
    Request { id: RequestId, method: String, params: Option<String> },
    Notification { method: String, params: Option<String> },
    Response { id: RequestId, payload: Result<String, WireError> },
}

pub enum MessageView {
    Request { id: RequestIdView, method: Seq<char>, params: Option<Seq<char>> },
    Notification { method: Seq<char>, params: Option<Seq<char>> },
    Response { id: RequestIdView, payload: Result<Seq<char>, WireErrorView> },
}

impl View for Message {
    type V = MessageView;

    open spec fn view(&self) -> MessageView {
        match self {
            Message::Request { id, method, params } => MessageView::Request {
                id: id@,
                method: method@,
                params: text_view(*params),
            },
            Message::Notification { method, params } => MessageView::Notification {
                method: method@,
                params: text_view(*params),
            },
            Message::Response { id, payload } => MessageView::Response {
                id: id@,
                payload: payload_view(*payload),
            },
        }
    }
}

/// The envelope of a request or a notification.
#[derive(Clone, Debug, PartialEq, Eq)]
pub struct Envelope {
    pub method: String,
    pub id: Option<RequestId>,
    pub params: Option<String>,
}

pub struct EnvelopeView {
    pub method: Seq<char>,
    pub id: Option<RequestIdView>,
    pub params: Option<Seq<char>>,
}

impl View for Envelope {
    type V = EnvelopeView;

    open spec fn view(&self) -> EnvelopeView {
        EnvelopeView {
            method: self.method@,
            id: match self.id {
                Some(id) => Some(id@),
                None => None,
            },
            params: text_view(self.params),
        }
    }
}

/// The envelope of a response.
#[derive(Debug, PartialEq, Eq)]
pub struct Answer {
    pub id: RequestId,
    pub payload: Result<String, WireError>,
}

pub struct AnswerView {
    pub id: RequestIdView,
    pub payload: Result<Seq<char>, WireErrorView>,
}

impl View for Answer {
    type V = AnswerView;

    open spec fn view(&self) -> AnswerView {
        AnswerView { id: self.id@, payload: payload_view(self.payload) }
    }
}

pub open spec fn envelope_view(envelope: Option<Envelope>) -> Option<EnvelopeView> {
    match envelope {
        Some(e) => Some(e@),
        None => None,
    }
}

pub open spec fn answer_view(answer: Option<Answer>) -> Option<AnswerView> {
    match answer {
        Some(a) => Some(a@),
        None => None,
    }
}

pub open spec fn decoding_view(r: Result<Message, DecodeError>) -> Result<
    MessageView,
    DecodeError,
> {
    match r {
        Ok(message) => Ok(message@),
        Err(e) => Err(e),
    }
}

pub open spec fn bytes_view(bytes: Option<Vec<u8>>) -> Option<Seq<u8>> {
    match bytes {
        Some(b) => Some(b@),
        None => None,
    }
}

/// The envelope that `text` holds when it is read as a request or a
/// notification; `None` where `text` is no such message.
pub uninterp spec fn parsed_request(text: Seq<char>) -> Option<EnvelopeView>;

/// The envelope that `text` holds when it is read as a response; `None`
/// where `text` is no response.
pub uninterp spec fn parsed_response(text: Seq<char>) -> Option<AnswerView>;

/// The JSON text of the request or notification with this envelope; `None`
/// where `params` is no JSON text.
pub uninterp spec fn rendered_request(
    method: Seq<char>,
    id: Option<RequestIdView>,
    params: Option<Seq<char>>,
) -> Option<Seq<char>>;

/// The JSON text of the response with this envelope; `None` where the
/// result, or the data of the error, is no JSON text.
pub uninterp spec fn rendered_response(
    id: RequestIdView,
    payload: Result<Seq<char>, WireErrorView>,
) -> Option<Seq<char>>;

/// The message that the two readings of a content give: a response where
/// it reads as one; else a request where it has an id, and a notification
/// where it has none; and no message where it reads as neither.
pub open spec fn tagged(answer: Option<AnswerView>, envelope: Option<EnvelopeView>) -> Result<
    MessageView,
    DecodeError,
> {
    match answer {
        Some(a) => Ok(MessageView::Response { id: a.id, payload: a.payload }),
        None => match envelope {
            Some(e) => match e.id {
                Some(id) => Ok(MessageView::Request { id, method: e.method, params: e.params }),
                None => Ok(MessageView::Notification { method: e.method, params: e.params }),
            },
            None => Err(DecodeError::InvalidJson),
        },
    }
}

/// The message that the frame `frame` carries.
pub open spec fn decoded(frame: Seq<u8>) -> Result<MessageView, DecodeError> {
    match frame_body(frame) {
        Some(body) => if valid_utf8(body) {
            tagged(parsed_response(decode_utf8(body)), parsed_request(decode_utf8(body)))
        } else {
            Err(DecodeError::InvalidJson)
        },
        None => Err(DecodeError::MalformedFrame),
    }
}

/// The JSON text of `message`.
pub open spec fn rendered(message: MessageView) -> Option<Seq<char>> {
    match message {
        MessageView::Request { id, method, params } => rendered_request(method, Some(id), params),
        MessageView::Notification { method, params } => rendered_request(method, None, params),
        MessageView::Response { id, payload } => rendered_response(id, payload),
    }
}

/// The frame that carries `text`.
pub open spec fn framed(text: Option<Seq<char>>) -> Option<Seq<u8>> {
    match text {
        Some(t) => Some(frame_of(encode_utf8(t))),
        None => None,
    }
}

/// Decoding the frame of a text reads that very text.
pub proof fn law_decode_reads_what_encode_wrote(text: Seq<char>)
    requires
        encode_utf8(text).len() <= usize::MAX,
    ensures
        decoded(frame_of(encode_utf8(text))) == tagged(
            parsed_response(text),
            parsed_request(text),
        ),
{
    broadcast use vstd::utf8::encode_utf8_decode_utf8, vstd::utf8::encode_utf8_valid_utf8;

    law_frame_round_trip(encode_utf8(text));
    assert(decode_utf8(encode_utf8(text)) == text);
    assert(valid_utf8(encode_utf8(text)));
}

/// Checks with `std::str::from_utf8` that `bytes` are UTF-8 and hands them
/// on as text: the text has exactly these bytes, and there is none where
/// they are not UTF-8.
#[verifier::external_body]
fn utf8_text(bytes: &[u8]) -> (text: Option<&str>)
    ensures
        match text {
            Some(t) => valid_utf8(bytes@) && encode_utf8(t@) == bytes@,
            None => !valid_utf8(bytes@),
        },
{
    std::str::from_utf8(bytes).ok()
}

/// Reads `text` as `tower_lsp::jsonrpc::Request`, through its `FromStr`,
/// and takes it apart with `Request::into_parts`; the parameters are handed
/// on as the JSON text that `to_string` makes of them. The result is a
/// function of `text` alone.
#[verifier::external_body]
fn parse_request(text: &str) -> (envelope: Option<Envelope>)
    ensures
        envelope_view(envelope) == parsed_request(text@),
{
    let (method, id, params) = text.parse::<Request>().ok()?.into_parts();
    let id = match id {
        Some(Id::Number(n)) => Some(RequestId::Number(n)),
        Some(Id::String(s)) => Some(RequestId::Text(s)),
        Some(Id::Null) => Some(RequestId::Null),
        None => None,
    };
    Some(Envelope { method: method.into_owned(), id, params: params.map(|p| p.to_string()) })
}

/// Reads `text` as `tower_lsp::jsonrpc::Response`, through its `FromStr`,
/// and takes it apart with `Response::into_parts`; the result and the data
/// of an error are handed on as the JSON text that `to_string` makes of
/// them, the code of an error as the number that `ErrorCode::code` gives.
/// The result is a function of `text` alone.
#[verifier::external_body]
fn parse_response(text: &str) -> (answer: Option<Answer>)
    ensures
        answer_view(answer) == parsed_response(text@),
{
    let (id, body) = text.parse::<Response>().ok()?.into_parts();
    let id = match id {
        Id::Number(n) => RequestId::Number(n),
        Id::String(s) => RequestId::Text(s),
        Id::Null => RequestId::Null,
    };
    let payload = match body {
        Ok(value) => Ok(value.to_string()),
        Err(e) => {
            let data = e.data.map(|d| d.to_string());
            Err(WireError { code: e.code.code(), message: e.message.into_owned(), data })
        },
    };
    Some(Answer { id, payload })
}

/// Builds a `tower_lsp::jsonrpc::Request` with `Request::build` and writes
/// it as JSON text with its `to_string`; `params` is read as JSON with
/// `serde_json::from_str`, and there is no text where it is none. The
/// result is a function of the arguments alone.
#[verifier::external_body]
fn render_request(method: &str, id: Option<&RequestId>, params: Option<&str>) -> (text: Option<
    String,
>)
    ensures
        text_view(text) == rendered_request(
            method@,
            match id {
                Some(id) => Some(id@),
                None => None,
            },
            match params {
                Some(p) => Some(p@),
                None => None,
            },
        ),
{
    let id = match id {
        Some(RequestId::Number(n)) => Some(Id::Number(*n)),
        Some(RequestId::Text(s)) => Some(Id::String(s.clone())),
        Some(RequestId::Null) => Some(Id::Null),
        None => None,
    };
    let params = params.map(serde_json::from_str::<serde_json::Value>).transpose().ok()?;
    let mut builder = Request::build(method.to_string());
    if let Some(p) = params { builder = builder.params(p); }
    if let Some(i) = id { builder = builder.id(i); }
    Some(builder.finish().to_string())
}

/// Builds a `tower_lsp::jsonrpc::Response` with `Response::from_parts` and
/// writes it as JSON text with `serde_json::to_string`; the result, or the
/// data of the error, is read as JSON with `serde_json::from_str`, and
/// there is no text where it is none. The result is a function of the
/// arguments alone.
#[verifier::external_body]
fn render_response(id: &RequestId, payload: &Result<String, WireError>) -> (text: Option<String>)
    ensures
        text_view(text) == rendered_response(id@, payload_view(*payload)),
{
    let id = match id {
        RequestId::Number(n) => Id::Number(*n),
        RequestId::Text(s) => Id::String(s.clone()),
        RequestId::Null => Id::Null,
    };
    let read = serde_json::from_str::<serde_json::Value>;
    let body = match payload {
        Ok(text) => Ok(read(text).ok()?),
        Err(e) => {
            let data = e.data.as_deref().map(read).transpose().ok()?;
            Err(Error { code: e.code.into(), message: e.message.clone().into(), data })
        },
    };
    serde_json::to_string(&Response::from_parts(id, body)).ok()
}

/// Tags the two readings of a content as one message.
pub fn message_of(answer: Option<Answer>, envelope: Option<Envelope>) -> (r: Result<
    Message,
    DecodeError,
>)
    ensures
        decoding_view(r) == tagged(answer_view(answer), envelope_view(envelope)),
{
    match answer {
        Some(a) => Ok(Message::Response { id: a.id, payload: a.payload }),
        None => match envelope {
            Some(e) => match e.id {
                Some(id) => Ok(Message::Request { id, method: e.method, params: e.params }),
                None => Ok(Message::Notification { method: e.method, params: e.params }),
            },
            None => Err(DecodeError::InvalidJson),
        },
    }
}

/// Decodes one frame.
pub fn decode(frame: &[u8]) -> (r: Result<Message, DecodeError>)
    ensures
        decoding_view(r) == decoded(frame@),
{
    broadcast use vstd::utf8::encode_utf8_decode_utf8;

    let body: &[u8] = match decode_frame(frame) {
        Ok(body) => body,
        Err(_) => {
            return Err(DecodeError::MalformedFrame);
        },
    };
    let text: &str = match utf8_text(body) {
        Some(text) => text,
        None => {
            return Err(DecodeError::InvalidJson);
        },
    };
    assert(decode_utf8(body@) == text@);
    let answer: Option<Answer> = parse_response(text);
    let envelope: Option<Envelope> = if answer.is_none() {
        parse_request(text)
    } else {
        None
    };
    message_of(answer, envelope)
}

/// Puts a text into its frame; nothing comes of no text.
pub fn frame_text(text: Option<String>) -> (r: Option<Vec<u8>>)
    ensures
        bytes_view(r) == framed(text_view(text)),
{
    match text {
        Some(t) => Some(encode_frame(t.as_str().as_bytes())),
        None => None,
    }
}

/// Encodes one message as a frame. There is none where a part of the
/// message that is to be JSON text is not.
pub fn encode(message: &Message) -> (r: Option<Vec<u8>>)
    ensures
        bytes_view(r) == framed(rendered(message@)),
{
    let text: Option<String> = match message {
        Message::Request { id, method, params } => render_request(
            method.as_str(),
            Some(id),
            match params {
                Some(p) => Some(p.as_str()),
                None => None,
            },
        ),
        Message::Notification { method, params } => render_request(
            method.as_str(),
            None,
            match params {
                Some(p) => Some(p.as_str()),
                None => None,
            },
        ),
        Message::Response { id, payload } => render_response(id, payload),
    };
    frame_text(text)
}

} // verus!
