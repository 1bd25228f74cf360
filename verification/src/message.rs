//! Requests as the dispatcher reads them, and the responses and
//! notifications that the handlers produce.

use crate::endpoint::Endpoint;
use crate::text::bytes_of;
use vstd::prelude::*;
use vstd::utf8::*;

verus! {

/// The Observe value of a subscription request.
pub const OBSERVE_SUBSCRIBE: u32 = 0;

/// The Observe value of an unsubscription request; on a response it tells
/// the client that nothing more will follow.
pub const OBSERVE_TERMINAL: u32 = 1;

/// The Observe value on the response that accepts a subscription.
pub const OBSERVE_SUBSCRIBED: u32 = 10001;

/// The Observe value on a notification sent after a publish.
pub const OBSERVE_NOTIFICATION: u32 = 10002;

/// The request method.
#[derive(Clone, Copy, Debug, PartialEq, Eq, Structural)]
pub enum Method {
    Get,
    Post,
    Put,
    Delete,
    /// Any method the broker does not serve.
    Other,
}

/// What a request carries in its Observe option.
#[derive(Clone, Copy, Debug, PartialEq, Eq, Structural)]
pub enum Observe {
    /// The option is not there.
    Absent,
    /// The option holds this number.
    Value(u32),
    /// The option is there but holds no number.
    Malformed,
}

/// The response codes the broker answers with.
#[derive(Clone, Copy, Debug, PartialEq, Eq, Structural)]
pub enum Status {
    /// 2.01
    Created,
    /// 2.02
    Deleted,
    /// 2.04
    Changed,
    /// 2.05
    Content,
    /// 4.00
    BadRequest,
    /// 4.04
    NotFound,
    /// 5.03
    ServiceUnavailable,
}

impl Status {
    /// The class and detail of the code: 2.05 is `(2, 5)`.
    pub open spec fn spec_code(self) -> (u8, u8) {
        match self {
            Status::Created => (2, 1),
            Status::Deleted => (2, 2),
            Status::Changed => (2, 4),
            Status::Content => (2, 5),
            Status::BadRequest => (4, 0),
            Status::NotFound => (4, 4),
            Status::ServiceUnavailable => (5, 3),
        }
    }

    /// The class and detail of the code: 2.05 is `(2, 5)`.
    #[verifier::when_used_as_spec(spec_code)]
    pub fn code(self) -> (code: (u8, u8))
        ensures
            code == self.spec_code(),
    {
        match self {
            Status::Created => (2, 1),
            Status::Deleted => (2, 2),
            Status::Changed => (2, 4),
            Status::Content => (2, 5),
            Status::BadRequest => (4, 0),
            Status::NotFound => (4, 4),
            Status::ServiceUnavailable => (5, 3),
        }
    }
}

/// The content formats the broker labels its payloads with.
#[derive(Clone, Copy, Debug, PartialEq, Eq, Structural)]
pub enum ContentFormat {
    /// `application/link-format`, number 40.
    LinkFormat,
    /// `application/json`, number 50.
    Json,
    /// Number 110, used for what subscribers are sent.
    Notification,
}

impl ContentFormat {
    /// The registered number of the format.
    pub open spec fn spec_number(self) -> u16 {
        match self {
            ContentFormat::LinkFormat => 40,
            ContentFormat::Json => 50,
            ContentFormat::Notification => 110,
        }
    }

    /// The registered number of the format.
    #[verifier::when_used_as_spec(spec_number)]
    pub fn number(self) -> (number: u16)
        ensures
            number == self.spec_number(),
    {
        match self {
            ContentFormat::LinkFormat => 40,
            ContentFormat::Json => 50,
            ContentFormat::Notification => 110,
        }
    }
}

/// The model of a request.
pub struct RequestView {
    pub method: Method,
    pub path: Seq<char>,
    pub payload: Seq<u8>,
    pub source: Endpoint,
    pub observe: Observe,
}

/// One decoded request.
#[derive(Debug)]
pub struct Request {
    pub method: Method,
    /// The URI path, components joined by `/`.
    pub path: String,
    pub payload: Vec<u8>,
    /// The endpoint the request came from.
    pub source: Endpoint,
    pub observe: Observe,
}

impl View for Request {
    type V = RequestView;

    open spec fn view(&self) -> RequestView {
        RequestView {
            method: self.method,
            path: self.path@,
            payload: self.payload@,
            source: self.source,
            observe: self.observe,
        }
    }
}

/// The model of a response.
pub struct ResponseView {
    pub status: Status,
    pub payload: Seq<u8>,
    pub content_format: Option<ContentFormat>,
    pub observe: Option<u32>,
}

/// One response, or one notification's message.
#[derive(Debug)]
pub struct Response {
    pub status: Status,
    pub payload: Vec<u8>,
    pub content_format: Option<ContentFormat>,
    pub observe: Option<u32>,
}

impl View for Response {
    type V = ResponseView;

    open spec fn view(&self) -> ResponseView {
        ResponseView {
            status: self.status,
            payload: self.payload@,
            content_format: self.content_format,
            observe: self.observe,
        }
    }
}

/// The response with the given status and a text as its payload, without
/// content format or Observe value.
pub open spec fn plain_reply(status: Status, text: Seq<char>) -> ResponseView {
    ResponseView { status, payload: encode_utf8(text), content_format: None, observe: None }
}

/// The response with the given status, a text as its payload and the
/// Observe value that ends an observation.
pub open spec fn terminal_reply(status: Status, text: Seq<char>) -> ResponseView {
    ResponseView {
        status,
        payload: encode_utf8(text),
        content_format: None,
        observe: Some(OBSERVE_TERMINAL),
    }
}

/// What one subscriber is sent after a publish of `payload`.
pub open spec fn notification_message(payload: Seq<u8>) -> ResponseView {
    ResponseView {
        status: Status::Changed,
        payload,
        content_format: Some(ContentFormat::Notification),
        observe: Some(OBSERVE_NOTIFICATION),
    }
}

impl Response {
    /// A response with a short text as its payload.
    pub fn plain(status: Status, text: &str) -> (response: Response)
        ensures
            response@ == plain_reply(status, text@),
    {
        Response { status, payload: bytes_of(text), content_format: None, observe: None }
    }

    /// A response with a short text as its payload that ends an
    /// observation.
    pub fn terminal(status: Status, text: &str) -> (response: Response)
        ensures
            response@ == terminal_reply(status, text@),
    {
        Response {
            status,
            payload: bytes_of(text),
            content_format: None,
            observe: Some(OBSERVE_TERMINAL),
        }
    }
}

/// The model of a notification.
pub struct NotificationView {
    pub recipient: Endpoint,
    pub message: ResponseView,
}

/// A message for one subscriber, to be sent apart from the response.
#[derive(Debug)]
pub struct Notification {
    pub recipient: Endpoint,
    pub message: Response,
}

impl View for Notification {
    type V = NotificationView;

    open spec fn view(&self) -> NotificationView {
        NotificationView { recipient: self.recipient, message: self.message@ }
    }
}

/// The models of the given responses, in order.
pub open spec fn response_views(responses: Seq<Response>) -> Seq<ResponseView> {
    Seq::new(responses.len(), |i: int| responses[i]@)
}

/// The models of the given notifications, in order.
pub open spec fn notification_views(notifications: Seq<Notification>) -> Seq<NotificationView> {
    Seq::new(notifications.len(), |i: int| notifications[i]@)
}

/// The given payloads, in order.
pub open spec fn payload_views(payloads: Seq<Vec<u8>>) -> Seq<Seq<u8>> {
    Seq::new(payloads.len(), |i: int| payloads[i]@)
}

} // verus!
