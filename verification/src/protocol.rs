//! The messages of the external-processing protocol, as far as the
//! collector reads and writes them.

use vstd::prelude::*;

verus! {

/// One header as the gateway sends it: its name and the raw bytes of its
/// value.
#[derive(Debug)]
pub struct HeaderValue {
    pub key: String,
    pub raw_value: Vec<u8>,
}

/// A list of headers in the order of the wire.
#[derive(Debug)]
pub struct HeaderMap {
    pub headers: Vec<HeaderValue>,
}

/// A request-headers or response-headers message.
#[derive(Debug)]
pub struct HttpHeaders {
    pub headers: Option<HeaderMap>,
}

/// A header as a value: its name and the bytes of its value.
pub type RawHeader = (Seq<char>, Seq<u8>);

/// The headers of a list, in order.
pub open spec fn raw_list(headers: Seq<HeaderValue>) -> Seq<RawHeader> {
    Seq::new(headers.len(), |i: int| (headers[i].key@, headers[i].raw_value@))
}

/// The headers that an optional list carries; none where it is absent.
pub open spec fn raw_of(headers: Option<HeaderMap>) -> Seq<RawHeader> {
    match headers {
        Some(map) => raw_list(map.headers@),
        None => Seq::empty(),
    }
}

impl View for HttpHeaders {
    type V = Seq<RawHeader>;

    open spec fn view(&self) -> Seq<RawHeader> {
        raw_of(self.headers)
    }
}

/// One inbound message of a stream.
#[derive(Debug)]
pub enum StreamMessage {
    RequestHeaders(HttpHeaders),
    ResponseHeaders(HttpHeaders),
    /// A message of any other kind: bodies, trailers, or one without
    /// content.
    Other,
}

/// What a message holds, as a value.
pub enum MessageView {
    RequestHeaders(Seq<RawHeader>),
    ResponseHeaders(Seq<RawHeader>),
    Other,
}

impl View for StreamMessage {
    type V = MessageView;

    open spec fn view(&self) -> MessageView {
        match self {
            StreamMessage::RequestHeaders(h) => MessageView::RequestHeaders(h@),
            StreamMessage::ResponseHeaders(h) => MessageView::ResponseHeaders(h@),
            StreamMessage::Other => MessageView::Other,
        }
    }
}

/// The phase of the exchange that a reply is addressed to.
#[derive(Debug, Clone, Copy, PartialEq, Eq)]
pub enum ReplyPhase {
    RequestHeaders,
    ResponseHeaders,
    RequestBody,
    ResponseBody,
    RequestTrailers,
    ResponseTrailers,
}

/// The reply to one inbound message.
#[derive(Debug, Clone, Copy, PartialEq, Eq)]
pub struct ProcessingResponse {
    pub phase: ReplyPhase,
    /// Whether the reply asks the gateway to change headers or body.
    pub mutates: bool,
}

} // verus!
