//! The HTTP responses the service can give.

use vstd::prelude::*;
use crate::devices::DeviceInfo;

verus! {

/// Which long-lived subscription a streaming endpoint opens.
#[derive(PartialEq, Eq, Structural, Clone, Copy, Debug)]
pub enum StreamKind {
    /// Newly discovered devices, one JSON record per line.
    Discover,
    /// Adapter-level change events, one JSON record per line.
    Events,
}

/// What a response carries: plain text, one of the two JSON payloads,
/// or the start of a newline-delimited JSON stream.
#[derive(Debug)]
pub enum ResponseBody {
    Text(String),
    AdapterNames(Vec<String>),
    DeviceList(Vec<DeviceInfo>),
    Stream(StreamKind),
}

/// A finished HTTP response: a status code and its body.
#[derive(Debug)]
pub struct HttpResponse {
    pub status: u16,
    pub body: ResponseBody,
}

/// The response is the fixed acknowledgment: status 200, body `ok`.
pub open spec fn is_ok_ack(r: HttpResponse) -> bool {
    &&& r.status == 200
    &&& r.body matches ResponseBody::Text(t) && t@ == "ok"@
}

/// The response is the fixed not-found reply: status 404, body
/// `not found`.
pub open spec fn is_not_found(r: HttpResponse) -> bool {
    &&& r.status == 404
    &&& r.body matches ResponseBody::Text(t) && t@ == "not found"@
}

/// The response reports an internal failure: status 500, with the
/// failure's message as the body.
pub open spec fn is_failure(r: HttpResponse, message: Seq<char>) -> bool {
    &&& r.status == 500
    &&& r.body matches ResponseBody::Text(t) && t@ == message
}

/// The response opens the given stream: status 200, with a
/// newline-delimited JSON stream body.
pub open spec fn is_stream(r: HttpResponse, kind: StreamKind) -> bool {
    &&& r.status == 200
    &&& r.body matches ResponseBody::Stream(k) && k == kind
}

} // verus!
