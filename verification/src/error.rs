//! Error types of the library.
//!
//! Validation errors end a stream before it starts; transport errors surface
//! as one failed item while events are being read. Malformed SSE fields are
//! never errors: the wire format ignores them by design.

use vstd::prelude::*;

verus! {

/// An error raised while reading events from an open stream.
#[derive(Debug, PartialEq, Eq)]
pub enum EventError {
    /// The underlying byte source failed to deliver or decode a chunk; the
    /// payload is a description of the failure.
    IoError(String),
}

/// An error raised while validating the response, before any body byte is
/// read.
#[derive(Debug, PartialEq, Eq)]
pub enum EventSourceError {
    /// The response status was not `200`; carries the observed status code.
    BadStatus(u16),
    /// The `content-type` header was missing or not `text/event-stream`;
    /// carries the observed header value, if any, as raw bytes.
    BadContentType(Option<Vec<u8>>),
}

} // verus!
