//! Response validation, performed once before any body byte is read.
//!
//! A stream of events may only start on a response with status `200` whose
//! `content-type` header is exactly `text/event-stream`; anything else is a
//! validation error carrying what was observed.

use vstd::prelude::*;

use crate::bytes_eq;
use crate::copy_bytes;
use crate::error::EventSourceError;

verus! {

/// The HTTP status a response must report before streaming starts.
pub const STATUS_OK: u16 = 200;

/// The bytes of the `text/event-stream` MIME type.
pub open spec fn mime_event_stream() -> Seq<u8> {
    seq![
        116u8,
        101u8,
        120u8,
        116u8,
        47u8,
        101u8,
        118u8,
        101u8,
        110u8,
        116u8,
        45u8,
        115u8,
        116u8,
        114u8,
        101u8,
        97u8,
        109u8,
    ]
}

/// The bytes of the `text/event-stream` MIME type.
pub fn mime_event_stream_bytes() -> (r: Vec<u8>)
    ensures
        r@ == mime_event_stream(),
{
    let mut r: Vec<u8> = Vec::new();
    r.push(116);
    r.push(101);
    r.push(120);
    r.push(116);
    r.push(47);
    r.push(101);
    r.push(118);
    r.push(101);
    r.push(110);
    r.push(116);
    r.push(45);
    r.push(115);
    r.push(116);
    r.push(114);
    r.push(101);
    r.push(97);
    r.push(109);
    proof {
        assert(r@ =~= mime_event_stream());
    }
    r
}

/// Decides whether streaming may start: `Ok` exactly on status `200` with a
/// `content-type` of `text/event-stream`; a wrong status is reported first,
/// then a missing or mismatched `content-type`, each carrying the observed
/// value.
pub fn validate_response(status: u16, content_type: Option<&Vec<u8>>) -> (r: Result<
    (),
    EventSourceError,
>)
    ensures
        r is Ok <==> (status == STATUS_OK && (match content_type {
            Some(ct) => ct@ == mime_event_stream(),
            None => false,
        })),
        status != STATUS_OK ==> r == Err::<(), EventSourceError>(
            EventSourceError::BadStatus(status),
        ),
        status == STATUS_OK && content_type is None ==> r == Err::<(), EventSourceError>(
            EventSourceError::BadContentType(None),
        ),
        match content_type {
            Some(ct) => status == STATUS_OK && ct@ != mime_event_stream() ==> (r matches Err(
                EventSourceError::BadContentType(Some(v)),
            ) && v@ == ct@),
            None => true,
        },
{
    if status != STATUS_OK {
        return Err(EventSourceError::BadStatus(status));
    }
    match content_type {
        None => Err(EventSourceError::BadContentType(None)),
        Some(ct) => {
            if bytes_eq(ct, &mime_event_stream_bytes()) {
                Ok(())
            } else {
                Err(EventSourceError::BadContentType(Some(copy_bytes(ct))))
            }
        },
    }
}

} // verus!
