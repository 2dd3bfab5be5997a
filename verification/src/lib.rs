//! A verified core for consuming Server-Sent Events (SSE).
//!
//! The library turns the body of an HTTP response — an incrementally
//! delivered sequence of byte chunks — into discrete [`Event`] records. It is
//! organised as three pure, verified pieces that a thin asynchronous shell
//! drives:
//!
//! - [`lines::LineReader`] splits byte chunks into newline-delimited lines,
//!   reconstructing lines that span chunks;
//! - [`EventBuffer`] is the state machine that consumes one line at a time
//!   and emits an [`Event`] at each dispatch boundary (blank line);
//! - [`validate::validate_response`] decides, from the response's status and
//!   `content-type`, whether streaming may start at all.
//!
//! All text is handled as UTF-8 bytes; decoding to `String`, like every other
//! I/O concern, belongs to the caller.

pub mod error;
pub mod laws;
pub mod lines;
pub mod parse;
pub mod validate;

pub use parse::parse_line;

use vstd::prelude::*;

verus! {

/// The byte `\n`, the only line delimiter of the wire format.
pub const NEWLINE: u8 = 10;

/// The bytes of the field name `event`.
pub open spec fn field_event() -> Seq<u8> {
    seq![101u8, 118u8, 101u8, 110u8, 116u8]
}

/// The bytes of the field name `data`.
pub open spec fn field_data() -> Seq<u8> {
    seq![100u8, 97u8, 116u8, 97u8]
}

/// The bytes of the field name `id`.
pub open spec fn field_id() -> Seq<u8> {
    seq![105u8, 100u8]
}

/// The bytes of the field name `retry`.
pub open spec fn field_retry() -> Seq<u8> {
    seq![114u8, 101u8, 116u8, 114u8, 121u8]
}

/// The bytes of `message`, the default event type.
pub open spec fn default_event_type() -> Seq<u8> {
    seq![109u8, 101u8, 115u8, 115u8, 97u8, 103u8, 101u8]
}

/// The mathematical value of an [`Event`]: each byte buffer as a sequence.
pub ghost struct EventModel {
    pub event_type: Seq<u8>,
    pub data: Seq<u8>,
    pub last_event_id: Option<Seq<u8>>,
    pub retry: Option<u64>,
}

/// A Server-Sent Event, fully assembled.
///
/// Textual fields are UTF-8 bytes, exactly as they appeared on the wire.
#[derive(Debug, Clone, PartialEq, Eq)]
pub struct Event {
    /// The type of the event; `message` when the wire never set one.
    pub event_type: Vec<u8>,
    /// All `data:` lines of the event, joined with `\n` in arrival order.
    pub data: Vec<u8>,
    /// The value of the last `id:` field seen on the stream, if any.
    pub last_event_id: Option<Vec<u8>>,
    /// The value of the last parsable `retry:` field seen on the stream, in
    /// milliseconds, if any.
    pub retry: Option<u64>,
}

impl View for Event {
    type V = EventModel;

    open spec fn view(&self) -> EventModel {
        EventModel {
            event_type: self.event_type@,
            data: self.data@,
            last_event_id: match self.last_event_id {
                None => None,
                Some(v) => Some(v@),
            },
            retry: self.retry,
        }
    }
}

/// The mathematical value of an [`EventBuffer`].
pub ghost struct BufferModel {
    pub event_type: Seq<u8>,
    pub data: Seq<u8>,
    pub last_event_id: Option<Seq<u8>>,
    pub retry: Option<u64>,
}

impl BufferModel {
    /// The state at stream start: both buffers empty, nothing remembered.
    pub open spec fn init() -> BufferModel {
        BufferModel { event_type: Seq::empty(), data: Seq::empty(), last_event_id: None, retry: None }
    }
}

/// `data` buffer contents after one more `data:` line with value `value`:
/// appended after a `\n` separator when the buffer already has content.
pub open spec fn joined_data(data: Seq<u8>, value: Seq<u8>) -> Seq<u8> {
    if data.len() == 0 {
        value
    } else {
        data + seq![NEWLINE] + value
    }
}

/// State after a recognized field line updated the buffer.
pub open spec fn spec_apply_field(s: BufferModel, field: Seq<u8>, value: Seq<u8>) -> BufferModel {
    if field == field_event() {
        BufferModel { event_type: value, ..s }
    } else if field == field_data() {
        BufferModel { data: joined_data(s.data, value), ..s }
    } else if field == field_id() {
        BufferModel { last_event_id: Some(value), ..s }
    } else if field == field_retry() {
        match parse::spec_parse_retry(value) {
            Some(ms) => BufferModel { retry: Some(ms), ..s },
            None => s,
        }
    } else {
        s
    }
}

/// Dispatch at a blank line: an event is produced exactly when the `data`
/// buffer is non-empty; either way `event_type` and `data` are cleared while
/// `last_event_id` and `retry` persist.
pub open spec fn spec_dispatch(s: BufferModel) -> (BufferModel, Option<EventModel>) {
    let produced = if s.data.len() > 0 {
        Some(
            EventModel {
                event_type: if s.event_type.len() == 0 {
                    default_event_type()
                } else {
                    s.event_type
                },
                data: s.data,
                last_event_id: s.last_event_id,
                retry: s.retry,
            },
        )
    } else {
        None
    };
    (BufferModel { event_type: Seq::empty(), data: Seq::empty(), ..s }, produced)
}

/// The transition of the assembler on one line: a blank line dispatches,
/// any other line is split into field and value and applied to the state.
/// No line but a dispatching blank one ever yields an event.
pub open spec fn spec_step(s: BufferModel, line: Seq<u8>) -> (BufferModel, Option<EventModel>) {
    if line.len() == 0 {
        spec_dispatch(s)
    } else {
        (spec_apply_field(s, parse::spec_field(line), parse::spec_value(line)), None)
    }
}

/// The model of an optional event.
pub open spec fn opt_event_model(r: Option<Event>) -> Option<EventModel> {
    match r {
        None => None,
        Some(e) => Some(e@),
    }
}

/// Copies the bytes of `v` into a fresh vector.
pub(crate) fn copy_bytes(v: &Vec<u8>) -> (r: Vec<u8>)
    ensures
        r@ == v@,
{
    let mut r: Vec<u8> = Vec::new();
    let mut i: usize = 0;
    while i < v.len()
        invariant
            i <= v@.len(),
            r@ == v@.subrange(0, i as int),
        decreases v@.len() - i,
    {
        r.push(v[i]);
        proof {
            assert(v@.subrange(0, i + 1) =~= v@.subrange(0, i as int).push(v@[i as int]));
        }
        i += 1;
    }
    proof {
        assert(r@ =~= v@);
    }
    r
}

/// Whether two byte vectors hold the same bytes.
pub(crate) fn bytes_eq(a: &Vec<u8>, b: &Vec<u8>) -> (r: bool)
    ensures
        r == (a@ == b@),
{
    if a.len() != b.len() {
        return false;
    }
    let mut i: usize = 0;
    while i < a.len()
        invariant
            i <= a@.len(),
            a@.len() == b@.len(),
            forall|j: int| 0 <= j < i ==> a@[j] == b@[j],
        decreases a@.len() - i,
    {
        if a[i] != b[i] {
            return false;
        }
        i += 1;
    }
    proof {
        assert(a@ =~= b@);
    }
    true
}

/// The bytes of the field name `event`.
fn field_event_bytes() -> (r: Vec<u8>)
    ensures
        r@ == field_event(),
{
    let mut r: Vec<u8> = Vec::new();
    r.push(101);
    r.push(118);
    r.push(101);
    r.push(110);
    r.push(116);
    proof {
        assert(r@ =~= field_event());
    }
    r
}

/// The bytes of the field name `data`.
fn field_data_bytes() -> (r: Vec<u8>)
    ensures
        r@ == field_data(),
{
    let mut r: Vec<u8> = Vec::new();
    r.push(100);
    r.push(97);
    r.push(116);
    r.push(97);
    proof {
        assert(r@ =~= field_data());
    }
    r
}

/// The bytes of the field name `id`.
fn field_id_bytes() -> (r: Vec<u8>)
    ensures
        r@ == field_id(),
{
    let mut r: Vec<u8> = Vec::new();
    r.push(105);
    r.push(100);
    proof {
        assert(r@ =~= field_id());
    }
    r
}

/// The bytes of the field name `retry`.
fn field_retry_bytes() -> (r: Vec<u8>)
    ensures
        r@ == field_retry(),
{
    let mut r: Vec<u8> = Vec::new();
    r.push(114);
    r.push(101);
    r.push(116);
    r.push(114);
    r.push(121);
    proof {
        assert(r@ =~= field_retry());
    }
    r
}

/// The bytes of `message`, the default event type.
fn default_event_type_bytes() -> (r: Vec<u8>)
    ensures
        r@ == default_event_type(),
{
    let mut r: Vec<u8> = Vec::new();
    r.push(109);
    r.push(101);
    r.push(115);
    r.push(115);
    r.push(97);
    r.push(103);
    r.push(101);
    proof {
        assert(r@ =~= default_event_type());
    }
    r
}

/// The accumulator of the in-progress event, owned by whatever drives the
/// line-by-line loop for the lifetime of one stream.
///
/// `event_type` and `data` are per-event buffers, cleared at every dispatch
/// boundary; `last_event_id` and `retry` persist across events until
/// overwritten, the SSE last-event-ID semantics.
pub struct EventBuffer {
    event_type: Vec<u8>,
    data: Vec<u8>,
    last_event_id: Option<Vec<u8>>,
    retry: Option<u64>,
}

impl View for EventBuffer {
    type V = BufferModel;

    closed spec fn view(&self) -> BufferModel {
        BufferModel {
            event_type: self.event_type@,
            data: self.data@,
            last_event_id: match self.last_event_id {
                None => None,
                Some(v) => Some(v@),
            },
            retry: self.retry,
        }
    }
}

impl EventBuffer {
    /// Creates a fresh buffer in the stream-start state.
    pub fn new() -> (r: Self)
        ensures
            r@ == BufferModel::init(),
    {
        let r = EventBuffer { event_type: Vec::new(), data: Vec::new(), last_event_id: None, retry: None };
        proof {
            assert(r@.event_type =~= BufferModel::init().event_type);
            assert(r@.data =~= BufferModel::init().data);
        }
        r
    }

    /// Produces an [`Event`] if the accumulated `data` is non-empty, and
    /// resets the per-event buffers either way; `last_event_id` and `retry`
    /// persist.
    pub fn produce_event(&mut self) -> (r: Option<Event>)
        ensures
            final(self)@ == spec_dispatch(old(self)@).0,
            opt_event_model(r) == spec_dispatch(old(self)@).1,
    {
        let r = if self.data.len() > 0 {
            let event_type = if self.event_type.len() == 0 {
                default_event_type_bytes()
            } else {
                copy_bytes(&self.event_type)
            };
            let last_event_id = match &self.last_event_id {
                None => None,
                Some(v) => Some(copy_bytes(v)),
            };
            Some(
                Event {
                    event_type,
                    data: copy_bytes(&self.data),
                    last_event_id,
                    retry: self.retry,
                },
            )
        } else {
            None
        };
        self.event_type = Vec::new();
        self.data = Vec::new();
        proof {
            assert(self@.event_type =~= spec_dispatch(old(self)@).0.event_type);
            assert(self@.data =~= spec_dispatch(old(self)@).0.data);
        }
        r
    }

    /// Replaces the event type buffer with `event_type`.
    pub fn set_event_type(&mut self, event_type: Vec<u8>)
        ensures
            final(self)@ == (BufferModel { event_type: event_type@, ..old(self)@ }),
    {
        self.event_type = event_type;
    }

    /// Appends one `data:` line's value to the data buffer, after a `\n`
    /// separator when the buffer already has content.
    pub fn push_data(&mut self, data: &Vec<u8>)
        ensures
            final(self)@ == (BufferModel {
                data: joined_data(old(self)@.data, data@),
                ..old(self)@
            }),
    {
        let ghost base = if old(self)@.data.len() == 0 {
            old(self)@.data
        } else {
            old(self)@.data + seq![NEWLINE]
        };
        if self.data.len() > 0 {
            self.data.push(NEWLINE);
        }
        let mut i: usize = 0;
        while i < data.len()
            invariant
                i <= data@.len(),
                self.data@ == base + data@.subrange(0, i as int),
                self.event_type == old(self).event_type,
                self.last_event_id == old(self).last_event_id,
                self.retry == old(self).retry,
            decreases data@.len() - i,
        {
            self.data.push(data[i]);
            proof {
                assert(base + data@.subrange(0, i + 1) =~= (base + data@.subrange(
                    0,
                    i as int,
                )).push(data@[i as int]));
            }
            i += 1;
        }
        proof {
            assert(self.data@ =~= joined_data(old(self)@.data, data@));
        }
    }

    /// Sets `last_event_id`; it persists across dispatches until overwritten.
    pub fn set_id(&mut self, id: Vec<u8>)
        ensures
            final(self)@ == (BufferModel { last_event_id: Some(id@), ..old(self)@ }),
    {
        self.last_event_id = Some(id);
    }

    /// Sets the reconnection time in milliseconds; it persists across
    /// dispatches until overwritten.
    pub fn set_retry(&mut self, retry_millis: u64)
        ensures
            final(self)@ == (BufferModel { retry: Some(retry_millis), ..old(self)@ }),
    {
        self.retry = Some(retry_millis);
    }

    /// Consumes one line: a blank line dispatches (and may yield an event),
    /// any other line is split into field and value and applied; recognized
    /// fields update the state, all others — unknown names, comment lines,
    /// unparsable `retry:` values — change nothing.
    pub fn process_line(&mut self, line: &Vec<u8>) -> (r: Option<Event>)
        ensures
            final(self)@ == spec_step(old(self)@, line@).0,
            opt_event_model(r) == spec_step(old(self)@, line@).1,
    {
        if line.len() == 0 {
            return self.produce_event();
        }
        let (field, value) = parse_line(line);
        if bytes_eq(&field, &field_event_bytes()) {
            self.set_event_type(value);
        } else if bytes_eq(&field, &field_data_bytes()) {
            self.push_data(&value);
        } else if bytes_eq(&field, &field_id_bytes()) {
            self.set_id(value);
        } else if bytes_eq(&field, &field_retry_bytes()) {
            match parse::parse_retry_millis(&value) {
                Some(millis) => self.set_retry(millis),
                None => (),
            }
        }
        None
    }
}

} // verus!
