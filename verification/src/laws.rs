//! General properties of the assembler, stated and proved once over the
//! transition function that [`crate::EventBuffer::process_line`] is verified
//! against, so they hold of every stream the library processes.

use vstd::prelude::*;

use crate::BufferModel;
use crate::EventModel;
use crate::field_data;
use crate::field_event;
use crate::field_id;
use crate::field_retry;
use crate::parse::COLON;
use crate::parse::find_colon;
use crate::parse::spec_field;
use crate::parse::spec_parse_retry;
use crate::parse::spec_value;
use crate::spec_step;

verus! {

/// Whether `f` is one of the field names the assembler recognizes.
pub open spec fn is_recognized_field(f: Seq<u8>) -> bool {
    f == field_event() || f == field_data() || f == field_id() || f == field_retry()
}

/// An event is produced by a step exactly when the line is a dispatch
/// boundary — blank — and the `data` accumulated since the last dispatch is
/// non-empty. In particular, no event ever comes out of an empty buffer,
/// however many blank lines arrive in a row.
pub proof fn lemma_event_iff_boundary_with_data(s: BufferModel, line: Seq<u8>)
    ensures
        spec_step(s, line).1 is Some <==> (line.len() == 0 && s.data.len() > 0),
{
}

/// `last_event_id` and `retry` persist: a step whose line is not an `id:`
/// (respectively `retry:`) line leaves them unchanged — dispatch boundaries
/// included — and an event produced by a dispatch carries both values.
pub proof fn lemma_id_retry_persist(s: BufferModel, line: Seq<u8>)
    ensures
        spec_field(line) != field_id() ==> spec_step(s, line).0.last_event_id == s.last_event_id,
        spec_field(line) != field_retry() ==> spec_step(s, line).0.retry == s.retry,
        spec_step(s, line).1 matches Some(e) ==> e.last_event_id == s.last_event_id && e.retry
            == s.retry,
{
}

/// The assembler run over a whole sequence of lines from state `s`: the
/// final state, and the events produced, in arrival order.
pub open spec fn run_lines(s: BufferModel, lines: Seq<Seq<u8>>) -> (BufferModel, Seq<EventModel>)
    decreases lines.len(),
{
    if lines.len() == 0 {
        (s, Seq::empty())
    } else {
        let step = spec_step(s, lines[0]);
        let rest = run_lines(step.0, lines.drop_first());
        (
            rest.0,
            match step.1 {
                None => rest.1,
                Some(e) => seq![e] + rest.1,
            },
        )
    }
}

/// Once set, `last_event_id` and `retry` persist until overwritten: over any
/// run of lines none of which is an `id:` or `retry:` line, the state keeps
/// its starting values of both, and every event produced along the way —
/// however many dispatches there are — carries them.
pub proof fn lemma_persistence_across_events(s: BufferModel, lines: Seq<Seq<u8>>)
    requires
        forall|i: int|
            0 <= i < lines.len() ==> spec_field(#[trigger] lines[i]) != field_id() && spec_field(
                lines[i],
            ) != field_retry(),
    ensures
        run_lines(s, lines).0.last_event_id == s.last_event_id,
        run_lines(s, lines).0.retry == s.retry,
        forall|j: int|
            0 <= j < run_lines(s, lines).1.len() ==> (#[trigger] run_lines(s, lines).1[j]).last_event_id
                == s.last_event_id && run_lines(s, lines).1[j].retry == s.retry,
    decreases lines.len(),
{
    if lines.len() > 0 {
        let step = spec_step(s, lines[0]);
        lemma_id_retry_persist(s, lines[0]);
        assert(forall|i: int|
            0 <= i < lines.drop_first().len() ==> spec_field(#[trigger] lines.drop_first()[i])
                != field_id() && spec_field(lines.drop_first()[i]) != field_retry());
        lemma_persistence_across_events(step.0, lines.drop_first());
        let rest = run_lines(step.0, lines.drop_first());
        match step.1 {
            None => {},
            Some(e) => {
                assert(run_lines(s, lines).1 =~= seq![e] + rest.1);
                assert(forall|j: int|
                    1 <= j < run_lines(s, lines).1.len() ==> run_lines(s, lines).1[j] == rest.1[j
                        - 1]);
            },
        }
    }
}

/// A comment line (one starting with a colon, so an empty field name) or a
/// colonless line whose text is not a recognized field name changes nothing
/// and produces no event. A colonless line reading exactly `event`, `data`,
/// `id` or `retry` is excluded: it acts as that field with an empty value.
pub proof fn lemma_ignored_line(s: BufferModel, line: Seq<u8>)
    requires
        line.len() > 0,
        line[0] == COLON || (find_colon(line) is None && !is_recognized_field(line)),
    ensures
        spec_step(s, line) == (s, None::<EventModel>),
{
    if line[0] == COLON {
        assert(spec_field(line) =~= Seq::<u8>::empty());
        assert(!is_recognized_field(spec_field(line)));
    } else {
        assert(spec_field(line) == line);
    }
}

/// An unparsable `retry:` value leaves the whole state unchanged and
/// produces no event.
pub proof fn lemma_bad_retry_ignored(s: BufferModel, line: Seq<u8>)
    requires
        line.len() > 0,
        spec_field(line) == field_retry(),
        spec_parse_retry(spec_value(line)) is None,
    ensures
        spec_step(s, line) == (s, None::<EventModel>),
{
}

} // verus!
