use reqwest_sse::lines::LineReader;
use reqwest_sse::{Event, EventBuffer};

/// Feeds a whole body to the line reader and assembler, as the streaming
/// shell would line by line, and collects the produced events.
fn run_stream(body: &str) -> Vec<Event> {
    let mut reader = LineReader::new();
    let mut buffer = EventBuffer::new();
    let mut events = Vec::new();
    for line in reader.push_chunk(&body.as_bytes().to_vec()) {
        if let Some(event) = buffer.process_line(&line) {
            events.push(event);
        }
    }
    if let Some(line) = reader.finish() {
        if let Some(event) = buffer.process_line(&line) {
            events.push(event);
        }
    }
    events
}

#[test]
fn event_only_on_boundary_with_data() {
    // A boundary with no accumulated data yields nothing, repeatedly.
    assert_eq!(run_stream("\n\n\n"), Vec::new());
    // Data without a boundary yields nothing.
    assert_eq!(run_stream("data: pending"), Vec::new());
    // Data followed by a boundary yields exactly one event.
    let events = run_stream("data: foo\n\n");
    assert_eq!(events.len(), 1);
    assert_eq!(events[0].data, b"foo".to_vec());
}

#[test]
fn multiple_data_lines_join_with_newline() {
    let events = run_stream("data: foo\ndata: bar\ndata: baz\n\n");
    assert_eq!(events.len(), 1);
    assert_eq!(events[0].event_type, b"message".to_vec());
    assert_eq!(events[0].data, b"foo\nbar\nbaz".to_vec());
}

#[test]
fn event_field_overrides_default_type() {
    let events = run_stream("event: coin\ndata: prout\n\n");
    assert_eq!(events.len(), 1);
    assert_eq!(events[0].event_type, b"coin".to_vec());
    assert_eq!(events[0].data, b"prout".to_vec());
}

#[test]
fn id_and_retry_persist_across_events() {
    let events = run_stream("id: plop\nretry: 12342\ndata: one\n\ndata: two\n\n");
    assert_eq!(events.len(), 2);
    assert_eq!(events[0].last_event_id, Some(b"plop".to_vec()));
    assert_eq!(events[0].retry, Some(12342));
    // The second event sets neither field and still carries both values.
    assert_eq!(events[1].last_event_id, Some(b"plop".to_vec()));
    assert_eq!(events[1].retry, Some(12342));
}

#[test]
fn unknown_fields_and_comments_change_nothing() {
    let with_noise = run_stream("nodata\n:\n:anything\ndata: x\nunknown: y\n\n");
    let without_noise = run_stream("data: x\n\n");
    assert_eq!(with_noise, without_noise);
    assert_eq!(with_noise.len(), 1);
    assert_eq!(with_noise[0].data, b"x".to_vec());
}

#[test]
fn unparsable_retry_leaves_retry_unchanged() {
    let events = run_stream("retry: 12\nretry: abc\ndata: x\n\n");
    assert_eq!(events.len(), 1);
    assert_eq!(events[0].retry, Some(12));

    let events = run_stream("retry: abc\ndata: x\n\n");
    assert_eq!(events[0].retry, None);
}

#[test]
fn end_to_end_scenario() {
    let body = "data: foo\n\
                \n\
                data: foo\n\
                data: bar\n\
                data: baz\n\
                \n\
                event: coin\n\
                data: prout\n\
                \n\
                event: foo\n\
                \n\
                :\n\
                \n\
                id: plop\n\
                retry: 12342\n\
                \n\
                data:\n\
                \n\
                nodata\n\
                \n\
                data: asdsadsadsasadsad\n\
                \n";
    let events = run_stream(body);
    assert_eq!(events.len(), 4);

    assert_eq!(events[0].event_type, b"message".to_vec());
    assert_eq!(events[0].data, b"foo".to_vec());
    assert_eq!(events[0].last_event_id, None);
    assert_eq!(events[0].retry, None);

    assert_eq!(events[1].event_type, b"message".to_vec());
    assert_eq!(events[1].data, b"foo\nbar\nbaz".to_vec());

    assert_eq!(events[2].event_type, b"coin".to_vec());
    assert_eq!(events[2].data, b"prout".to_vec());
    assert_eq!(events[2].last_event_id, None);
    assert_eq!(events[2].retry, None);

    assert_eq!(events[3].event_type, b"message".to_vec());
    assert_eq!(events[3].data, b"asdsadsadsasadsad".to_vec());
    assert_eq!(events[3].last_event_id, Some(b"plop".to_vec()));
    assert_eq!(events[3].retry, Some(12342));
}

#[test]
fn trailing_data_without_boundary_is_discarded() {
    let events = run_stream("data: kept\n\ndata: dropped\n");
    assert_eq!(events.len(), 1);
    assert_eq!(events[0].data, b"kept".to_vec());
}

#[test]
fn empty_data_value_alone_produces_no_event() {
    // A lone `data:` with an empty value leaves the buffer empty, so the
    // following boundary dispatches nothing.
    assert_eq!(run_stream("data:\n\n"), Vec::new());
    // But an empty value after existing content contributes a separator.
    let events = run_stream("data: a\ndata:\n\n");
    assert_eq!(events.len(), 1);
    assert_eq!(events[0].data, b"a\n".to_vec());
}

#[test]
fn event_type_resets_after_dispatch() {
    let events = run_stream("event: coin\ndata: x\n\ndata: y\n\n");
    assert_eq!(events.len(), 2);
    assert_eq!(events[0].event_type, b"coin".to_vec());
    assert_eq!(events[1].event_type, b"message".to_vec());
}
