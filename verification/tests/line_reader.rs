use reqwest_sse::lines::LineReader;

#[test]
fn line_spanning_chunks_is_reconstructed() {
    let mut reader = LineReader::new();
    assert_eq!(reader.push_chunk(&b"da".to_vec()), Vec::<Vec<u8>>::new());
    assert_eq!(
        reader.push_chunk(&b"ta: x\nre".to_vec()),
        vec![b"data: x".to_vec()]
    );
    assert_eq!(reader.push_chunk(&b"st\n".to_vec()), vec![b"rest".to_vec()]);
    assert_eq!(reader.finish(), None);
}

#[test]
fn several_lines_in_one_chunk() {
    let mut reader = LineReader::new();
    assert_eq!(
        reader.push_chunk(&b"a\nb\n\nc\n".to_vec()),
        vec![b"a".to_vec(), b"b".to_vec(), b"".to_vec(), b"c".to_vec()]
    );
}

#[test]
fn empty_chunk_yields_nothing() {
    let mut reader = LineReader::new();
    assert_eq!(reader.push_chunk(&Vec::new()), Vec::<Vec<u8>>::new());
    assert_eq!(reader.finish(), None);
}

#[test]
fn trailing_partial_line_surfaces_at_finish() {
    let mut reader = LineReader::new();
    assert_eq!(reader.push_chunk(&b"done\nhalf".to_vec()), vec![b"done".to_vec()]);
    assert_eq!(reader.finish(), Some(b"half".to_vec()));
}

#[test]
fn finish_is_idempotent() {
    let mut reader = LineReader::new();
    reader.push_chunk(&b"tail".to_vec());
    assert_eq!(reader.finish(), Some(b"tail".to_vec()));
    // Asking again after the end yields nothing, repeatedly.
    assert_eq!(reader.finish(), None);
    assert_eq!(reader.finish(), None);
}

#[test]
fn chunking_does_not_change_the_lines() {
    let body = b"data: foo\ndata: bar\n\nev";
    let whole = LineReader::new().push_chunk(&body.to_vec());
    for split in 0..=body.len() {
        let mut reader = LineReader::new();
        let mut lines = reader.push_chunk(&body[..split].to_vec());
        lines.extend(reader.push_chunk(&body[split..].to_vec()));
        assert_eq!(lines, whole);
        assert_eq!(reader.finish(), Some(b"ev".to_vec()));
    }
}

#[test]
fn carriage_return_is_kept_as_text() {
    let mut reader = LineReader::new();
    assert_eq!(reader.push_chunk(&b"a\r\n".to_vec()), vec![b"a\r".to_vec()]);
}
