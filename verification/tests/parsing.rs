use reqwest_sse::parse_line;
use reqwest_sse::parse::parse_retry_millis;

#[test]
fn parse_line_properly() {
    let (field, value) = parse_line(&"event: message".as_bytes().to_vec());
    assert_eq!(field, b"event".to_vec());
    assert_eq!(value, b"message".to_vec());

    let (field, value) = parse_line(&"non-standard field".as_bytes().to_vec());
    assert_eq!(field, b"non-standard field".to_vec());
    assert_eq!(value, b"".to_vec());

    let (field, value) = parse_line(&"data:data with : inside".as_bytes().to_vec());
    assert_eq!(field, b"data".to_vec());
    assert_eq!(value, b"data with : inside".to_vec());
}

#[test]
fn parse_line_strips_exactly_one_space() {
    let (field, value) = parse_line(&"data:  two spaces".as_bytes().to_vec());
    assert_eq!(field, b"data".to_vec());
    assert_eq!(value, b" two spaces".to_vec());

    let (field, value) = parse_line(&"data:".as_bytes().to_vec());
    assert_eq!(field, b"data".to_vec());
    assert_eq!(value, b"".to_vec());
}

#[test]
fn parse_line_comment_has_empty_field() {
    let (field, value) = parse_line(&":".as_bytes().to_vec());
    assert_eq!(field, b"".to_vec());
    assert_eq!(value, b"".to_vec());

    let (field, value) = parse_line(&":anything".as_bytes().to_vec());
    assert_eq!(field, b"".to_vec());
    assert_eq!(value, b"anything".to_vec());
}

#[test]
fn parse_line_empty_line() {
    let (field, value) = parse_line(&Vec::new());
    assert_eq!(field, b"".to_vec());
    assert_eq!(value, b"".to_vec());
}

#[test]
fn retry_parses_plain_decimal() {
    assert_eq!(parse_retry_millis(&b"12342".to_vec()), Some(12342));
    assert_eq!(parse_retry_millis(&b"0".to_vec()), Some(0));
    assert_eq!(parse_retry_millis(&b"+5".to_vec()), Some(5));
}

#[test]
fn retry_rejects_non_numeric() {
    assert_eq!(parse_retry_millis(&b"".to_vec()), None);
    assert_eq!(parse_retry_millis(&b"+".to_vec()), None);
    assert_eq!(parse_retry_millis(&b"12a".to_vec()), None);
    assert_eq!(parse_retry_millis(&b"-1".to_vec()), None);
    assert_eq!(parse_retry_millis(&b" 7".to_vec()), None);
    assert_eq!(parse_retry_millis(&b"1.5".to_vec()), None);
}

#[test]
fn retry_respects_the_integer_bound() {
    assert_eq!(
        parse_retry_millis(&b"18446744073709551615".to_vec()),
        Some(u64::MAX)
    );
    assert_eq!(parse_retry_millis(&b"18446744073709551616".to_vec()), None);
    assert_eq!(
        parse_retry_millis(&b"99999999999999999999999999".to_vec()),
        None
    );
}
