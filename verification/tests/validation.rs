use reqwest_sse::error::EventSourceError;
use reqwest_sse::validate::validate_response;

#[test]
fn wrong_status_is_rejected_before_content_type() {
    let ct = b"text/event-stream".to_vec();
    assert_eq!(
        validate_response(404, Some(&ct)),
        Err(EventSourceError::BadStatus(404))
    );
    assert_eq!(
        validate_response(301, None),
        Err(EventSourceError::BadStatus(301))
    );
}

#[test]
fn wrong_content_type_is_rejected() {
    let ct = b"text/plain".to_vec();
    assert_eq!(
        validate_response(200, Some(&ct)),
        Err(EventSourceError::BadContentType(Some(b"text/plain".to_vec())))
    );
}

#[test]
fn missing_content_type_is_rejected() {
    assert_eq!(
        validate_response(200, None),
        Err(EventSourceError::BadContentType(None))
    );
}

#[test]
fn exact_match_is_accepted() {
    let ct = b"text/event-stream".to_vec();
    assert_eq!(validate_response(200, Some(&ct)), Ok(()));
    // The match is exact: a parameter suffix does not pass.
    let with_charset = b"text/event-stream; charset=utf-8".to_vec();
    assert!(validate_response(200, Some(&with_charset)).is_err());
}
