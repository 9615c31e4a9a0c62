use balancebeam::proxy::connection::RequestError;
use balancebeam::proxy::framing::{body_received, declared_body_length, response_has_body};

const CAP: usize = 10_000_000;

#[test]
fn request_without_the_header_has_no_body() {
    assert_eq!(declared_body_length(None, CAP), Ok(0));
}

#[test]
fn declared_length_within_the_cap() {
    assert_eq!(declared_body_length(Some(b"0"), CAP), Ok(0));
    assert_eq!(declared_body_length(Some(b"512"), CAP), Ok(512));
    assert_eq!(declared_body_length(Some(b"10000000"), CAP), Ok(CAP));
}

#[test]
fn declared_length_above_the_cap_is_too_large() {
    let r = declared_body_length(Some(b"10000001"), CAP);
    assert_eq!(r, Err(RequestError::RequestBodyTooLarge));
    assert_eq!(r.unwrap_err().status(), 413);
    assert_eq!(declared_body_length(Some(b"1"), 0), Err(RequestError::RequestBodyTooLarge));
}

#[test]
fn header_that_is_no_number_is_invalid() {
    for value in [&b""[..], b"abc", b"12 ", b"-1", b"+1", b"1.5", b"0x10"] {
        let r = declared_body_length(Some(value), CAP);
        assert_eq!(r, Err(RequestError::InvalidContentLength));
        assert_eq!(r.unwrap_err().status(), 400);
    }
    let huge = format!("{}9", usize::MAX);
    assert_eq!(
        declared_body_length(Some(huge.as_bytes()), usize::MAX),
        Err(RequestError::InvalidContentLength)
    );
}

#[test]
fn body_is_counted_up_to_the_declared_length() {
    assert_eq!(body_received(0, 512, 1000), Ok(512));
    assert_eq!(body_received(512, 488, 1000), Ok(1000));
    assert_eq!(body_received(512, 489, 1000), Err(RequestError::ContentLengthMismatch));
    assert_eq!(body_received(512, 0, 1000), Err(RequestError::ContentLengthMismatch));
    assert_eq!(body_received(1001, 1, 1000), Err(RequestError::ContentLengthMismatch));
    assert_eq!(
        body_received(usize::MAX, usize::MAX, usize::MAX),
        Err(RequestError::ContentLengthMismatch)
    );
    assert_eq!(body_received(usize::MAX - 1, 1, usize::MAX), Ok(usize::MAX));
}

#[test]
fn responses_without_a_body() {
    assert!(response_has_body(false, 200));
    assert!(response_has_body(false, 404));
    assert!(response_has_body(false, 502));
    assert!(!response_has_body(true, 200));
    assert!(!response_has_body(false, 100));
    assert!(!response_has_body(false, 199));
    assert!(!response_has_body(false, 204));
    assert!(!response_has_body(false, 304));
    assert!(response_has_body(false, 205));
}
