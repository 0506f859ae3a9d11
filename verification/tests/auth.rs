use http::{HeaderMap, HeaderValue};
use t3_update_version::auth::{authorize, same_bytes, SECRET_HEADER};
use t3_update_version::service::{screen, Reply, STATUS_UNAUTHORIZED};

#[test]
fn header_name_is_fixed() {
    assert_eq!(SECRET_HEADER, "X-Secret-Key");
}

#[test]
fn correct_secret_passes() {
    let mut headers = HeaderMap::new();
    headers.insert("x-secret-key", HeaderValue::from_static("s3cret"));
    assert!(authorize(&headers, "s3cret"));
    assert_eq!(screen(&headers, "s3cret"), Ok(()));
}

#[test]
fn missing_header_is_refused() {
    let mut headers = HeaderMap::new();
    headers.insert("content-type", HeaderValue::from_static("application/json"));
    assert!(!authorize(&headers, "s3cret"));
    assert_eq!(
        screen(&headers, "s3cret"),
        Err(Reply { status: 401, body: String::new() })
    );
    assert_eq!(STATUS_UNAUTHORIZED, 401);
}

#[test]
fn empty_headers_are_refused() {
    let headers = HeaderMap::new();
    assert!(!authorize(&headers, "s3cret"));
    assert!(!authorize(&headers, ""));
}

#[test]
fn wrong_secret_is_refused() {
    let mut headers = HeaderMap::new();
    headers.insert("x-secret-key", HeaderValue::from_static("guess"));
    assert!(!authorize(&headers, "s3cret"));
    assert_eq!(
        screen(&headers, "s3cret"),
        Err(Reply { status: 401, body: String::new() })
    );
}

#[test]
fn secret_is_compared_exactly() {
    let mut headers = HeaderMap::new();
    headers.insert("x-secret-key", HeaderValue::from_static("S3cret"));
    assert!(!authorize(&headers, "s3cret"));
    headers.insert("x-secret-key", HeaderValue::from_static("s3cret "));
    assert!(!authorize(&headers, "s3cret"));
    headers.insert("x-secret-key", HeaderValue::from_static("s3cre"));
    assert!(!authorize(&headers, "s3cret"));
    headers.insert("x-secret-key", HeaderValue::from_static("s3cret"));
    assert!(authorize(&headers, "s3cret"));
}

#[test]
fn first_value_of_repeated_header_counts() {
    let mut headers = HeaderMap::new();
    headers.append("x-secret-key", HeaderValue::from_static("guess"));
    headers.append("x-secret-key", HeaderValue::from_static("s3cret"));
    assert!(!authorize(&headers, "s3cret"));
    assert!(authorize(&headers, "guess"));
}

#[test]
fn secret_in_another_header_is_refused() {
    let mut headers = HeaderMap::new();
    headers.insert("x-secret", HeaderValue::from_static("s3cret"));
    headers.insert("authorization", HeaderValue::from_static("s3cret"));
    assert!(!authorize(&headers, "s3cret"));
}

#[test]
fn secret_outside_ascii_is_compared_by_its_utf8_bytes() {
    let mut headers = HeaderMap::new();
    headers.insert(
        "x-secret-key",
        HeaderValue::from_bytes("cl\u{e9}".as_bytes()).unwrap(),
    );
    assert!(authorize(&headers, "cl\u{e9}"));
    assert!(!authorize(&headers, "cle"));
}

#[test]
fn empty_secret_matches_empty_value_only() {
    let mut headers = HeaderMap::new();
    headers.insert("x-secret-key", HeaderValue::from_static(""));
    assert!(authorize(&headers, ""));
    assert!(!authorize(&headers, "s3cret"));
}

#[test]
fn same_bytes_is_equality() {
    assert!(same_bytes(b"", b""));
    assert!(same_bytes(b"abc", b"abc"));
    assert!(!same_bytes(b"abc", b"abd"));
    assert!(!same_bytes(b"abc", b"xbc"));
    assert!(!same_bytes(b"abc", b"ab"));
    assert!(!same_bytes(b"", b"a"));
    assert!(!same_bytes(b"\x00", b"\x80"));
}
