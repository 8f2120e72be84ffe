use rusticore::request::{header_progress, ReadProgress};
use rusticore::{Method, Request, ServerError};

#[test]
/// Tests the parsing of an HTTP request from delivered bytes.
/// It simulates a client sending a request and checks if the `Request` is
/// correctly populated with the method, path, HTTP version, and headers.
fn test_request_parsing() {
    let request_data = b"GET / HTTP/1.1\r\nHost: localhost\r\n\r\n";
    match Request::parse(request_data.to_vec()) {
        Ok(request) => {
            assert_eq!(request.method(), Method::Get);
            assert_eq!(request.path(), b"/");
            assert_eq!(request.http_version(), b"HTTP/1.1");
            assert_eq!(request.get_header("Host"), Some(&b"localhost"[..]));
        }
        Err(f) => panic!("Failed to parse request: {:?}", f.error),
    }
}

#[test]
/// A well-formed request with a path yields exactly its tokens.
fn parse_well_formed_with_path() {
    let request = Request::parse(b"GET /p HTTP/1.1\r\nHost: h\r\n\r\n".to_vec()).unwrap();
    assert_eq!(request.method(), Method::Get);
    assert_eq!(request.path(), b"/p");
    assert_eq!(request.http_version(), b"HTTP/1.1");
    assert_eq!(request.get_header("Host"), Some(&b"h"[..]));
    assert_eq!(request.body(), b"");
}

#[test]
/// A stream that closes with zero bytes delivered fails with
/// `ConnectionClosed`.
fn parse_empty_stream() {
    let failure = Request::parse(Vec::new()).unwrap_err();
    assert_eq!(failure.error, ServerError::ConnectionClosed);
    assert!(failure.buffer.is_empty());
}

#[test]
/// A stream that closes before the terminating blank line fails with
/// `ConnectionClosed`, and the buffer comes back intact.
fn parse_truncated_headers() {
    let data = b"GET / HTTP/1.1\r\nHost: localhost\r\n".to_vec();
    let failure = Request::parse(data.clone()).unwrap_err();
    assert_eq!(failure.error, ServerError::ConnectionClosed);
    assert_eq!(failure.buffer, data);
}

#[test]
/// A header block whose bytes pass the cap before the terminating blank
/// line fails with `HeadersTooLarge`.
fn parse_oversize_headers() {
    let mut data = b"GET / HTTP/1.1\r\nX-Filler: ".to_vec();
    data.extend_from_slice(&vec![b'a'; 5000]);
    data.extend_from_slice(b"\r\n\r\n");
    let failure = Request::parse(data).unwrap_err();
    assert_eq!(failure.error, ServerError::HeadersTooLarge);
}

#[test]
/// More than the cap delivered with no terminator in sight is also too
/// large, not a closed connection.
fn parse_oversize_without_terminator() {
    let data = vec![b'a'; 5000];
    let failure = Request::parse(data).unwrap_err();
    assert_eq!(failure.error, ServerError::HeadersTooLarge);
}

#[test]
/// A first line without three tokens is malformed.
fn parse_malformed_request_line() {
    let failure = Request::parse(b"GET\r\n\r\n".to_vec()).unwrap_err();
    assert_eq!(failure.error, ServerError::MalformedRequestLine);
    let failure = Request::parse(b"GET /p\r\n\r\n".to_vec()).unwrap_err();
    assert_eq!(failure.error, ServerError::MalformedRequestLine);
}

#[test]
/// A method token outside the eight recognized verbs is rejected.
fn parse_invalid_method() {
    let failure = Request::parse(b"FROB /p HTTP/1.1\r\n\r\n".to_vec()).unwrap_err();
    assert_eq!(failure.error, ServerError::InvalidMethod);
}

#[test]
/// Each of the eight verbs is recognized.
fn parse_all_methods() {
    let cases: [(&[u8], Method); 8] = [
        (b"GET", Method::Get),
        (b"POST", Method::Post),
        (b"PUT", Method::Put),
        (b"PATCH", Method::Patch),
        (b"DELETE", Method::Delete),
        (b"HEAD", Method::Head),
        (b"OPTIONS", Method::Options),
        (b"TRACE", Method::Trace),
    ];
    for (token, expected) in cases {
        let mut data = token.to_vec();
        data.extend_from_slice(b" /p HTTP/1.1\r\n\r\n");
        let request = Request::parse(data).unwrap();
        assert_eq!(request.method(), expected);
    }
}

#[test]
/// Header lookup is case-insensitive on the name.
fn get_header_ignores_case() {
    let request =
        Request::parse(b"GET / HTTP/1.1\r\nContent-Length: 42\r\n\r\n".to_vec()).unwrap();
    assert_eq!(request.get_header("content-length"), Some(&b"42"[..]));
    assert_eq!(request.get_header("CONTENT-LENGTH"), Some(&b"42"[..]));
    assert_eq!(request.get_header("Missing"), None);
}

#[test]
/// The first header with a matching name wins, and a line without a colon
/// is skipped rather than failing the parse.
fn get_header_first_match_and_leniency() {
    let data = b"GET / HTTP/1.1\r\nX: one\r\nnonsense line\r\nX: two\r\n\r\n".to_vec();
    let request = Request::parse(data).unwrap();
    assert_eq!(request.get_header("X"), Some(&b"one"[..]));
}

#[test]
/// Bytes already delivered past the blank line are the body.
fn parse_body_bytes() {
    let request =
        Request::parse(b"POST /x HTTP/1.1\r\nA: b\r\n\r\nhello".to_vec()).unwrap();
    assert_eq!(request.method(), Method::Post);
    assert_eq!(request.body(), b"hello");
}

#[test]
/// The buffer comes back through `into_buffer` so it can return to its pool.
fn into_buffer_returns_bytes() {
    let data = b"GET / HTTP/1.1\r\n\r\n".to_vec();
    let request = Request::parse(data.clone()).unwrap();
    assert_eq!(request.into_buffer(), data);
}

#[test]
/// The read-loop decision: complete on the terminator, too large past the
/// cap, otherwise more to read — with completion checked first.
fn header_progress_decisions() {
    assert_eq!(header_progress(b"GET / HTTP/1.1\r\n\r\n", 18), ReadProgress::Complete);
    assert_eq!(header_progress(b"GET / HTTP/1.1\r\n", 16), ReadProgress::NeedMore);
    assert_eq!(header_progress(b"GET / HTTP/1.1\r\n", 5000), ReadProgress::TooLarge);
    // completion wins even when the completing read passes the cap
    assert_eq!(header_progress(b"GET / HTTP/1.1\r\nA: b\r\n\r\n", 5000), ReadProgress::Complete);
}
