use http_core::method::Method;
use http_core::query_string::Value;
use http_core::request::{get_next_word, ParseError, Request};

#[test]
fn parse_request_line_with_query() {
    let buf = b"GET /search?name=abc&sort=1 HTTP/1.1\r\n";
    let req = Request::parse(buf).unwrap();
    assert_eq!(req.path(), "/search");
    assert!(matches!(*req.method(), Method::GET));
    let qs = req.query_string().unwrap();
    match qs.get("name") {
        Some(Value::Single(v)) => assert_eq!(*v, "abc"),
        _ => panic!("name should be Single"),
    }
    match qs.get("sort") {
        Some(Value::Single(v)) => assert_eq!(*v, "1"),
        _ => panic!("sort should be Single"),
    }
}

#[test]
fn parse_request_line_without_query() {
    let buf = b"GET /hello HTTP/1.1\r\nHost: example\r\n\r\n";
    let req = Request::parse(buf).unwrap();
    assert_eq!(req.path(), "/hello");
    assert!(req.query_string().is_none());
    assert!(matches!(*req.method(), Method::GET));
}

#[test]
fn headers_and_body_are_ignored() {
    let buf = b"DELETE /x HTTP/1.1\rgarbage that is never examined";
    let req = Request::parse(buf).unwrap();
    assert_eq!(req.path(), "/x");
    assert!(matches!(*req.method(), Method::DELETE));
}

#[test]
fn unknown_method_fails_with_invalid_method() {
    let buf = b"FOO / HTTP/1.1\r\n";
    assert!(matches!(Request::parse(buf), Err(ParseError::InvalidMethod)));
    let buf2 = b"get / HTTP/1.1\r\n";
    assert!(matches!(Request::parse(buf2), Err(ParseError::InvalidMethod)));
}

#[test]
fn wrong_protocol_fails_with_invalid_protocol() {
    let buf = b"GET / HTTP/1.0\r\n";
    assert!(matches!(Request::parse(buf), Err(ParseError::InvalidProtocol)));
    let buf2 = b"GET / http/1.1\r\n";
    assert!(matches!(Request::parse(buf2), Err(ParseError::InvalidProtocol)));
}

#[test]
fn protocol_checked_before_method() {
    // Even an unknown verb is reported as InvalidProtocol when the protocol
    // token is wrong.
    let buf = b"FOO / HTTP/1.0\r\n";
    assert!(matches!(Request::parse(buf), Err(ParseError::InvalidProtocol)));
}

#[test]
fn missing_tokens_fail_with_invalid_request() {
    assert!(matches!(Request::parse(b"GET"), Err(ParseError::InvalidRequest)));
    assert!(matches!(Request::parse(b"GET /"), Err(ParseError::InvalidRequest)));
    assert!(matches!(Request::parse(b""), Err(ParseError::InvalidRequest)));
}

#[test]
fn invalid_utf8_fails_with_invalid_encoding() {
    let buf: &[u8] = &[0xff, 0xfe, b'G', b'E', b'T'];
    assert!(matches!(Request::parse(buf), Err(ParseError::InvalidEncoding)));
}

#[test]
fn error_messages() {
    assert_eq!(ParseError::InvalidRequest.message(), "Invalid Request");
    assert_eq!(ParseError::InvalidEncoding.message(), "Invalid Encoding");
    assert_eq!(ParseError::InvalidProtocol.message(), "Invalid Protocol");
    assert_eq!(ParseError::InvalidMethod.message(), "Invalid Method");
}

#[test]
fn next_word_splits_on_space_and_carriage_return() {
    assert_eq!(get_next_word("GET /"), Some(("GET", "/")));
    assert_eq!(get_next_word("token\rrest"), Some(("token", "rest")));
    assert_eq!(get_next_word(" leading"), Some(("", "leading")));
    assert_eq!(get_next_word("nodelimiter"), None);
    assert_eq!(get_next_word(""), None);
}

#[test]
fn method_parse_accepts_exactly_the_closed_set() {
    assert!(matches!(Method::parse("GET"), Ok(Method::GET)));
    assert!(matches!(Method::parse("DELETE"), Ok(Method::DELETE)));
    assert!(matches!(Method::parse("POST"), Ok(Method::POST)));
    assert!(matches!(Method::parse("PUT"), Ok(Method::PUT)));
    assert!(matches!(Method::parse("HEAD"), Ok(Method::HEAD)));
    assert!(matches!(Method::parse("CONNECT"), Ok(Method::CONNECT)));
    assert!(matches!(Method::parse("OPTIONS"), Ok(Method::OPTIONS)));
    assert!(matches!(Method::parse("TRACE"), Ok(Method::TRACE)));
    assert!(matches!(Method::parse("PATCH"), Ok(Method::PATCH)));
    assert!(Method::parse("").is_err());
    assert!(Method::parse("Get").is_err());
    assert!(Method::parse("GET ").is_err());
    assert!(Method::parse("TRACES").is_err());
}

#[test]
fn path_never_contains_question_mark() {
    let req = Request::parse(b"GET /a?b?c HTTP/1.1\r\n").unwrap();
    assert_eq!(req.path(), "/a");
    let qs = req.query_string().unwrap();
    match qs.get("b?c") {
        Some(Value::Single(v)) => assert_eq!(*v, ""),
        _ => panic!("everything after the first ? goes to the query string"),
    }
}
