use http_core::response::Response;
use http_core::server::{dispatch, Handler, Server};
use http_core::status_code::StatusCode;
use http_core::website_handler::WebsiteHandler;

#[test]
fn reason_phrases_match_the_fixed_table() {
    assert_eq!(StatusCode::Okay.reason_phrase(), "Ok");
    assert_eq!(StatusCode::BadRequest.reason_phrase(), "Bad Request");
    assert_eq!(StatusCode::NotFound.reason_phrase(), "Not Found");
}

#[test]
fn numeric_values_match_the_enumerated_codes() {
    assert_eq!(StatusCode::Okay.numeric_value(), 200);
    assert_eq!(StatusCode::BadRequest.numeric_value(), 400);
    assert_eq!(StatusCode::NotFound.numeric_value(), 404);
}

#[test]
fn status_line_carries_the_numeric_code() {
    let ok = Response::new(StatusCode::Okay, None).serialize();
    assert!(ok.starts_with("HTTP/1.1 200 Ok\r\n"));
    let bad = Response::new(StatusCode::BadRequest, None).serialize();
    assert!(bad.starts_with("HTTP/1.1 400 Bad Request\r\n"));
    let missing = Response::new(StatusCode::NotFound, None).serialize();
    assert!(missing.starts_with("HTTP/1.1 404 Not Found\r\n"));
}

#[test]
fn serialization_format_with_body() {
    let resp = Response::new(StatusCode::Okay, Some("hello".to_string()));
    assert_eq!(resp.serialize(), "HTTP/1.1 200 Ok\r\nContent-Length: 5\r\n\r\nhello");
}

#[test]
fn serialization_format_without_body() {
    let resp = Response::new(StatusCode::NotFound, None);
    assert_eq!(resp.serialize(), "HTTP/1.1 404 Not Found\r\nContent-Length: 0\r\n\r\n");
}

#[test]
fn content_length_counts_bytes_not_characters() {
    // A two-byte UTF-8 character counts as two wire bytes.
    let resp = Response::new(StatusCode::Okay, Some("\u{00e9}".to_string()));
    assert_eq!(resp.serialize(), "HTTP/1.1 200 Ok\r\nContent-Length: 2\r\n\r\n\u{00e9}");
}

#[test]
fn serializing_twice_is_byte_identical() {
    let resp = Response::new(StatusCode::Okay, Some("<h1>it works!</h1>".to_string()));
    let first = resp.serialize();
    let second = resp.serialize();
    assert_eq!(first.as_bytes(), second.as_bytes());
}

#[test]
fn end_to_end_homepage_request() {
    let mut handler = WebsiteHandler;
    let response = dispatch(&mut handler, b"GET / HTTP/1.1\r\n\r\n");
    assert_eq!(response.status().numeric_value(), 200);
    assert_eq!(response.body().unwrap(), "<h1>Welcome to homepage</h1>");
    let wire = response.serialize();
    assert!(wire.starts_with("HTTP/1.1 200 Ok\r\n"));
    assert!(wire.ends_with("\r\n\r\n<h1>Welcome to homepage</h1>"));
}

#[test]
fn end_to_end_second_page_and_not_found() {
    let mut handler = WebsiteHandler;
    let hello = dispatch(&mut handler, b"GET /hello HTTP/1.1\r\n\r\n");
    assert_eq!(hello.body().unwrap(), "<h1>Welcome to another page</h1>");
    let missing = dispatch(&mut handler, b"GET /nowhere HTTP/1.1\r\n\r\n");
    assert_eq!(missing.status().numeric_value(), 404);
    assert!(missing.body().is_none());
    let post = dispatch(&mut handler, b"POST / HTTP/1.1\r\n\r\n");
    assert_eq!(post.status().numeric_value(), 404);
}

#[test]
fn parse_failure_becomes_bad_request_with_no_body() {
    let mut handler = WebsiteHandler;
    let response = dispatch(&mut handler, b"not a request at all");
    assert_eq!(response.status().numeric_value(), 400);
    assert!(response.body().is_none());
    assert_eq!(response.serialize(), "HTTP/1.1 400 Bad Request\r\nContent-Length: 0\r\n\r\n");
}

struct PanicHandler;

impl Handler for PanicHandler {
    fn handle_request(&mut self, _request: &http_core::request::Request) -> Response {
        panic!("the handler must not see a failed parse");
    }
}

#[test]
fn parse_failure_never_reaches_the_handler() {
    let mut handler = PanicHandler;
    let response = dispatch(&mut handler, b"BROKEN");
    assert_eq!(response.status().numeric_value(), 400);
}

#[test]
fn server_remembers_its_address() {
    let server = Server::new("127.0.0.1:8080".to_string());
    assert_eq!(server.addr(), "127.0.0.1:8080");
}
