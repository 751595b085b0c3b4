//! A minimal HTTP/1.1 request/response core: request-line parsing (method,
//! path, query string), status codes with reason phrases, response
//! serialization to the wire format, and a handler dispatch contract.
//! Socket I/O is left to the embedding program; this crate works on plain
//! byte buffers and strings.

pub mod method;
pub mod query_string;
pub mod request;
pub mod response;
pub mod server;
pub mod status_code;
pub mod text;
pub mod website_handler;
