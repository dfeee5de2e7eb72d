//! A small HTTP/1.0 request/response pipeline: a line-oriented request parser,
//! a handler interface, a response writer, and the decisions that take one
//! connection from its first byte to its access log line.
pub mod bytes;
pub mod message;
pub mod headers;
pub mod request;
pub mod parser;
pub mod response;
pub mod handler;
pub mod laws;
pub mod task;

pub use handler::{respond, serve_buffered, HTTPRequestHandler, HandlerOutcome, StaticHandler};
pub use headers::{HTTPHeader, HTTPHeaders};
pub use message::{HTTPMethod, HTTPResponseCode};
pub use parser::{parse_http_request, ParseOutcome};
pub use request::HTTPRequest;
pub use response::{
    error_page_response, response_head, start_http_response, update_response_headers,
    BytesResponseWriter, HTTPResponse, HTTPResponseWriter, ResponseSink,
};
pub mod countdown;
pub mod hello;
