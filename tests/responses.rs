use httpls::bytes::{decimal_bytes, zero_padded_bytes};
use httpls::response::{error_page_content, error_page_message};
use httpls::{
    error_page_response, parse_http_request, respond, response_head, serve_buffered,
    start_http_response, update_response_headers, BytesResponseWriter, HTTPHeaders,
    HTTPMethod, HTTPRequestHandler, HTTPResponse, HTTPResponseCode, HTTPResponseWriter,
    HandlerOutcome, ParseOutcome, StaticHandler,
};

const HTML: &[u8] = b"text/html; charset=utf-8";

fn text(bytes: &[u8]) -> String {
    String::from_utf8(bytes.to_vec()).unwrap()
}

#[test]
fn hello_world_response_is_byte_exact() {
    let mut headers = HTTPHeaders::new();
    headers.insert(b"Content-Type".to_vec(), HTML.to_vec());
    let writer = BytesResponseWriter::new(b"<h1>Hello world!</h1>".to_vec());
    let response = HTTPResponse {
        code: HTTPResponseCode::HTTP200,
        headers,
        content_length: None,
    };
    let out = respond(HandlerOutcome::Respond(response, writer));
    assert_eq!(
        text(&out),
        "HTTP/1.0 200 OK\r\nContent-Type: text/html; charset=utf-8\r\nContent-Length: 21\r\n\r\n<h1>Hello world!</h1>"
    );
}

#[test]
fn status_lines_follow_the_table() {
    let table = [
        (HTTPResponseCode::HTTP200, "200 OK"),
        (HTTPResponseCode::HTTP301, "301 Moved"),
        (HTTPResponseCode::HTTP302, "302 Moved Permanently"),
        (HTTPResponseCode::HTTP400, "400 Bad Request"),
        (HTTPResponseCode::HTTP401, "401 Method Not Allowed"),
        (HTTPResponseCode::HTTP403, "403 Not Authorized"),
        (HTTPResponseCode::HTTP404, "404 Not Found"),
        (HTTPResponseCode::HTTP500, "500 Server Error"),
    ];
    for (code, line) in table {
        let head = start_http_response(code, &HTTPHeaders::new());
        assert_eq!(text(&head), format!("HTTP/1.0 {}\r\n\r\n", line));
    }
}

#[test]
fn error_page_bodies_name_the_code() {
    let table = [
        (HTTPResponseCode::HTTP400, "<h1>400 Bad Request</h1>"),
        (HTTPResponseCode::HTTP401, "<h1>401 Method Not Allowed</h1>"),
        (HTTPResponseCode::HTTP403, "<h1>403 Access Denied</h1>"),
        (HTTPResponseCode::HTTP404, "<h1>404 Not Found</h1>"),
        (HTTPResponseCode::HTTP500, "<h1>500 Server Error</h1>"),
        (HTTPResponseCode::HTTP200, "<h1>200 </h1>"),
    ];
    for (code, body) in table {
        assert_eq!(text(&error_page_content(code)), body);
        let (response, writer) = error_page_response(code);
        assert_eq!(response.code, code);
        assert_eq!(response.content_length, Some(body.len() as u64));
        assert_eq!(writer.bytes(), &body.as_bytes().to_vec());
    }
}

#[test]
fn error_page_message_is_byte_exact() {
    assert_eq!(
        text(&error_page_message(HTTPResponseCode::HTTP404)),
        "HTTP/1.0 404 Not Found\r\nContent-Type: text/html; charset=utf-8\r\nContent-Length: 22\r\n\r\n<h1>404 Not Found</h1>"
    );
}

#[test]
fn defaults_do_not_override_given_headers() {
    let mut headers = HTTPHeaders::new();
    headers.insert(b"Content-Type".to_vec(), b"text/plain".to_vec());
    headers.insert(b"Content-Length".to_vec(), b"5".to_vec());
    update_response_headers(&mut headers, Some(9));
    assert_eq!(headers.len(), 2);
    assert_eq!(headers.get(b"Content-Type"), Some(&b"text/plain".to_vec()));
    assert_eq!(headers.get(b"Content-Length"), Some(&b"5".to_vec()));
}

#[test]
fn unknown_length_sends_no_length_header() {
    let mut headers = HTTPHeaders::new();
    update_response_headers(&mut headers, None);
    assert_eq!(headers.len(), 1);
    assert_eq!(headers.get(b"Content-Type"), Some(&HTML.to_vec()));
    assert_eq!(headers.get(b"Content-Length"), None);
}

#[test]
fn declared_length_wins_over_writer_length() {
    let response = HTTPResponse {
        code: HTTPResponseCode::HTTP200,
        headers: HTTPHeaders::new(),
        content_length: Some(7),
    };
    let head = response_head(response, Some(99));
    assert_eq!(
        text(&head),
        "HTTP/1.0 200 OK\r\nContent-Type: text/html; charset=utf-8\r\nContent-Length: 7\r\n\r\n"
    );
}

#[test]
fn headers_round_trip_through_the_writer() {
    let input = b"GET / HTTP/1.0\r\nX-One: 1\r\nX-Two: two words\r\nX-One: again\r\n\r\n";
    let req = match parse_http_request(input) {
        ParseOutcome::Parsed(req, _) => req,
        _ => panic!("not parsed"),
    };
    let head = start_http_response(HTTPResponseCode::HTTP200, &req.headers);
    let header_part = &head[b"HTTP/1.0 200 OK\r\n".len()..];
    let mut again = b"GET / HTTP/1.0\r\n".to_vec();
    again.extend_from_slice(header_part);
    let req2 = match parse_http_request(&again) {
        ParseOutcome::Parsed(req, _) => req,
        _ => panic!("not parsed"),
    };
    assert_eq!(req2.headers.len(), 2);
    assert_eq!(req2.headers.get(b"X-One"), Some(&b"again".to_vec()));
    assert_eq!(req2.headers.get(b"X-Two"), Some(&b"two words".to_vec()));
}

struct Site;

impl HTTPRequestHandler<Vec<u8>, BytesResponseWriter> for Site {
    fn handle(
        &self,
        method: HTTPMethod,
        path: &Vec<u8>,
        _headers: &HTTPHeaders,
        _stream: Vec<u8>,
    ) -> HandlerOutcome<BytesResponseWriter> {
        if method == HTTPMethod::GET && path.as_slice() == b"/" {
            let mut headers = HTTPHeaders::new();
            headers.insert(b"Content-Type".to_vec(), HTML.to_vec());
            let response = HTTPResponse {
                code: HTTPResponseCode::HTTP200,
                headers,
                content_length: None,
            };
            HandlerOutcome::Respond(response, BytesResponseWriter::new(b"<h1>Hello world!</h1>".to_vec()))
        } else if method == HTTPMethod::GET {
            let (response, writer) = error_page_response(HTTPResponseCode::HTTP404);
            HandlerOutcome::Respond(response, writer)
        } else {
            HandlerOutcome::Decline
        }
    }
}

struct Untouchable;

impl HTTPRequestHandler<Vec<u8>, BytesResponseWriter> for Untouchable {
    fn handle(
        &self,
        _method: HTTPMethod,
        _path: &Vec<u8>,
        _headers: &HTTPHeaders,
        _stream: Vec<u8>,
    ) -> HandlerOutcome<BytesResponseWriter> {
        panic!("the handler must not run")
    }
}

struct Failing;

impl HTTPRequestHandler<Vec<u8>, BytesResponseWriter> for Failing {
    fn handle(
        &self,
        _method: HTTPMethod,
        _path: &Vec<u8>,
        _headers: &HTTPHeaders,
        _stream: Vec<u8>,
    ) -> HandlerOutcome<BytesResponseWriter> {
        HandlerOutcome::Fault
    }
}

struct Echo;

impl HTTPRequestHandler<Vec<u8>, BytesResponseWriter> for Echo {
    fn handle(
        &self,
        _method: HTTPMethod,
        _path: &Vec<u8>,
        _headers: &HTTPHeaders,
        stream: Vec<u8>,
    ) -> HandlerOutcome<BytesResponseWriter> {
        let response = HTTPResponse {
            code: HTTPResponseCode::HTTP200,
            headers: HTTPHeaders::new(),
            content_length: None,
        };
        HandlerOutcome::Respond(response, BytesResponseWriter::new(stream))
    }
}

#[test]
fn get_root_is_served_hello_world() {
    let out = serve_buffered(&Site, b"GET / HTTP/1.0\r\n\r\n").unwrap();
    let out = text(&out);
    assert!(out.starts_with("HTTP/1.0 200 OK\r\n"));
    assert!(out.ends_with("\r\n\r\n<h1>Hello world!</h1>"));
}

#[test]
fn missing_page_gets_not_found() {
    let out = serve_buffered(&Site, b"GET /missing HTTP/1.0\r\n\r\n").unwrap();
    let out = text(&out);
    assert!(out.starts_with("HTTP/1.0 404 Not Found\r\n"));
    assert!(out.ends_with("\r\n\r\n<h1>404 Not Found</h1>"));
}

#[test]
fn malformed_request_gets_bad_request_without_handler() {
    let out = serve_buffered(&Untouchable, b"GET\r\n").unwrap();
    assert_eq!(out, error_page_message(HTTPResponseCode::HTTP400));
    assert!(text(&out).starts_with("HTTP/1.0 400 Bad Request\r\n"));
    assert!(text(&out).ends_with("<h1>400 Bad Request</h1>"));
}

#[test]
fn declined_request_gets_bad_request() {
    let out = serve_buffered(&Site, b"HEAD / HTTP/1.0\r\n\r\n").unwrap();
    assert_eq!(out, error_page_message(HTTPResponseCode::HTTP400));
}

#[test]
fn failing_handler_gets_server_error() {
    let out = serve_buffered(&Failing, b"GET / HTTP/1.0\r\n\r\n").unwrap();
    assert_eq!(out, error_page_message(HTTPResponseCode::HTTP500));
    assert!(text(&out).ends_with("<h1>500 Server Error</h1>"));
}

#[test]
fn cut_off_request_gets_nothing() {
    assert_eq!(serve_buffered(&Site, b"GET / HTTP/1.0\r\n"), None);
}

#[test]
fn handler_receives_the_request_body() {
    let out = serve_buffered(&Echo, b"POST /e HTTP/1.0\r\n\r\npayload").unwrap();
    assert!(text(&out).ends_with("Content-Length: 7\r\n\r\npayload"));
}

#[test]
fn static_handler_answers_its_bytes() {
    let handler = StaticHandler::new(b"Hello world!\r\n".to_vec());
    let out = serve_buffered(&handler, b"GET /anything HTTP/1.0\r\n\r\n").unwrap();
    assert_eq!(
        text(&out),
        "HTTP/1.0 200 OK\r\nContent-Type: text/html; charset=utf-8\r\nContent-Length: 14\r\n\r\nHello world!\r\n"
    );
}

#[test]
fn bytes_writer_reports_and_writes_its_bytes() {
    let writer = BytesResponseWriter::new(b"abc".to_vec());
    assert_eq!(HTTPResponseWriter::<Vec<u8>>::get_content_length(&writer), Some(3));
    let mut sink: Vec<u8> = b"x".to_vec();
    assert!(writer.write_data(&mut sink).is_ok());
    assert_eq!(sink, b"xabc".to_vec());
}

#[test]
fn decimal_text() {
    assert_eq!(decimal_bytes(0), b"0".to_vec());
    assert_eq!(decimal_bytes(22), b"22".to_vec());
    assert_eq!(decimal_bytes(u64::MAX), b"18446744073709551615".to_vec());
    assert_eq!(zero_padded_bytes(7, 4), b"0007".to_vec());
    assert_eq!(zero_padded_bytes(12345, 4), b"12345".to_vec());
}
