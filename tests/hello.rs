use httpls::hello::{hello_world_handler, hello_world_page, HelloWorldPage};
use httpls::{serve_buffered, HTTPHeaders, HTTPMethod, HTTPResponseCode};

#[test]
fn greeting_lists_the_headers() {
    let mut headers = HTTPHeaders::new();
    headers.insert(b"Host".to_vec(), b"example".to_vec());
    headers.insert(b"Accept".to_vec(), b"*/*".to_vec());
    assert_eq!(
        String::from_utf8(hello_world_page(&headers)).unwrap(),
        "<h1>Hello world!</h1><p>Your headers:</p><table><tr><td><b>Host</b></td><td>example</td></tr>\n<tr><td><b>Accept</b></td><td>*/*</td></tr>\n</table>"
    );
}

#[test]
fn greeting_routes() {
    let headers = HTTPHeaders::new();
    let (response, writer) = hello_world_handler(HTTPMethod::GET, b"/", &headers);
    assert_eq!(response.code, HTTPResponseCode::HTTP200);
    assert_eq!(
        writer.bytes(),
        &b"<h1>Hello world!</h1><p>Your headers:</p><table></table>".to_vec()
    );
    let (response, writer) = hello_world_handler(HTTPMethod::GET, b"/missing", &headers);
    assert_eq!(response.code, HTTPResponseCode::HTTP404);
    assert_eq!(writer.bytes(), &b"<h1>404 Not Found</h1>".to_vec());
    let (response, writer) = hello_world_handler(HTTPMethod::POST, b"/", &headers);
    assert_eq!(response.code, HTTPResponseCode::HTTP400);
    assert_eq!(writer.bytes(), &b"<h1>400 Bad Request</h1>".to_vec());
}

#[test]
fn greeting_served_end_to_end() {
    let out = serve_buffered(&HelloWorldPage, b"GET /missing HTTP/1.0\r\nHost: h\r\n\r\n").unwrap();
    assert_eq!(
        String::from_utf8(out).unwrap(),
        "HTTP/1.0 404 Not Found\r\nContent-Type: text/html; charset=utf-8\r\nContent-Length: 22\r\n\r\n<h1>404 Not Found</h1>"
    );
    let out = serve_buffered(&HelloWorldPage, b"GET / HTTP/1.0\r\nHost: h\r\n\r\n").unwrap();
    let out = String::from_utf8(out).unwrap();
    assert!(out.starts_with("HTTP/1.0 200 OK\r\nContent-Type: text/html; charset=utf-8\r\nContent-Length: 96\r\n\r\n"));
    assert!(out.ends_with("<tr><td><b>Host</b></td><td>h</td></tr>\n</table>"));
}
