use httpls::parser::{parse_header_line, parse_request_line};
use httpls::{parse_http_request, HTTPMethod, HTTPRequest, ParseOutcome};

fn parsed(input: &[u8]) -> (HTTPRequest, usize) {
    match parse_http_request(input) {
        ParseOutcome::Parsed(req, n) => (req, n),
        ParseOutcome::Malformed => panic!("malformed"),
        ParseOutcome::Incomplete => panic!("incomplete"),
    }
}

fn is_malformed(input: &[u8]) -> bool {
    matches!(parse_http_request(input), ParseOutcome::Malformed)
}

fn is_incomplete(input: &[u8]) -> bool {
    matches!(parse_http_request(input), ParseOutcome::Incomplete)
}

#[test]
fn request_line_gives_method_and_raw_path() {
    for (text, method) in [
        ("GET", HTTPMethod::GET),
        ("POST", HTTPMethod::POST),
        ("HEAD", HTTPMethod::HEAD),
    ] {
        let input = format!("{} /a%20b?x=1 HTTP/1.0\r\n\r\n", text);
        let (req, n) = parsed(input.as_bytes());
        assert_eq!(req.method, method);
        assert_eq!(req.path, b"/a%20b?x=1".to_vec());
        assert_eq!(req.headers.len(), 0);
        assert_eq!(n, input.len());
    }
}

#[test]
fn version_one_one_is_accepted() {
    let (req, _) = parsed(b"GET /x HTTP/1.1\r\n\r\n");
    assert_eq!(req.path, b"/x".to_vec());
}

#[test]
fn other_versions_are_malformed() {
    assert!(is_malformed(b"GET / HTTP/2.0\r\n\r\n"));
    assert!(is_malformed(b"GET / http/1.0\r\n\r\n"));
    assert!(is_malformed(b"GET / HTTP/1.0 \r\n\r\n"));
}

#[test]
fn repeated_header_keeps_last_value() {
    let input = b"GET / HTTP/1.0\r\nA: 1\r\nB: 2\r\nA: 3\r\n\r\n";
    let (req, n) = parsed(input);
    assert_eq!(n, input.len());
    assert_eq!(req.headers.len(), 2);
    assert_eq!(req.headers.get(b"A"), Some(&b"3".to_vec()));
    assert_eq!(req.headers.get(b"B"), Some(&b"2".to_vec()));
    let entries = req.headers.entries();
    assert_eq!(entries[0].key, b"A".to_vec());
    assert_eq!(entries[1].key, b"B".to_vec());
}

#[test]
fn header_keys_are_case_sensitive() {
    let (req, _) = parsed(b"GET / HTTP/1.0\r\nHost: a\r\nhost: b\r\n\r\n");
    assert_eq!(req.headers.len(), 2);
    assert_eq!(req.headers.get(b"Host"), Some(&b"a".to_vec()));
    assert_eq!(req.headers.get(b"host"), Some(&b"b".to_vec()));
}

#[test]
fn unknown_method_is_malformed() {
    assert!(is_malformed(b"PUT / HTTP/1.0\r\n"));
    assert!(is_malformed(b"PUT / HTTP/1.0\r\n\r\n"));
    assert!(is_malformed(b"get / HTTP/1.0\r\n\r\n"));
}

#[test]
fn missing_space_after_colon_is_malformed() {
    assert!(is_malformed(b"GET / HTTP/1.0\r\nKey:Value\r\n\r\n"));
    assert!(parse_header_line(b"Key:Value").is_none());
}

#[test]
fn colon_first_or_absent_is_malformed() {
    assert!(is_malformed(b"GET / HTTP/1.0\r\n: v\r\n\r\n"));
    assert!(is_malformed(b"GET / HTTP/1.0\r\nNoColon\r\n\r\n"));
}

#[test]
fn header_value_keeps_everything_after_the_space() {
    let h = parse_header_line(b"X: a: b ").unwrap();
    assert_eq!(h.key, b"X".to_vec());
    assert_eq!(h.value, b"a: b ".to_vec());
    let empty = parse_header_line(b"X: ").unwrap();
    assert_eq!(empty.value, Vec::<u8>::new());
}

#[test]
fn request_line_missing_parts_is_malformed() {
    assert!(is_malformed(b"GET\r\n"));
    assert!(is_malformed(b"GET /\r\n\r\n"));
    assert!(parse_request_line(b"GET").is_none());
    assert!(parse_request_line(b"GET / HTTP/1.0 extra").is_none());
}

#[test]
fn bad_line_endings_are_malformed() {
    assert!(is_malformed(b"GET / HTTP/1.0\n\r\n"));
    assert!(is_malformed(b"GET / HTTP/1.0\rX\r\n"));
    assert!(is_malformed(b"GET / HTTP/1.0\r\nA: 1\n\r\n"));
}

#[test]
fn input_that_stops_early_is_incomplete() {
    assert!(is_incomplete(b""));
    assert!(is_incomplete(b"GET / HTTP/1.0"));
    assert!(is_incomplete(b"GET / HTTP/1.0\r"));
    assert!(is_incomplete(b"GET / HTTP/1.0\r\nA: 1\r\n"));
    assert!(is_incomplete(b"PUT / HTTP/1.0"));
}

#[test]
fn body_starts_after_the_head() {
    let input = b"POST /f HTTP/1.0\r\nContent-Length: 3\r\n\r\nabc";
    let (req, n) = parsed(input);
    assert_eq!(req.method, HTTPMethod::POST);
    assert_eq!(&input[n..], b"abc");
}

#[test]
fn method_names_round_trip() {
    for m in [HTTPMethod::GET, HTTPMethod::POST, HTTPMethod::HEAD] {
        assert_eq!(HTTPMethod::from_bytes(&m.name()), Some(m));
    }
    assert_eq!(HTTPMethod::from_bytes(b"PUT"), None);
}
