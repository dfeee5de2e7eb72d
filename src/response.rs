//! Response descriptors and their serialization.
use vstd::prelude::*;
use crate::bytes::{crlf, decimal, decimal_bytes, push_all, CR, LF, SP};
use crate::headers::{
    has_key, header_block, write_header_block, HTTPHeaders, HeaderSeq,
};
use crate::message::HTTPResponseCode;
use crate::parser::version_10;

verus! {

/// `Content-Type`
pub open spec fn content_type_key() -> Seq<u8> {
    seq![67u8, 111, 110, 116, 101, 110, 116, 45, 84, 121, 112, 101]
}

/// `Content-Length`
pub open spec fn content_length_key() -> Seq<u8> {
    seq![67u8, 111, 110, 116, 101, 110, 116, 45, 76, 101, 110, 103, 116, 104]
}

/// `text/html; charset=utf-8`
pub open spec fn default_content_type() -> Seq<u8> {
    seq![
        116u8, 101, 120, 116, 47, 104, 116, 109, 108, 59, 32, 99, 104, 97, 114, 115, 101, 116,
        61, 117, 116, 102, 45, 56,
    ]
}

pub(crate) fn content_type_key_bytes() -> (r: Vec<u8>)
    ensures
        r@ == content_type_key(),
{
    vec![67, 111, 110, 116, 101, 110, 116, 45, 84, 121, 112, 101]
}

pub(crate) fn content_length_key_bytes() -> (r: Vec<u8>)
    ensures
        r@ == content_length_key(),
{
    vec![67, 111, 110, 116, 101, 110, 116, 45, 76, 101, 110, 103, 116, 104]
}

pub(crate) fn default_content_type_bytes() -> (r: Vec<u8>)
    ensures
        r@ == default_content_type(),
{
    vec![
        116, 101, 120, 116, 47, 104, 116, 109, 108, 59, 32, 99, 104, 97, 114, 115, 101, 116, 61,
        117, 116, 102, 45, 56,
    ]
}

/// `HTTP/1.0 <code> <reason>` and CRLF.
pub open spec fn status_line(c: HTTPResponseCode) -> Seq<u8> {
    version_10() + seq![SP] + decimal(c.value()) + seq![SP] + c.reason() + crlf()
}

/// Status line, header lines, and the blank line that ends the head.
pub open spec fn response_head_bytes(c: HTTPResponseCode, e: HeaderSeq) -> Seq<u8> {
    status_line(c) + header_block(e) + crlf()
}

/// The headers as sent: a default Content-Type when there is none, and a
/// Content-Length when there is none and the length of the body is known.
pub open spec fn with_defaults(e: HeaderSeq, length: Option<u64>) -> HeaderSeq {
    let typed = if has_key(e, content_type_key()) {
        e
    } else {
        e.push((content_type_key(), default_content_type()))
    };
    match length {
        Some(n) => if has_key(typed, content_length_key()) {
            typed
        } else {
            typed.push((content_length_key(), decimal(n as nat)))
        },
        None => typed,
    }
}

/// The length a response declares, or else the one its body writer knows.
pub open spec fn known_length(declared: Option<u64>, from_writer: Option<u64>) -> Option<u64> {
    match declared {
        Some(n) => Some(n),
        None => from_writer,
    }
}

/// `<h1>`
pub open spec fn h1_open() -> Seq<u8> {
    seq![60u8, 104, 49, 62]
}

/// `</h1>`
pub open spec fn h1_close() -> Seq<u8> {
    seq![60u8, 47, 104, 49, 62]
}

/// The body of a generated error page: `<h1><code> <phrase></h1>`.
pub open spec fn error_page_body(c: HTTPResponseCode) -> Seq<u8> {
    h1_open() + decimal(c.value()) + seq![SP] + c.page_phrase() + h1_close()
}

/// The headers of a generated error page, before defaults are added.
pub open spec fn error_page_headers() -> HeaderSeq {
    seq![(content_type_key(), default_content_type())]
}

/// A generated error page as it goes on the wire.
pub open spec fn error_page_bytes(c: HTTPResponseCode) -> Seq<u8> {
    response_head_bytes(
        c,
        with_defaults(error_page_headers(), Some(error_page_body(c).len() as u64)),
    ) + error_page_body(c)
}

/// What a handler answers with: status, headers, and the body length if the
/// handler declares one.
pub struct HTTPResponse {
    pub code: HTTPResponseCode,
    pub headers: HTTPHeaders,
    pub content_length: Option<u64>,
}

/// Where a response goes, byte by byte.
pub trait ResponseSink {
    fn write_bytes(&mut self, data: &[u8]) -> Result<(), ()>;

    fn flush(&mut self) -> Result<(), ()>;
}

impl ResponseSink for Vec<u8> {
    fn write_bytes(&mut self, data: &[u8]) -> Result<(), ()> {
        push_all(self, data);
        Ok(())
    }

    fn flush(&mut self) -> Result<(), ()> {
        Ok(())
    }
}

/// Writes the body of one response; used once.
pub trait HTTPResponseWriter<S: ResponseSink> {
    /// The exact number of bytes `write_data` writes, where it is known in advance.
    fn get_content_length(&self) -> Option<u64>;

    fn write_data(&self, stream: &mut S) -> Result<(), ()>;
}

/// A body held in memory.
pub struct BytesResponseWriter {
    bytes: Vec<u8>,
}

impl View for BytesResponseWriter {
    type V = Seq<u8>;

    closed spec fn view(&self) -> Seq<u8> {
        self.bytes@
    }
}

impl BytesResponseWriter {
    pub fn new(bytes: Vec<u8>) -> (r: BytesResponseWriter)
        ensures
            r@ == bytes@,
    {
        BytesResponseWriter { bytes }
    }

    pub fn bytes(&self) -> (r: &Vec<u8>)
        ensures
            r@ == self@,
    {
        &self.bytes
    }

    pub fn length(&self) -> (r: u64)
        ensures
            r as nat == self@.len(),
    {
        let n: usize = self.bytes.len();
        n as u64
    }
}

impl<S: ResponseSink> HTTPResponseWriter<S> for BytesResponseWriter {
    fn get_content_length(&self) -> Option<u64> {
        Some(self.length())
    }

    fn write_data(&self, stream: &mut S) -> Result<(), ()> {
        stream.write_bytes(self.bytes.as_slice())
    }
}

/// Adds the default Content-Type, and the Content-Length when `length` is known.
pub fn update_response_headers(headers: &mut HTTPHeaders, length: Option<u64>)
    ensures
        final(headers)@ == with_defaults(old(headers)@, length),
{
    let type_key = content_type_key_bytes();
    if !headers.contains_key(type_key.as_slice()) {
        headers.insert(type_key, default_content_type_bytes());
    }
    match length {
        Some(n) => {
            let length_key = content_length_key_bytes();
            if !headers.contains_key(length_key.as_slice()) {
                headers.insert(length_key, decimal_bytes(n));
            }
        },
        None => {},
    }
}

/// The status line.
pub fn write_status_line(out: &mut Vec<u8>, code: HTTPResponseCode)
    ensures
        final(out)@ == old(out)@ + status_line(code),
{
    let version: Vec<u8> = vec![72, 84, 84, 80, 47, 49, 46, 48];
    push_all(out, version.as_slice());
    out.push(SP);
    push_all(out, code.code_text().as_slice());
    out.push(SP);
    push_all(out, code.reason_phrase().as_slice());
    out.push(CR);
    out.push(LF);
    assert(final(out)@ =~= old(out)@ + status_line(code));
}

/// Status line, header lines in stored order, and the blank line.
pub fn start_http_response(code: HTTPResponseCode, headers: &HTTPHeaders) -> (r: Vec<u8>)
    ensures
        r@ == response_head_bytes(code, headers@),
{
    let mut out: Vec<u8> = Vec::new();
    write_status_line(&mut out, code);
    write_header_block(&mut out, headers);
    out.push(CR);
    out.push(LF);
    assert(out@ =~= response_head_bytes(code, headers@));
    out
}

/// The head of `response` as sent, the defaults added; `from_writer` is the
/// length the body writer reports, used when the response declares none.
pub fn response_head(response: HTTPResponse, from_writer: Option<u64>) -> (r: Vec<u8>)
    ensures
        r@ == response_head_bytes(
            response.code,
            with_defaults(response.headers@, known_length(response.content_length, from_writer)),
        ),
{
    let HTTPResponse { code, headers, content_length } = response;
    let mut headers = headers;
    let length = match content_length {
        Some(n) => Some(n),
        None => from_writer,
    };
    update_response_headers(&mut headers, length);
    start_http_response(code, &headers)
}

/// The body of the page sent for `code` when the server answers by itself.
pub fn error_page_content(code: HTTPResponseCode) -> (r: Vec<u8>)
    ensures
        r@ == error_page_body(code),
{
    let mut out: Vec<u8> = vec![60, 104, 49, 62];
    push_all(&mut out, code.code_text().as_slice());
    out.push(SP);
    push_all(&mut out, code.error_phrase().as_slice());
    let close: Vec<u8> = vec![60, 47, 104, 49, 62];
    push_all(&mut out, close.as_slice());
    assert(out@ =~= error_page_body(code));
    out
}

/// The response the server sends by itself for `code`: an HTML page that
/// names the code, with its length declared.
pub fn error_page_response(code: HTTPResponseCode) -> (r: (HTTPResponse, BytesResponseWriter))
    ensures
        r.0.code == code,
        r.0.headers@ == error_page_headers(),
        r.0.content_length == Some(error_page_body(code).len() as u64),
        r.1@ == error_page_body(code),
{
    let body = error_page_content(code);
    let mut headers = HTTPHeaders::new();
    headers.insert(content_type_key_bytes(), default_content_type_bytes());
    assert(headers@ =~= error_page_headers());
    let writer = BytesResponseWriter::new(body);
    let length = writer.length();
    (HTTPResponse { code, headers, content_length: Some(length) }, writer)
}

/// The whole error page for `code`, head and body.
pub fn error_page_message(code: HTTPResponseCode) -> (r: Vec<u8>)
    ensures
        r@ == error_page_bytes(code),
{
    let (response, writer) = error_page_response(code);
    let mut out = response_head(response, None);
    push_all(&mut out, writer.bytes().as_slice());
    out
}

} // verus!
