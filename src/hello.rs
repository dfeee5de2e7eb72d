//! A handler that greets `GET /` with a page listing the request's headers.
use vstd::prelude::*;
use crate::bytes::push_all;
use crate::handler::{HTTPRequestHandler, HandlerOutcome};
use crate::headers::{HTTPHeader, HTTPHeaders, HeaderSeq};
use crate::message::{HTTPMethod, HTTPResponseCode};
use crate::response::{
    content_type_key, content_type_key_bytes, default_content_type, default_content_type_bytes,
    error_page_body, error_page_response,
    BytesResponseWriter, HTTPResponse,
};

verus! {

/// `<h1>Hello world!</h1><p>Your headers:</p><table>`
pub open spec fn page_start() -> Seq<u8> {
    seq![
        60u8, 104, 49, 62, 72, 101, 108, 108, 111, 32, 119, 111, 114, 108, 100, 33, 60, 47, 104,
        49, 62, 60, 112, 62, 89, 111, 117, 114, 32, 104, 101, 97, 100, 101, 114, 115, 58, 60, 47,
        112, 62, 60, 116, 97, 98, 108, 101, 62,
    ]
}

/// `<tr><td><b>KEY</b></td><td>VALUE</td></tr>` and a line feed.
pub open spec fn header_row(h: (Seq<u8>, Seq<u8>)) -> Seq<u8> {
    seq![60u8, 116, 114, 62, 60, 116, 100, 62, 60, 98, 62] + h.0 + seq![
        60u8, 47, 98, 62, 60, 47, 116, 100, 62, 60, 116, 100, 62,
    ] + h.1 + seq![60u8, 47, 116, 100, 62, 60, 47, 116, 114, 62, 10]
}

pub open spec fn header_rows(e: HeaderSeq) -> Seq<u8>
    decreases e.len(),
{
    if e.len() == 0 {
        Seq::empty()
    } else {
        header_rows(e.drop_last()) + header_row(e.last())
    }
}

/// The greeting page for a request with headers `e`.
pub open spec fn hello_page(e: HeaderSeq) -> Seq<u8> {
    page_start() + header_rows(e) + seq![60u8, 47, 116, 97, 98, 108, 101, 62]
}

/// `/`
pub open spec fn root_path() -> Seq<u8> {
    seq![47u8]
}

/// The greeting page for a request with `headers`.
pub fn hello_world_page(headers: &HTTPHeaders) -> (r: Vec<u8>)
    ensures
        r@ == hello_page(headers@),
{
    let mut out: Vec<u8> = vec![
        60, 104, 49, 62, 72, 101, 108, 108, 111, 32, 119, 111, 114, 108, 100, 33, 60, 47, 104, 49,
        62, 60, 112, 62, 89, 111, 117, 114, 32, 104, 101, 97, 100, 101, 114, 115, 58, 60, 47, 112,
        62, 60, 116, 97, 98, 108, 101, 62,
    ];
    let row_open: Vec<u8> = vec![60, 116, 114, 62, 60, 116, 100, 62, 60, 98, 62];
    let row_middle: Vec<u8> = vec![60, 47, 98, 62, 60, 47, 116, 100, 62, 60, 116, 100, 62];
    let row_close: Vec<u8> = vec![60, 47, 116, 100, 62, 60, 47, 116, 114, 62, 10];
    let entries = headers.entries();
    let ghost e = headers@;
    let mut i: usize = 0;
    while i < entries.len()
        invariant
            0 <= i <= entries@.len(),
            entries@.map_values(|h: HTTPHeader| h@) == e,
            row_open@ == seq![60u8, 116, 114, 62, 60, 116, 100, 62, 60, 98, 62],
            row_middle@ == seq![60u8, 47, 98, 62, 60, 47, 116, 100, 62, 60, 116, 100, 62],
            row_close@ == seq![60u8, 47, 116, 100, 62, 60, 47, 116, 114, 62, 10],
            out@ == page_start() + header_rows(e.subrange(0, i as int)),
        decreases entries@.len() - i,
    {
        let h = &entries[i];
        push_all(&mut out, row_open.as_slice());
        push_all(&mut out, h.key.as_slice());
        push_all(&mut out, row_middle.as_slice());
        push_all(&mut out, h.value.as_slice());
        push_all(&mut out, row_close.as_slice());
        proof {
            let p = e.subrange(0, i + 1);
            assert(p.drop_last() =~= e.subrange(0, i as int));
            assert(p.last() == h@);
            assert(out@ =~= page_start() + header_rows(p));
        }
        i = i + 1;
    }
    assert(e.subrange(0, i as int) =~= e);
    let close: Vec<u8> = vec![60, 47, 116, 97, 98, 108, 101, 62];
    push_all(&mut out, close.as_slice());
    assert(out@ =~= hello_page(e));
    out
}

/// `GET /` gets the greeting page; another path gets the 404 page, and
/// another method the 400 page.
pub fn hello_world_handler(method: HTTPMethod, path: &[u8], headers: &HTTPHeaders) -> (r: (
    HTTPResponse,
    BytesResponseWriter,
))
    ensures
        method == HTTPMethod::GET && path@ == root_path() ==> {
            &&& r.0.code == HTTPResponseCode::HTTP200
            &&& r.0.headers@ == seq![(content_type_key(), default_content_type())]
            &&& r.0.content_length is None
            &&& r.1@ == hello_page(headers@)
        },
        method == HTTPMethod::GET && path@ != root_path() ==> {
            &&& r.0.code == HTTPResponseCode::HTTP404
            &&& r.1@ == error_page_body(HTTPResponseCode::HTTP404)
        },
        method != HTTPMethod::GET ==> {
            &&& r.0.code == HTTPResponseCode::HTTP400
            &&& r.1@ == error_page_body(HTTPResponseCode::HTTP400)
        },
{
    match method {
        HTTPMethod::GET => {
            if path.len() == 1 && path[0] == 47 {
                assert(path@ =~= root_path());
                let mut page_headers = HTTPHeaders::new();
                page_headers.insert(content_type_key_bytes(), default_content_type_bytes());
                assert(page_headers@ =~= seq![(content_type_key(), default_content_type())]);
                let response = HTTPResponse {
                    code: HTTPResponseCode::HTTP200,
                    headers: page_headers,
                    content_length: None,
                };
                (response, BytesResponseWriter::new(hello_world_page(headers)))
            } else {
                assert(path@ != root_path()) by {
                    if path@ == root_path() {
                        assert(path@[0] == 47);
                    }
                }
                error_page_response(HTTPResponseCode::HTTP404)
            }
        },
        _ => error_page_response(HTTPResponseCode::HTTP400),
    }
}

/// The greeting handler, as a handler the server can run.
pub struct HelloWorldPage;

impl<R> HTTPRequestHandler<R, BytesResponseWriter> for HelloWorldPage {
    fn handle(
        &self,
        method: HTTPMethod,
        path: &Vec<u8>,
        headers: &HTTPHeaders,
        stream: R,
    ) -> HandlerOutcome<BytesResponseWriter> {
        let (response, writer) = hello_world_handler(method, path.as_slice(), headers);
        HandlerOutcome::Respond(response, writer)
    }
}

} // verus!
