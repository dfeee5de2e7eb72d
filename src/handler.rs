//! The handler interface and the exchange that drives it.
use vstd::prelude::*;
use crate::bytes::push_all;
use crate::headers::HTTPHeaders;
use crate::message::{HTTPMethod, HTTPResponseCode};
use crate::parser::{parse_head, parse_http_request, ParseOutcome};
use crate::response::{
    error_page_bytes, error_page_message, known_length, response_head, response_head_bytes,
    with_defaults, BytesResponseWriter, HTTPResponse, HTTPResponseWriter,
};

verus! {

/// What a handler answers.
pub enum HandlerOutcome<B> {
    /// A response, and the writer of its body.
    Respond(HTTPResponse, B),
    /// The handler does not take the request.
    Decline,
    /// The handler failed.
    Fault,
}

/// User logic behind the server. `R` is the rest of the request stream, which
/// the handler owns for the call; `B` writes response bodies. One handler
/// serves every connection, so any state it changes needs its own locking.
pub trait HTTPRequestHandler<R, B> {
    fn handle(
        &self,
        method: HTTPMethod,
        path: &Vec<u8>,
        headers: &HTTPHeaders,
        stream: R,
    ) -> HandlerOutcome<B>;
}

pub open spec fn starts_with(s: Seq<u8>, prefix: Seq<u8>) -> bool {
    prefix.len() <= s.len() && s.subrange(0, prefix.len() as int) == prefix
}

/// `r` is what goes out for the handler's answer `outcome`.
pub open spec fn answers<B>(outcome: HandlerOutcome<B>, r: Seq<u8>) -> bool {
    match outcome {
        HandlerOutcome::Respond(resp, _) => exists|from_writer: Option<u64>|
            #[trigger] starts_with(
                r,
                response_head_bytes(
                    resp.code,
                    with_defaults(resp.headers@, known_length(resp.content_length, from_writer)),
                ),
            ),
        HandlerOutcome::Decline => r == error_page_bytes(HTTPResponseCode::HTTP400),
        HandlerOutcome::Fault => r == error_page_bytes(HTTPResponseCode::HTTP500),
    }
}

/// The bytes sent for a handler's answer. A declined request gets the 400
/// page and a failed handler the 500 page. A response gets its head, the
/// defaults added, then whatever its writer writes; a write that fails ends
/// the body where it stopped.
pub fn respond<B: HTTPResponseWriter<Vec<u8>>>(outcome: HandlerOutcome<B>) -> (r: Vec<u8>)
    ensures
        answers(outcome, r@),
{
    match outcome {
        HandlerOutcome::Respond(response, writer) => {
            let from_writer = match response.content_length {
                Some(_) => None,
                None => writer.get_content_length(),
            };
            let ghost head = response_head_bytes(
                response.code,
                with_defaults(response.headers@, known_length(response.content_length, from_writer)),
            );
            let mut out = response_head(response, from_writer);
            let mut body: Vec<u8> = Vec::new();
            let _ = writer.write_data(&mut body);
            push_all(&mut out, body.as_slice());
            assert(out@.subrange(0, head.len() as int) =~= head);
            assert(starts_with(out@, head));
            out
        },
        HandlerOutcome::Decline => error_page_message(HTTPResponseCode::HTTP400),
        HandlerOutcome::Fault => error_page_message(HTTPResponseCode::HTTP500),
    }
}

/// Serves one connection whose whole input is `input`, and returns what goes
/// back to the client. Input that ends before the request head does is a
/// connection error, and nothing is sent. A malformed head gets the 400 page
/// and never reaches the handler. A parsed head goes to the handler with the
/// bytes that follow it.
pub fn serve_buffered<H, B>(handler: &H, input: &[u8]) -> (r: Option<Vec<u8>>)
    where
        H: HTTPRequestHandler<Vec<u8>, B>,
        B: HTTPResponseWriter<Vec<u8>>,
    ensures
        r is None <==> parse_head(input@) is Incomplete,
        parse_head(input@) is Malformed ==> r.unwrap()@ == error_page_bytes(HTTPResponseCode::HTTP400),
        parse_head(input@) is Parsed ==> exists|outcome: HandlerOutcome<B>|
            #[trigger] answers(outcome, r.unwrap()@),
{
    match parse_http_request(input) {
        ParseOutcome::Incomplete => None,
        ParseOutcome::Malformed => Some(error_page_message(HTTPResponseCode::HTTP400)),
        ParseOutcome::Parsed(request, n) => {
            let rest = vstd::slice::slice_to_vec(&input[n..input.len()]);
            let outcome = handler.handle(request.method, &request.path, &request.headers, rest);
            let ghost answer = outcome;
            let r = Some(respond(outcome));
            assert(answers(answer, r.unwrap()@));
            r
        },
    }
}

/// Answers every request with status 200 and the same body.
pub struct StaticHandler {
    bytes: Vec<u8>,
}

impl StaticHandler {
    pub fn new(bytes: Vec<u8>) -> (r: StaticHandler)
        ensures
            r.body() == bytes@,
    {
        StaticHandler { bytes }
    }

    pub closed spec fn body(&self) -> Seq<u8> {
        self.bytes@
    }

    /// The response this handler gives to every request.
    pub fn response(&self) -> (r: (HTTPResponse, BytesResponseWriter))
        ensures
            r.0.code == HTTPResponseCode::HTTP200,
            r.0.headers@.len() == 0,
            r.0.content_length is None,
            r.1@ == self.body(),
    {
        let response = HTTPResponse {
            code: HTTPResponseCode::HTTP200,
            headers: HTTPHeaders::new(),
            content_length: None,
        };
        (response, BytesResponseWriter::new(self.bytes.clone()))
    }
}

impl<R> HTTPRequestHandler<R, BytesResponseWriter> for StaticHandler {
    fn handle(
        &self,
        method: HTTPMethod,
        path: &Vec<u8>,
        headers: &HTTPHeaders,
        stream: R,
    ) -> HandlerOutcome<BytesResponseWriter> {
        let (response, writer) = self.response();
        HandlerOutcome::Respond(response, writer)
    }
}

} // verus!
