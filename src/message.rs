//! Request methods and response status codes.
use vstd::prelude::*;
use crate::bytes::{bytes_equal, decimal, decimal_bytes};

verus! {

/// The request methods this server understands.
#[derive(Clone, Copy, Debug, PartialEq, Eq, Structural)]
pub enum HTTPMethod {
    GET,
    POST,
    HEAD,
}

/// `GET`
pub open spec fn get_token() -> Seq<u8> {
    seq![71u8, 69, 84]
}

/// `POST`
pub open spec fn post_token() -> Seq<u8> {
    seq![80u8, 79, 83, 84]
}

/// `HEAD`
pub open spec fn head_token() -> Seq<u8> {
    seq![72u8, 69, 65, 68]
}

/// The method that a request-line token names, compared byte for byte.
pub open spec fn method_of(token: Seq<u8>) -> Option<HTTPMethod> {
    if token == get_token() {
        Some(HTTPMethod::GET)
    } else if token == post_token() {
        Some(HTTPMethod::POST)
    } else if token == head_token() {
        Some(HTTPMethod::HEAD)
    } else {
        None
    }
}

impl HTTPMethod {
    /// The token that names this method on the wire.
    pub open spec fn token(self) -> Seq<u8> {
        match self {
            HTTPMethod::GET => get_token(),
            HTTPMethod::POST => post_token(),
            HTTPMethod::HEAD => head_token(),
        }
    }

    /// The method's name, as it appears on the wire.
    pub fn name(&self) -> (r: Vec<u8>)
        ensures
            r@ == self.token(),
    {
        match self {
            HTTPMethod::GET => vec![71, 69, 84],
            HTTPMethod::POST => vec![80, 79, 83, 84],
            HTTPMethod::HEAD => vec![72, 69, 65, 68],
        }
    }

    /// Reads a method token; any token but the three names, in upper case, is refused.
    pub fn from_bytes(token: &[u8]) -> (r: Option<HTTPMethod>)
        ensures
            r == method_of(token@),
    {
        let get: Vec<u8> = vec![71, 69, 84];
        let post: Vec<u8> = vec![80, 79, 83, 84];
        let head: Vec<u8> = vec![72, 69, 65, 68];
        if bytes_equal(token, get.as_slice()) {
            Some(HTTPMethod::GET)
        } else if bytes_equal(token, post.as_slice()) {
            Some(HTTPMethod::POST)
        } else if bytes_equal(token, head.as_slice()) {
            Some(HTTPMethod::HEAD)
        } else {
            None
        }
    }
}

pub proof fn lemma_method_round_trip(m: HTTPMethod)
    ensures
        method_of(m.token()) == Some(m),
{
    assert(get_token() != post_token());
    assert(get_token() != head_token());
    assert(post_token() != head_token()) by {
        assert(post_token()[0] != head_token()[0]);
    }
}

/// The status codes a response can carry.
#[derive(Clone, Copy, Debug, PartialEq, Eq, Structural)]
pub enum HTTPResponseCode {
    HTTP200,
    HTTP301,
    HTTP302,
    HTTP400,
    HTTP401,
    HTTP403,
    HTTP404,
    HTTP500,
}

impl HTTPResponseCode {
    pub open spec fn value(self) -> nat {
        match self {
            HTTPResponseCode::HTTP200 => 200,
            HTTPResponseCode::HTTP301 => 301,
            HTTPResponseCode::HTTP302 => 302,
            HTTPResponseCode::HTTP400 => 400,
            HTTPResponseCode::HTTP401 => 401,
            HTTPResponseCode::HTTP403 => 403,
            HTTPResponseCode::HTTP404 => 404,
            HTTPResponseCode::HTTP500 => 500,
        }
    }

    /// The reason phrase of the status line.
    pub open spec fn reason(self) -> Seq<u8> {
        match self {
            // OK
            HTTPResponseCode::HTTP200 => seq![79u8, 75],
            // Moved
            HTTPResponseCode::HTTP301 => seq![77u8, 111, 118, 101, 100],
            // Moved Permanently
            HTTPResponseCode::HTTP302 => seq![
                77u8, 111, 118, 101, 100, 32, 80, 101, 114, 109, 97, 110, 101, 110, 116, 108, 121,
            ],
            // Bad Request
            HTTPResponseCode::HTTP400 => seq![66u8, 97, 100, 32, 82, 101, 113, 117, 101, 115, 116],
            // Method Not Allowed
            HTTPResponseCode::HTTP401 => seq![
                77u8, 101, 116, 104, 111, 100, 32, 78, 111, 116, 32, 65, 108, 108, 111, 119, 101,
                100,
            ],
            // Not Authorized
            HTTPResponseCode::HTTP403 => seq![
                78u8, 111, 116, 32, 65, 117, 116, 104, 111, 114, 105, 122, 101, 100,
            ],
            // Not Found
            HTTPResponseCode::HTTP404 => seq![78u8, 111, 116, 32, 70, 111, 117, 110, 100],
            // Server Error
            HTTPResponseCode::HTTP500 => seq![83u8, 101, 114, 118, 101, 114, 32, 69, 114, 114, 111, 114],
        }
    }

    /// The phrase of a generated error page; empty for codes that are no errors.
    pub open spec fn page_phrase(self) -> Seq<u8> {
        match self {
            HTTPResponseCode::HTTP400 => self.reason(),
            HTTPResponseCode::HTTP401 => self.reason(),
            // Access Denied
            HTTPResponseCode::HTTP403 => seq![
                65u8, 99, 99, 101, 115, 115, 32, 68, 101, 110, 105, 101, 100,
            ],
            HTTPResponseCode::HTTP404 => self.reason(),
            HTTPResponseCode::HTTP500 => self.reason(),
            _ => Seq::empty(),
        }
    }

    /// The numeric code.
    pub fn code(&self) -> (r: u16)
        ensures
            r as nat == self.value(),
    {
        match self {
            HTTPResponseCode::HTTP200 => 200,
            HTTPResponseCode::HTTP301 => 301,
            HTTPResponseCode::HTTP302 => 302,
            HTTPResponseCode::HTTP400 => 400,
            HTTPResponseCode::HTTP401 => 401,
            HTTPResponseCode::HTTP403 => 403,
            HTTPResponseCode::HTTP404 => 404,
            HTTPResponseCode::HTTP500 => 500,
        }
    }

    /// The numeric code as decimal text.
    pub fn code_text(&self) -> (r: Vec<u8>)
        ensures
            r@ == decimal(self.value()),
    {
        decimal_bytes(self.code() as u64)
    }

    /// The reason phrase of the status line.
    pub fn reason_phrase(&self) -> (r: Vec<u8>)
        ensures
            r@ == self.reason(),
    {
        match self {
            HTTPResponseCode::HTTP200 => vec![79, 75],
            HTTPResponseCode::HTTP301 => vec![77, 111, 118, 101, 100],
            HTTPResponseCode::HTTP302 => vec![
                77, 111, 118, 101, 100, 32, 80, 101, 114, 109, 97, 110, 101, 110, 116, 108, 121,
            ],
            HTTPResponseCode::HTTP400 => vec![66, 97, 100, 32, 82, 101, 113, 117, 101, 115, 116],
            HTTPResponseCode::HTTP401 => vec![
                77, 101, 116, 104, 111, 100, 32, 78, 111, 116, 32, 65, 108, 108, 111, 119, 101, 100,
            ],
            HTTPResponseCode::HTTP403 => vec![
                78, 111, 116, 32, 65, 117, 116, 104, 111, 114, 105, 122, 101, 100,
            ],
            HTTPResponseCode::HTTP404 => vec![78, 111, 116, 32, 70, 111, 117, 110, 100],
            HTTPResponseCode::HTTP500 => vec![83, 101, 114, 118, 101, 114, 32, 69, 114, 114, 111, 114],
        }
    }

    /// The phrase of a generated error page.
    pub fn error_phrase(&self) -> (r: Vec<u8>)
        ensures
            r@ == self.page_phrase(),
    {
        match self {
            HTTPResponseCode::HTTP403 => vec![
                65, 99, 99, 101, 115, 115, 32, 68, 101, 110, 105, 101, 100,
            ],
            HTTPResponseCode::HTTP400 => self.reason_phrase(),
            HTTPResponseCode::HTTP401 => self.reason_phrase(),
            HTTPResponseCode::HTTP404 => self.reason_phrase(),
            HTTPResponseCode::HTTP500 => self.reason_phrase(),
            _ => Vec::new(),
        }
    }
}

} // verus!
