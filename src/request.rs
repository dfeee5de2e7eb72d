//! The parsed head of a request.
use vstd::prelude::*;
use crate::headers::HTTPHeaders;
use crate::message::HTTPMethod;

verus! {

/// Method, raw path and header mapping of a request.
pub struct HTTPRequest {
    pub method: HTTPMethod,
    pub path: Vec<u8>,
    pub headers: HTTPHeaders,
}

impl HTTPRequest {
    pub fn new(method: HTTPMethod, path: Vec<u8>, headers: HTTPHeaders) -> (r: HTTPRequest)
        ensures
            r.method == method,
            r.path@ == path@,
            r.headers@ == headers@,
    {
        HTTPRequest { method, path, headers }
    }
}

} // verus!
