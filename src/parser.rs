//! The request parser: CRLF-terminated lines, a request line, header lines,
//! and a blank line that ends the head.
use vstd::prelude::*;
use crate::bytes::{
    bytes_equal, find_byte, find_line_break, first_break, first_byte, LF, SP, COLON,
};
use crate::headers::{entries_insert, HTTPHeader, HTTPHeaders, HeaderSeq};
use crate::message::{method_of, HTTPMethod};
use crate::request::HTTPRequest;

verus! {

/// `HTTP/1.0`
pub open spec fn version_10() -> Seq<u8> {
    seq![72u8, 84, 84, 80, 47, 49, 46, 48]
}

/// `HTTP/1.1`
pub open spec fn version_11() -> Seq<u8> {
    seq![72u8, 84, 84, 80, 47, 49, 46, 49]
}

pub open spec fn is_version(s: Seq<u8>) -> bool {
    s == version_10() || s == version_11()
}

/// A request line `<METHOD> <PATH> <VERSION>`: the method and the path it
/// gives, or `None` when the line breaks the grammar.
pub open spec fn request_line(line: Seq<u8>) -> Option<(HTTPMethod, Seq<u8>)> {
    let i = first_byte(line, SP) as int;
    let rest = line.subrange(i + 1, line.len() as int);
    let j = first_byte(rest, SP) as int;
    if i >= line.len() || j >= rest.len() {
        None
    } else if !is_version(rest.subrange(j + 1, rest.len() as int)) {
        None
    } else {
        match method_of(line.subrange(0, i)) {
            Some(m) => Some((m, rest.subrange(0, j))),
            None => None,
        }
    }
}

/// A header line `<Key>: <Value>`: the first colon ends the key, which is not
/// empty; one space after it is required and dropped; the rest is the value.
pub open spec fn header_line(line: Seq<u8>) -> Option<(Seq<u8>, Seq<u8>)> {
    let c = first_byte(line, COLON) as int;
    if c == 0 || c + 1 >= line.len() || line[c + 1] != SP {
        None
    } else {
        Some((line.subrange(0, c), line.subrange(c + 2, line.len() as int)))
    }
}

/// What the input holds at its start: a whole CRLF-terminated line, a line
/// ended any other way, or not yet the end of a line.
pub enum LineStatus {
    Complete,
    Broken,
    Partial,
}

pub open spec fn line_status(s: Seq<u8>) -> LineStatus {
    let e = first_break(s) as int;
    if e >= s.len() {
        LineStatus::Partial
    } else if s[e] == LF {
        LineStatus::Broken
    } else if e + 1 >= s.len() {
        LineStatus::Partial
    } else if s[e + 1] != LF {
        LineStatus::Broken
    } else {
        LineStatus::Complete
    }
}

/// The result of reading header lines: the headers and the number of bytes
/// up to and including the blank line, or a failure.
pub enum HeaderParse {
    Done(HeaderSeq, nat),
    Malformed,
    Incomplete,
}

pub open spec fn shift(r: HeaderParse, d: nat) -> HeaderParse {
    match r {
        HeaderParse::Done(h, n) => HeaderParse::Done(h, n + d),
        _ => r,
    }
}

/// Reads header lines from the start of `s` into `acc` until a blank line.
pub open spec fn parse_header_block(s: Seq<u8>, acc: HeaderSeq) -> HeaderParse
    decreases s.len(),
{
    let e = first_break(s) as int;
    match line_status(s) {
        LineStatus::Partial => HeaderParse::Incomplete,
        LineStatus::Broken => HeaderParse::Malformed,
        LineStatus::Complete => {
            if e == 0 {
                HeaderParse::Done(acc, 2)
            } else {
                match header_line(s.subrange(0, e)) {
                    None => HeaderParse::Malformed,
                    Some(kv) => shift(
                        parse_header_block(
                            s.subrange(e + 2, s.len() as int),
                            entries_insert(acc, kv.0, kv.1),
                        ),
                        (e + 2) as nat,
                    ),
                }
            }
        },
    }
}

/// The result of reading a request head.
pub enum HeadParse {
    /// Method, path, headers, and the length of the head in bytes.
    Parsed(HTTPMethod, Seq<u8>, HeaderSeq, nat),
    Malformed,
    Incomplete,
}

/// Reads a request head from the start of `s`.
pub open spec fn parse_head(s: Seq<u8>) -> HeadParse {
    let e = first_break(s) as int;
    match line_status(s) {
        LineStatus::Partial => HeadParse::Incomplete,
        LineStatus::Broken => HeadParse::Malformed,
        LineStatus::Complete => match request_line(s.subrange(0, e)) {
            None => HeadParse::Malformed,
            Some(mp) => match parse_header_block(s.subrange(e + 2, s.len() as int), Seq::empty()) {
                HeaderParse::Done(h, n) => HeadParse::Parsed(mp.0, mp.1, h, (n + e + 2) as nat),
                HeaderParse::Malformed => HeadParse::Malformed,
                HeaderParse::Incomplete => HeadParse::Incomplete,
            },
        },
    }
}

/// What `parse_http_request` found.
pub enum ParseOutcome {
    /// The request head, and the number of bytes it took; the request body
    /// starts right after them.
    Parsed(HTTPRequest, usize),
    /// The bytes break the request grammar.
    Malformed,
    /// The bytes end before the head does.
    Incomplete,
}

impl View for ParseOutcome {
    type V = HeadParse;

    open spec fn view(&self) -> HeadParse {
        match self {
            ParseOutcome::Parsed(req, n) => HeadParse::Parsed(
                req.method,
                req.path@,
                req.headers@,
                *n as nat,
            ),
            ParseOutcome::Malformed => HeadParse::Malformed,
            ParseOutcome::Incomplete => HeadParse::Incomplete,
        }
    }
}

proof fn lemma_shift_shift(r: HeaderParse, a: nat, b: nat)
    ensures
        shift(shift(r, a), b) == shift(r, a + b),
{
}

/// One header line read off the front of `t`.
proof fn lemma_header_step(t: Seq<u8>, acc: HeaderSeq, e: int, kv: (Seq<u8>, Seq<u8>))
    requires
        line_status(t) == LineStatus::Complete,
        e == first_break(t),
        e > 0,
        header_line(t.subrange(0, e)) == Some(kv),
    ensures
        parse_header_block(t, acc) == shift(
            parse_header_block(t.subrange(e + 2, t.len() as int), entries_insert(acc, kv.0, kv.1)),
            (e + 2) as nat,
        ),
{
}

/// The blank line that ends the head, at the front of `t`.
proof fn lemma_header_end(t: Seq<u8>, acc: HeaderSeq)
    requires
        line_status(t) == LineStatus::Complete,
        first_break(t) == 0,
    ensures
        parse_header_block(t, acc) == HeaderParse::Done(acc, 2),
{
}

enum LineScan {
    Line(usize),
    Broken,
    Partial,
}

/// Looks for the end of the line that starts at `start`.
fn scan_line(buf: &[u8], start: usize) -> (r: LineScan)
    requires
        start <= buf@.len(),
    ensures
        ({
            let s = buf@.subrange(start as int, buf@.len() as int);
            match r {
                LineScan::Line(e) => line_status(s) == LineStatus::Complete && e == start
                    + first_break(s) && e + 2 <= buf@.len(),
                LineScan::Broken => line_status(s) == LineStatus::Broken,
                LineScan::Partial => line_status(s) == LineStatus::Partial,
            }
        }),
{
    let e = find_line_break(buf, start);
    if e >= buf.len() {
        LineScan::Partial
    } else if buf[e] == LF {
        LineScan::Broken
    } else if e + 1 >= buf.len() {
        LineScan::Partial
    } else if buf[e + 1] != LF {
        LineScan::Broken
    } else {
        LineScan::Line(e)
    }
}

/// Reads a request line; `None` when it breaks the grammar.
pub fn parse_request_line(line: &[u8]) -> (r: Option<(HTTPMethod, Vec<u8>)>)
    ensures
        match r {
            Some((m, p)) => request_line(line@) == Some((m, p@)),
            None => request_line(line@) is None,
        },
{
    let len = line.len();
    assert(line@.subrange(0, len as int) =~= line@);
    let i = find_byte(line, 0, len, SP);
    if i >= len {
        return None;
    }
    let j = find_byte(line, i + 1, len, SP);
    if j >= len {
        return None;
    }
    let ghost rest = line@.subrange(i + 1, len as int);
    let version = &line[j + 1..len];
    assert(version@ =~= rest.subrange(j - i, rest.len() as int));
    let v10: Vec<u8> = vec![72, 84, 84, 80, 47, 49, 46, 48];
    let v11: Vec<u8> = vec![72, 84, 84, 80, 47, 49, 46, 49];
    if !bytes_equal(version, v10.as_slice()) && !bytes_equal(version, v11.as_slice()) {
        return None;
    }
    let token = &line[0..i];
    match HTTPMethod::from_bytes(token) {
        Some(m) => {
            let path = vstd::slice::slice_to_vec(&line[i + 1..j]);
            assert(path@ =~= rest.subrange(0, j - i - 1));
            Some((m, path))
        },
        None => None,
    }
}

/// Reads a header line; `None` when it breaks the grammar.
pub fn parse_header_line(line: &[u8]) -> (r: Option<HTTPHeader>)
    ensures
        match r {
            Some(h) => header_line(line@) == Some(h@),
            None => header_line(line@) is None,
        },
{
    let len = line.len();
    assert(line@.subrange(0, len as int) =~= line@);
    let c = find_byte(line, 0, len, COLON);
    if c == 0 || len - c <= 1 || line[c + 1] != SP {
        return None;
    }
    let key = vstd::slice::slice_to_vec(&line[0..c]);
    let value = vstd::slice::slice_to_vec(&line[c + 2..len]);
    Some(HTTPHeader::new(key, value))
}

/// Reads a request head from the start of `buf`.
#[verifier::rlimit(30)]
pub fn parse_http_request(buf: &[u8]) -> (r: ParseOutcome)
    ensures
        r@ == parse_head(buf@),
        match r {
            ParseOutcome::Parsed(_, n) => n <= buf@.len(),
            _ => true,
        },
{
    let ghost s = buf@;
    let len = buf.len();
    assert(s.subrange(0, s.len() as int) =~= s);
    let e0 = match scan_line(buf, 0) {
        LineScan::Partial => return ParseOutcome::Incomplete,
        LineScan::Broken => return ParseOutcome::Malformed,
        LineScan::Line(e) => e,
    };
    assert(buf@.subrange(0, e0 as int) =~= s.subrange(0, e0 as int));
    let (method, path) = match parse_request_line(&buf[0..e0]) {
        None => return ParseOutcome::Malformed,
        Some(mp) => mp,
    };
    let first: usize = e0 + 2;
    let mut pos: usize = first;
    let mut headers = HTTPHeaders::new();
    loop
        invariant
            first <= pos <= buf@.len(),
            len == buf@.len(),
            s == buf@,
            first == e0 + 2,
            e0 == first_break(s),
            line_status(s) == LineStatus::Complete,
            request_line(s.subrange(0, e0 as int)) == Some((method, path@)),
            parse_header_block(s.subrange(first as int, s.len() as int), Seq::empty()) == shift(
                parse_header_block(s.subrange(pos as int, s.len() as int), headers@),
                (pos - first) as nat,
            ),
        decreases buf@.len() - pos,
    {
        let ghost t = s.subrange(pos as int, s.len() as int);
        let ghost before = headers@;
        match scan_line(buf, pos) {
            LineScan::Partial => {
                return ParseOutcome::Incomplete;
            },
            LineScan::Broken => {
                return ParseOutcome::Malformed;
            },
            LineScan::Line(end) => {
                if end == pos {
                    proof {
                        lemma_header_end(t, before);
                    }
                    let req = HTTPRequest::new(method, path, headers);
                    return ParseOutcome::Parsed(req, end + 2);
                }
                assert(buf@.subrange(pos as int, end as int) =~= t.subrange(0, end - pos));
                match parse_header_line(&buf[pos..end]) {
                    None => {
                        return ParseOutcome::Malformed;
                    },
                    Some(h) => {
                        headers.insert(h.key, h.value);
                        proof {
                            let u = t.subrange(end - pos + 2, t.len() as int);
                            assert(u =~= s.subrange(end + 2, s.len() as int));
                            lemma_header_step(t, before, end - pos, h@);
                            lemma_shift_shift(
                                parse_header_block(u, headers@),
                                (end - pos + 2) as nat,
                                (pos - first) as nat,
                            );
                        }
                        pos = end + 2;
                    },
                }
            },
        }
    }
}

} // verus!
