//! What the parser makes of well-formed input, and how parsing and the
//! serialization of headers fit together.
use vstd::prelude::*;
use crate::bytes::{
    crlf, first_break, is_line_break, lacks_byte, lacks_line_break,
    lemma_first_break_at, lemma_first_byte_at, COLON, CR, LF, SP,
};
use crate::headers::{
    entries_insert, has_key, header_block, header_line_bytes, header_map, keys_unique,
    lemma_has_key_dom, lemma_insert_map, lemma_insert_unique, HeaderSeq,
};
use crate::message::{lemma_method_round_trip, HTTPMethod};
use crate::parser::{
    header_line, is_version, line_status, parse_head, parse_header_block, request_line,
    version_10, HeadParse, HeaderParse, LineStatus,
};

verus! {

/// `<METHOD> <PATH> <VERSION>` and CRLF.
pub open spec fn request_line_bytes(m: HTTPMethod, p: Seq<u8>, v: Seq<u8>) -> Seq<u8> {
    m.token() + seq![SP] + p + seq![SP] + v + crlf()
}

/// A request head: request line, header lines, blank line.
pub open spec fn head_bytes(m: HTTPMethod, p: Seq<u8>, v: Seq<u8>, hs: HeaderSeq) -> Seq<u8> {
    request_line_bytes(m, p, v) + header_block(hs) + crlf()
}

/// A path that can stand in a request line.
pub open spec fn valid_path(p: Seq<u8>) -> bool {
    lacks_byte(p, SP) && lacks_line_break(p)
}

/// A pair that can stand in a header line.
pub open spec fn valid_header(h: (Seq<u8>, Seq<u8>)) -> bool {
    h.0.len() > 0 && lacks_byte(h.0, COLON) && lacks_line_break(h.0) && lacks_line_break(h.1)
}

pub open spec fn valid_headers(hs: HeaderSeq) -> bool {
    forall|i: int| 0 <= i < hs.len() ==> #[trigger] valid_header(hs[i])
}

/// Inserts the pairs of `hs` into `acc`, first to last.
pub open spec fn insert_into(acc: HeaderSeq, hs: HeaderSeq) -> HeaderSeq
    decreases hs.len(),
{
    if hs.len() == 0 {
        acc
    } else {
        insert_into(entries_insert(acc, hs[0].0, hs[0].1), hs.drop_first())
    }
}

proof fn lemma_line_then(line: Seq<u8>, rest: Seq<u8>)
    requires
        lacks_line_break(line),
    ensures
        first_break(line + crlf() + rest) == line.len(),
        line_status(line + crlf() + rest) == LineStatus::Complete,
        (line + crlf() + rest).subrange(0, line.len() as int) == line,
        (line + crlf() + rest).subrange(line.len() + 2int, (line + crlf() + rest).len() as int)
            == rest,
{
    let s = line + crlf() + rest;
    assert forall|j: int| 0 <= j < line.len() implies !is_line_break(s[j]) by {
        assert(s[j] == line[j]);
    }
    assert(s[line.len() as int] == CR);
    assert(s[line.len() + 1int] == LF);
    lemma_first_break_at(s, line.len() as int);
    assert(s.subrange(0, line.len() as int) =~= line);
    assert(s.subrange(line.len() + 2int, s.len() as int) =~= rest);
}

proof fn lemma_token_plain(m: HTTPMethod)
    ensures
        lacks_byte(m.token(), SP),
        lacks_line_break(m.token()),
{
    let t = m.token();
    assert forall|j: int| 0 <= j < t.len() implies t[j] != SP && !is_line_break(t[j]) by {
        assert(t[j] >= 65);
    }
}

proof fn lemma_version_plain(v: Seq<u8>)
    requires
        is_version(v),
    ensures
        lacks_line_break(v),
{
    assert forall|j: int| 0 <= j < v.len() implies !is_line_break(v[j]) by {
        assert(v[j] >= 46);
    }
}

proof fn lemma_request_line_of(m: HTTPMethod, p: Seq<u8>, v: Seq<u8>)
    requires
        valid_path(p),
        is_version(v),
    ensures
        request_line(m.token() + seq![SP] + p + seq![SP] + v) == Some((m, p)),
        lacks_line_break(m.token() + seq![SP] + p + seq![SP] + v),
{
    let t = m.token();
    let line = t + seq![SP] + p + seq![SP] + v;
    lemma_token_plain(m);
    lemma_version_plain(v);
    lemma_method_round_trip(m);
    assert forall|j: int| 0 <= j < t.len() implies line[j] != SP by {
        assert(line[j] == t[j]);
    }
    lemma_first_byte_at(line, SP, t.len() as int);
    let i = t.len() as int;
    let rest = line.subrange(i + 1, line.len() as int);
    assert(rest =~= p + seq![SP] + v);
    assert forall|j: int| 0 <= j < p.len() implies rest[j] != SP by {
        assert(rest[j] == p[j]);
    }
    lemma_first_byte_at(rest, SP, p.len() as int);
    assert(rest.subrange(p.len() + 1int, rest.len() as int) =~= v);
    assert(rest.subrange(0, p.len() as int) =~= p);
    assert(line.subrange(0, i) =~= t);
    assert forall|j: int| 0 <= j < line.len() implies !is_line_break(line[j]) by {
        if j < i {
            assert(line[j] == t[j]);
        } else if j == i {
        } else if j < i + 1 + p.len() {
            assert(line[j] == p[j - i - 1]);
        } else if j == i + 1 + p.len() {
        } else {
            assert(line[j] == v[j - i - 2 - p.len()]);
        }
    }
}

proof fn lemma_header_line_of(h: (Seq<u8>, Seq<u8>))
    requires
        valid_header(h),
    ensures
        header_line(h.0 + seq![COLON, SP] + h.1) == Some(h),
        lacks_line_break(h.0 + seq![COLON, SP] + h.1),
        header_line_bytes(h) == h.0 + seq![COLON, SP] + h.1 + crlf(),
{
    let line = h.0 + seq![COLON, SP] + h.1;
    let k = h.0;
    assert forall|j: int| 0 <= j < k.len() implies line[j] != COLON by {
        assert(line[j] == k[j]);
    }
    lemma_first_byte_at(line, COLON, k.len() as int);
    assert(line[k.len() + 1int] == SP);
    assert(line.subrange(0, k.len() as int) =~= k);
    assert(line.subrange(k.len() + 2int, line.len() as int) =~= h.1);
    assert forall|j: int| 0 <= j < line.len() implies !is_line_break(line[j]) by {
        if j < k.len() {
            assert(line[j] == k[j]);
        } else if j < k.len() + 2 {
        } else {
            assert(line[j] == h.1[j - k.len() - 2]);
        }
    }
}

/// The header lines of a list, taken from the front.
proof fn lemma_block_front(hs: HeaderSeq)
    requires
        hs.len() > 0,
    ensures
        header_block(hs) == header_line_bytes(hs[0]) + header_block(hs.drop_first()),
    decreases hs.len(),
{
    if hs.len() == 1 {
        assert(hs.drop_first() =~= Seq::<(Seq<u8>, Seq<u8>)>::empty());
        assert(hs.drop_last() =~= Seq::<(Seq<u8>, Seq<u8>)>::empty());
        assert(header_block(hs) =~= header_line_bytes(hs[0]) + header_block(hs.drop_first()));
    } else {
        let d = hs.drop_last();
        lemma_block_front(d);
        assert(d.drop_first() =~= hs.drop_first().drop_last());
        assert(hs.drop_first().last() == hs.last());
        assert(header_block(hs) =~= header_line_bytes(hs[0]) + header_block(hs.drop_first()));
    }
}

/// A well-formed header block, then anything, read into `acc`.
proof fn lemma_parse_block(hs: HeaderSeq, acc: HeaderSeq, body: Seq<u8>)
    requires
        valid_headers(hs),
    ensures
        parse_header_block(header_block(hs) + crlf() + body, acc) == HeaderParse::Done(
            insert_into(acc, hs),
            (header_block(hs).len() + 2) as nat,
        ),
    decreases hs.len(),
{
    let s = header_block(hs) + crlf() + body;
    if hs.len() == 0 {
        assert(s =~= Seq::<u8>::empty() + crlf() + body);
        lemma_line_then(Seq::empty(), body);
    } else {
        let h = hs[0];
        let tail = hs.drop_first();
        assert(valid_header(h));
        assert(valid_headers(tail)) by {
            assert forall|i: int| 0 <= i < tail.len() implies #[trigger] valid_header(tail[i]) by {
                assert(tail[i] == hs[i + 1]);
            }
        }
        lemma_block_front(hs);
        lemma_header_line_of(h);
        let line = h.0 + seq![COLON, SP] + h.1;
        let rest = header_block(tail) + crlf() + body;
        assert(s =~= line + crlf() + rest);
        lemma_line_then(line, rest);
        lemma_parse_block(tail, entries_insert(acc, h.0, h.1), body);
    }
}

/// Any head built from a method, a path, a version and well-formed header
/// lines parses back to that method and path, with the headers inserted in
/// order, and takes exactly the bytes of the head.
pub proof fn lemma_parse_well_formed(
    m: HTTPMethod,
    p: Seq<u8>,
    v: Seq<u8>,
    hs: HeaderSeq,
    body: Seq<u8>,
)
    requires
        valid_path(p),
        is_version(v),
        valid_headers(hs),
    ensures
        parse_head(head_bytes(m, p, v, hs) + body) == HeadParse::Parsed(
            m,
            p,
            insert_into(Seq::empty(), hs),
            head_bytes(m, p, v, hs).len(),
        ),
{
    let line = m.token() + seq![SP] + p + seq![SP] + v;
    let rest = header_block(hs) + crlf() + body;
    let s = head_bytes(m, p, v, hs) + body;
    assert(s =~= line + crlf() + rest);
    lemma_request_line_of(m, p, v);
    lemma_line_then(line, rest);
    lemma_parse_block(hs, Seq::empty(), body);
}

/// A request line `<M> <P> HTTP/1.0` with a well-formed header block after
/// it parses to method `M` and path `P`, byte for byte.
pub proof fn law_request_line(m: HTTPMethod, p: Seq<u8>, hs: HeaderSeq, body: Seq<u8>)
    requires
        valid_path(p),
        valid_headers(hs),
    ensures
        match parse_head(head_bytes(m, p, version_10(), hs) + body) {
            HeadParse::Parsed(m2, p2, _, _) => m2 == m && p2 == p,
            _ => false,
        },
{
    lemma_parse_well_formed(m, p, version_10(), hs, body);
}

proof fn lemma_map_append(x1: HeaderSeq, x2: HeaderSeq, y: HeaderSeq)
    requires
        header_map(x1) == header_map(x2),
    ensures
        header_map(x1 + y) == header_map(x2 + y),
    decreases y.len(),
{
    if y.len() > 0 {
        lemma_map_append(x1, x2, y.drop_last());
        assert((x1 + y).drop_last() =~= x1 + y.drop_last());
        assert((x2 + y).drop_last() =~= x2 + y.drop_last());
    } else {
        assert(x1 + y =~= x1);
        assert(x2 + y =~= x2);
    }
}

proof fn lemma_insert_into(acc: HeaderSeq, hs: HeaderSeq)
    requires
        keys_unique(acc),
    ensures
        keys_unique(insert_into(acc, hs)),
        header_map(insert_into(acc, hs)) == header_map(acc + hs),
    decreases hs.len(),
{
    if hs.len() == 0 {
        assert(acc + hs =~= acc);
    } else {
        let h = hs[0];
        let next = entries_insert(acc, h.0, h.1);
        lemma_insert_unique(acc, h.0, h.1);
        lemma_insert_map(acc, h.0, h.1);
        lemma_insert_into(next, hs.drop_first());
        assert(acc.push(h).drop_last() =~= acc);
        assert(header_map(next) == header_map(acc.push(h)));
        lemma_map_append(next, acc.push(h), hs.drop_first());
        assert(acc.push(h) + hs.drop_first() =~= acc + hs);
    }
}

proof fn lemma_last_wins(hs: HeaderSeq, j: int)
    requires
        0 <= j < hs.len(),
        forall|l: int| j < l < hs.len() ==> hs[l].0 != hs[j].0,
    ensures
        header_map(hs).contains_key(hs[j].0),
        header_map(hs)[hs[j].0] == hs[j].1,
    decreases hs.len(),
{
    if j < hs.len() - 1 {
        let d = hs.drop_last();
        assert(d[j] == hs[j]);
        lemma_last_wins(d, j);
    }
}

/// The headers that a well-formed head parses to hold one entry for each
/// distinct key of its header lines, and under each key the value of the
/// last line that carries it.
pub proof fn law_last_header_wins(
    m: HTTPMethod,
    p: Seq<u8>,
    v: Seq<u8>,
    hs: HeaderSeq,
    body: Seq<u8>,
)
    requires
        valid_path(p),
        is_version(v),
        valid_headers(hs),
    ensures
        match parse_head(head_bytes(m, p, v, hs) + body) {
            HeadParse::Parsed(_, _, e, _) => {
                &&& keys_unique(e)
                &&& forall|k: Seq<u8>| has_key(e, k) <==> has_key(hs, k)
                &&& forall|j: int|
                    0 <= j < hs.len() && (forall|l: int| j < l < hs.len() ==> hs[l].0 != hs[j].0)
                        ==> #[trigger] header_map(e)[hs[j].0] == hs[j].1
            },
            _ => false,
        },
{
    lemma_parse_well_formed(m, p, v, hs, body);
    let empty = Seq::<(Seq<u8>, Seq<u8>)>::empty();
    let e = insert_into(empty, hs);
    lemma_insert_into(empty, hs);
    assert(empty + hs =~= hs);
    assert forall|k: Seq<u8>| has_key(e, k) <==> has_key(hs, k) by {
        lemma_has_key_dom(e, k);
        lemma_has_key_dom(hs, k);
    }
    assert forall|j: int|
        0 <= j < hs.len() && (forall|l: int| j < l < hs.len() ==> hs[l].0 != hs[j].0)
            implies #[trigger] header_map(e)[hs[j].0] == hs[j].1 by {
        lemma_last_wins(hs, j);
    }
}

proof fn lemma_insert_fresh(acc: HeaderSeq, hs: HeaderSeq)
    requires
        keys_unique(acc + hs),
    ensures
        insert_into(acc, hs) == acc + hs,
    decreases hs.len(),
{
    if hs.len() == 0 {
        assert(acc + hs =~= acc);
    } else {
        let h = hs[0];
        assert(!has_key(acc, h.0)) by {
            if has_key(acc, h.0) {
                let i = choose|i: int| 0 <= i < acc.len() && acc[i].0 == h.0;
                assert((acc + hs)[i].0 == (acc + hs)[acc.len() as int].0);
            }
        }
        assert(acc.push(h) + hs.drop_first() =~= acc + hs);
        lemma_insert_fresh(acc.push(h), hs.drop_first());
    }
}

proof fn lemma_insert_valid(acc: HeaderSeq, hs: HeaderSeq)
    requires
        valid_headers(acc),
        valid_headers(hs),
    ensures
        valid_headers(insert_into(acc, hs)),
    decreases hs.len(),
{
    if hs.len() > 0 {
        let h = hs[0];
        let next = entries_insert(acc, h.0, h.1);
        assert(valid_header(h));
        assert(valid_headers(next)) by {
            assert forall|i: int| 0 <= i < next.len() implies #[trigger] valid_header(next[i]) by {
                if i < acc.len() {
                    assert(valid_header(acc[i]));
                }
            }
        }
        let tail = hs.drop_first();
        assert(valid_headers(tail)) by {
            assert forall|i: int| 0 <= i < tail.len() implies #[trigger] valid_header(tail[i]) by {
                assert(tail[i] == hs[i + 1]);
            }
        }
        lemma_insert_valid(next, tail);
    }
}

/// Parsing a head, writing its header mapping out again as header lines, and
/// parsing those gives back the same entries: every key with its value.
pub proof fn law_header_round_trip(
    m: HTTPMethod,
    p: Seq<u8>,
    v: Seq<u8>,
    hs: HeaderSeq,
    body: Seq<u8>,
)
    requires
        valid_path(p),
        is_version(v),
        valid_headers(hs),
    ensures
        match parse_head(head_bytes(m, p, v, hs) + body) {
            HeadParse::Parsed(m2, p2, e, _) => match parse_head(head_bytes(m2, p2, v, e)) {
                HeadParse::Parsed(_, _, e2, _) => e2 == e && header_map(e2) == header_map(hs),
                _ => false,
            },
            _ => false,
        },
{
    lemma_parse_well_formed(m, p, v, hs, body);
    let empty = Seq::<(Seq<u8>, Seq<u8>)>::empty();
    let e = insert_into(empty, hs);
    lemma_insert_into(empty, hs);
    assert(empty + hs =~= hs);
    assert(valid_headers(empty));
    lemma_insert_valid(empty, hs);
    lemma_parse_well_formed(m, p, v, e, Seq::empty());
    assert(head_bytes(m, p, v, e) + Seq::<u8>::empty() =~= head_bytes(m, p, v, e));
    assert(empty + e =~= e);
    lemma_insert_fresh(empty, e);
}

} // verus!
