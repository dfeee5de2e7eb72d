//! Byte-level helpers shared by the parser and the response writer.
use vstd::prelude::*;

verus! {

/// Carriage return.
pub const CR: u8 = 13;

/// Line feed.
pub const LF: u8 = 10;

/// Space.
pub const SP: u8 = 32;

/// Colon.
pub const COLON: u8 = 58;

/// The two bytes that end every line on the wire.
pub open spec fn crlf() -> Seq<u8> {
    seq![CR, LF]
}

pub open spec fn is_line_break(b: u8) -> bool {
    b == CR || b == LF
}

/// Position of the first `b` in `s`, or `s.len()` when `s` holds none.
pub open spec fn first_byte(s: Seq<u8>, b: u8) -> nat
    decreases s.len(),
{
    if s.len() == 0 {
        0
    } else if s[0] == b {
        0
    } else {
        1 + first_byte(s.drop_first(), b)
    }
}

/// Position of the first CR or LF in `s`, or `s.len()` when `s` holds neither.
pub open spec fn first_break(s: Seq<u8>) -> nat
    decreases s.len(),
{
    if s.len() == 0 {
        0
    } else if is_line_break(s[0]) {
        0
    } else {
        1 + first_break(s.drop_first())
    }
}

pub open spec fn lacks_byte(s: Seq<u8>, b: u8) -> bool {
    forall|i: int| 0 <= i < s.len() ==> s[i] != b
}

pub open spec fn lacks_line_break(s: Seq<u8>) -> bool {
    forall|i: int| 0 <= i < s.len() ==> !is_line_break(s[i])
}

/// Decimal digits of `n`, most significant first, without leading zeros.
pub open spec fn decimal(n: nat) -> Seq<u8>
    decreases n,
{
    if n < 10 {
        seq![(48 + n) as u8]
    } else {
        decimal(n / 10).push((48 + n % 10) as u8)
    }
}

/// `decimal(n)` with zeros in front, up to `width` digits.
pub open spec fn zero_padded(n: nat, width: nat) -> Seq<u8> {
    let d = decimal(n);
    if d.len() >= width {
        d
    } else {
        Seq::new((width - d.len()) as nat, |i: int| 48u8) + d
    }
}

pub proof fn lemma_first_byte_at(s: Seq<u8>, b: u8, i: int)
    requires
        0 <= i <= s.len(),
        forall|j: int| 0 <= j < i ==> s[j] != b,
        i == s.len() || s[i] == b,
    ensures
        first_byte(s, b) == i,
    decreases s.len(),
{
    if s.len() > 0 && i > 0 {
        assert forall|j: int| 0 <= j < i - 1 implies s.drop_first()[j] != b by {
            assert(s[j + 1] != b);
        }
        lemma_first_byte_at(s.drop_first(), b, i - 1);
    }
}

pub proof fn lemma_first_break_at(s: Seq<u8>, i: int)
    requires
        0 <= i <= s.len(),
        forall|j: int| 0 <= j < i ==> !is_line_break(s[j]),
        i == s.len() || is_line_break(s[i]),
    ensures
        first_break(s) == i,
    decreases s.len(),
{
    if s.len() > 0 && i > 0 {
        assert forall|j: int| 0 <= j < i - 1 implies !is_line_break(s.drop_first()[j]) by {
            assert(!is_line_break(s[j + 1]));
        }
        lemma_first_break_at(s.drop_first(), i - 1);
    }
}

pub fn find_byte(buf: &[u8], start: usize, end: usize, b: u8) -> (r: usize)
    requires
        start <= end <= buf@.len(),
    ensures
        r == start + first_byte(buf@.subrange(start as int, end as int), b),
        start <= r <= end,
{
    let mut i: usize = start;
    while i < end && buf[i] != b
        invariant
            start <= i <= end,
            end <= buf@.len(),
            forall|j: int| start <= j < i ==> buf@[j] != b,
        decreases end - i,
    {
        i = i + 1;
    }
    proof {
        lemma_first_byte_at(buf@.subrange(start as int, end as int), b, i - start);
    }
    i
}

/// Position of the first CR or LF in `buf[start..]`, counted from the start of `buf`.
pub fn find_line_break(buf: &[u8], start: usize) -> (r: usize)
    requires
        start <= buf@.len(),
    ensures
        r == start + first_break(buf@.subrange(start as int, buf@.len() as int)),
        start <= r <= buf@.len(),
{
    let mut i: usize = start;
    while i < buf.len() && buf[i] != CR && buf[i] != LF
        invariant
            start <= i <= buf@.len(),
            forall|j: int| start <= j < i ==> !is_line_break(buf@[j]),
        decreases buf@.len() - i,
    {
        i = i + 1;
    }
    proof {
        lemma_first_break_at(buf@.subrange(start as int, buf@.len() as int), i - start);
    }
    i
}

/// Appends every byte of `data` to `out`.
pub fn push_all(out: &mut Vec<u8>, data: &[u8])
    ensures
        final(out)@ == old(out)@ + data@,
{
    let mut i: usize = 0;
    while i < data.len()
        invariant
            0 <= i <= data@.len(),
            out@ == old(out)@ + data@.subrange(0, i as int),
        decreases data@.len() - i,
    {
        out.push(data[i]);
        i = i + 1;
        assert(out@ =~= old(out)@ + data@.subrange(0, i as int));
    }
    assert(data@.subrange(0, i as int) =~= data@);
}

/// Whether two byte strings are equal.
pub fn bytes_equal(a: &[u8], b: &[u8]) -> (r: bool)
    ensures
        r == (a@ == b@),
{
    if a.len() != b.len() {
        return false;
    }
    let mut i: usize = 0;
    while i < a.len()
        invariant
            a@.len() == b@.len(),
            0 <= i <= a@.len(),
            forall|j: int| 0 <= j < i ==> a@[j] == b@[j],
        decreases a@.len() - i,
    {
        if a[i] != b[i] {
            return false;
        }
        i = i + 1;
    }
    assert(a@ =~= b@);
    true
}

/// Decimal text of `n`.
pub fn decimal_bytes(n: u64) -> (r: Vec<u8>)
    ensures
        r@ == decimal(n as nat),
    decreases n,
{
    if n < 10 {
        vec![(48 + n) as u8]
    } else {
        let mut r = decimal_bytes(n / 10);
        r.push((48 + n % 10) as u8);
        r
    }
}

/// Decimal text of `n`, with zeros in front up to `width` digits.
pub fn zero_padded_bytes(n: u64, width: usize) -> (r: Vec<u8>)
    ensures
        r@ == zero_padded(n as nat, width as nat),
{
    let digits = decimal_bytes(n);
    if digits.len() >= width {
        return digits;
    }
    let mut r: Vec<u8> = Vec::new();
    let pad: usize = width - digits.len();
    let mut i: usize = 0;
    while i < pad
        invariant
            0 <= i <= pad,
            r@ == Seq::new(i as nat, |j: int| 48u8),
        decreases pad - i,
    {
        r.push(48);
        i = i + 1;
        assert(r@ =~= Seq::new(i as nat, |j: int| 48u8));
    }
    push_all(&mut r, digits.as_slice());
    r
}

} // verus!
