//! A body that counts down before its text: `<k>...` lines from `count` to 1,
//! then the text and CRLF.
use vstd::prelude::*;
use crate::bytes::{crlf, decimal, decimal_bytes, push_all, CR, LF};

verus! {

/// `<k>...` and CRLF.
pub open spec fn countdown_line(k: nat) -> Seq<u8> {
    decimal(k) + seq![46u8, 46, 46] + crlf()
}

/// The lines from `count` down to 1.
pub open spec fn countdown_lines(count: nat) -> Seq<u8>
    decreases count,
{
    if count == 0 {
        Seq::empty()
    } else {
        countdown_line(count) + countdown_lines((count - 1) as nat)
    }
}

pub open spec fn countdown_length(count: nat) -> nat {
    countdown_lines(count).len()
}

pub open spec fn pow10(d: nat) -> nat
    decreases d,
{
    if d == 0 {
        1
    } else {
        10 * pow10((d - 1) as nat)
    }
}

proof fn lemma_decimal_len(n: nat, d: nat)
    requires
        n < pow10(d),
        d >= 1,
    ensures
        decimal(n).len() <= d,
    decreases d,
{
    if n >= 10 {
        assert(d >= 2) by {
            if d == 1 {
                assert(pow10(0) == 1);
            }
        }
        let e = (d - 1) as nat;
        assert(n / 10 < pow10(e)) by (nonlinear_arith)
            requires
                n < 10 * pow10(e),
        ;
        lemma_decimal_len(n / 10, e);
    }
}

proof fn lemma_countdown_bound(count: nat)
    requires
        count <= u32::MAX,
    ensures
        countdown_length(count) <= 15 * count,
    decreases count,
{
    if count > 0 {
        lemma_countdown_bound((count - 1) as nat);
        reveal_with_fuel(pow10, 11);
        lemma_decimal_len(count, 10);
    }
}

/// One line of the countdown.
pub fn countdown_line_bytes(k: u64) -> (r: Vec<u8>)
    ensures
        r@ == countdown_line(k as nat),
{
    let mut out = decimal_bytes(k);
    out.push(46);
    out.push(46);
    out.push(46);
    out.push(CR);
    out.push(LF);
    assert(out@ =~= countdown_line(k as nat));
    out
}

/// The exact length of a countdown from `count` followed by a text of
/// `text_len` bytes and CRLF.
pub fn countdown_body_length(count: u32, text_len: u32) -> (r: u64)
    ensures
        r == countdown_length(count as nat) + text_len + 2,
{
    let mut total: u64 = 0;
    let mut k: u32 = 0;
    while k < count
        invariant
            k <= count,
            total == countdown_length(k as nat),
        decreases count - k,
    {
        k = k + 1;
        proof {
            lemma_countdown_bound(k as nat);
        }
        let line = countdown_line_bytes(k as u64);
        let n: usize = line.len();
        total = total + n as u64;
    }
    proof {
        lemma_countdown_bound(count as nat);
    }
    total + text_len as u64 + 2
}

/// The whole countdown body: the lines, the text, and CRLF.
pub fn countdown_body(count: u32, text: &[u8]) -> (r: Vec<u8>)
    ensures
        r@ == countdown_lines(count as nat) + text@ + crlf(),
{
    let mut out: Vec<u8> = Vec::new();
    let mut k: u32 = count;
    while k > 0
        invariant
            k <= count,
            out@ + countdown_lines(k as nat) == countdown_lines(count as nat),
        decreases k,
    {
        let line = countdown_line_bytes(k as u64);
        let ghost before = out@;
        push_all(&mut out, line.as_slice());
        assert(before + countdown_lines(k as nat) =~= out@ + countdown_lines((k - 1) as nat));
        k = k - 1;
    }
    assert(out@ + countdown_lines(0) =~= out@);
    push_all(&mut out, text);
    out.push(CR);
    out.push(LF);
    assert(out@ =~= countdown_lines(count as nat) + text@ + crlf());
    out
}

} // verus!
