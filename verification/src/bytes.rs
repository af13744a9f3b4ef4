//! Little-endian words, decimal numerals and ASCII text as byte sequences.
use vstd::prelude::*;
use vstd::string::StringSliceAdditionalSpecFns;

verus! {

/// The four bytes of `x`, least significant first.
pub open spec fn u32_le_bytes(x: u32) -> Seq<u8> {
    seq![
        (x & 0xff) as u8,
        ((x >> 8) & 0xff) as u8,
        ((x >> 16) & 0xff) as u8,
        ((x >> 24) & 0xff) as u8,
    ]
}

/// The word whose little-endian bytes are the first four of `b`.
pub open spec fn u32_from_le_bytes(b: Seq<u8>) -> u32 {
    (b[0] as u32) | ((b[1] as u32) << 8) | ((b[2] as u32) << 16) | ((b[3] as u32) << 24)
}

/// The little-endian bytes of every word of `ws`, in order.
pub open spec fn words_le_bytes(ws: Seq<u32>) -> Seq<u8>
    decreases ws.len(),
{
    if ws.len() == 0 {
        Seq::empty()
    } else {
        words_le_bytes(ws.drop_last()) + u32_le_bytes(ws.last())
    }
}

/// The decimal numeral of `n`, as ASCII digits, most significant first and
/// without leading zeros.
pub open spec fn decimal_digits(n: nat) -> Seq<u8>
    decreases n,
{
    let last = seq![((n % 10) + 48) as u8];
    if n < 10 {
        last
    } else {
        decimal_digits(n / 10) + last
    }
}

/// The number that a string of ASCII decimal digits denotes.
pub open spec fn decimal_value(digits: Seq<u8>) -> nat
    decreases digits.len(),
{
    if digits.len() == 0 {
        0
    } else {
        decimal_value(digits.drop_last()) * 10 + ((digits.last() - 48) as nat)
    }
}

/// A decimal numeral is made of the ASCII digits `0`-`9`, and it starts
/// with `0` only when it is the numeral of zero.
pub proof fn law_decimal_digits_are_ascii(n: nat)
    ensures
        decimal_digits(n).len() >= 1,
        forall|i: int|
            0 <= i < decimal_digits(n).len() ==> 48 <= #[trigger] decimal_digits(n)[i] <= 57,
        decimal_digits(n)[0] == 48 <==> n == 0,
    decreases n,
{
    if n >= 10 {
        law_decimal_digits_are_ascii(n / 10);
        let d = decimal_digits(n);
        let p = decimal_digits(n / 10);
        assert(d[0] == p[0]);
        assert forall|i: int| 0 <= i < d.len() implies 48 <= #[trigger] d[i] <= 57 by {
            if i < p.len() {
                assert(d[i] == p[i]);
            }
        }
    }
}

/// Reading back a decimal numeral gives the number written.
pub proof fn lemma_decimal_roundtrip(n: nat)
    ensures
        decimal_value(decimal_digits(n)) == n,
    decreases n,
{
    let last = seq![((n % 10) + 48) as u8];
    let d = decimal_digits(n);
    assert(d.last() == ((n % 10) + 48) as u8);
    assert(((n % 10) + 48) as u8 - 48 == n % 10);
    if n < 10 {
        assert(d.drop_last() =~= Seq::<u8>::empty());
        assert(decimal_value(d) == decimal_value(d.drop_last()) * 10 + (n % 10));
    } else {
        lemma_decimal_roundtrip(n / 10);
        assert(d.drop_last() =~= decimal_digits(n / 10));
        assert(decimal_value(d) == (n / 10) * 10 + (n % 10));
    }
}

/// The number whose little-endian bytes are the four bytes of `b` from
/// `at` on: the first byte counts once, the next 256 times, and so on.
pub open spec fn le_value(b: Seq<u8>, at: int) -> int {
    b[at] + 256 * b[at + 1] + 65536 * b[at + 2] + 16777216 * b[at + 3]
}

/// Decoding four bytes gives the little-endian number they spell.
pub proof fn law_le_decoding_value(b: Seq<u8>)
    requires
        b.len() >= 4,
    ensures
        u32_from_le_bytes(b) == le_value(b, 0),
{
    let b0 = b[0];
    let b1 = b[1];
    let b2 = b[2];
    let b3 = b[3];
    assert((b0 as u32) | ((b1 as u32) << 8) | ((b2 as u32) << 16) | ((b3 as u32) << 24) == b0
        + 256 * b1 + 65536 * b2 + 16777216 * b3) by (bit_vector);
}

/// The bytes written for a word spell it in little-endian order.
pub proof fn law_le_encoding_value(x: u32)
    ensures
        u32_le_bytes(x).len() == 4,
        le_value(u32_le_bytes(x), 0) == x,
{
    let b0 = (x & 0xff) as u8;
    let b1 = ((x >> 8) & 0xff) as u8;
    let b2 = ((x >> 16) & 0xff) as u8;
    let b3 = ((x >> 24) & 0xff) as u8;
    assert(b0 + 256 * b1 + 65536 * b2 + 16777216 * b3 == x) by (bit_vector)
        requires
            b0 == (x & 0xff) as u8,
            b1 == ((x >> 8) & 0xff) as u8,
            b2 == ((x >> 16) & 0xff) as u8,
            b3 == ((x >> 24) & 0xff) as u8,
    ;
}

/// Reading back the bytes written for a word gives the word.
pub proof fn lemma_u32_le_roundtrip(x: u32)
    ensures
        u32_from_le_bytes(u32_le_bytes(x)) == x,
{
    let b0 = (x & 0xff) as u8;
    let b1 = ((x >> 8) & 0xff) as u8;
    let b2 = ((x >> 16) & 0xff) as u8;
    let b3 = ((x >> 24) & 0xff) as u8;
    assert((b0 as u32) | ((b1 as u32) << 8) | ((b2 as u32) << 16) | ((b3 as u32) << 24) == x)
        by (bit_vector)
        requires
            b0 == (x & 0xff) as u8,
            b1 == ((x >> 8) & 0xff) as u8,
            b2 == ((x >> 16) & 0xff) as u8,
            b3 == ((x >> 24) & 0xff) as u8,
    ;
}

/// Four bytes per word.
pub proof fn lemma_words_le_bytes_len(ws: Seq<u32>)
    ensures
        words_le_bytes(ws).len() == 4 * ws.len(),
    decreases ws.len(),
{
    if ws.len() > 0 {
        lemma_words_le_bytes_len(ws.drop_last());
    }
}

/// The `k`-th group of four bytes holds the `k`-th word.
pub proof fn lemma_words_le_bytes_index(ws: Seq<u32>, k: int)
    requires
        0 <= k < ws.len(),
    ensures
        words_le_bytes(ws).subrange(4 * k, 4 * k + 4) == u32_le_bytes(ws[k]),
    decreases ws.len(),
{
    lemma_words_le_bytes_len(ws.drop_last());
    if k == ws.len() - 1 {
        assert(words_le_bytes(ws).subrange(4 * k, 4 * k + 4) =~= u32_le_bytes(ws[k]));
    } else {
        lemma_words_le_bytes_index(ws.drop_last(), k);
        assert(words_le_bytes(ws).subrange(4 * k, 4 * k + 4) =~= words_le_bytes(
            ws.drop_last(),
        ).subrange(4 * k, 4 * k + 4));
    }
}

/// Appends the little-endian bytes of `x`.
pub fn push_u32_le(out: &mut Vec<u8>, x: u32)
    ensures
        final(out)@ == old(out)@ + u32_le_bytes(x),
{
    out.push((x & 0xff) as u8);
    out.push(((x >> 8) & 0xff) as u8);
    out.push(((x >> 16) & 0xff) as u8);
    out.push(((x >> 24) & 0xff) as u8);
    assert(final(out)@ =~= old(out)@ + u32_le_bytes(x));
}

/// Appends the little-endian bytes of every word of `ws`, in order.
pub fn push_words_le(out: &mut Vec<u8>, ws: &[u32])
    ensures
        final(out)@ == old(out)@ + words_le_bytes(ws@),
{
    let ghost start = out@;
    let mut i: usize = 0;
    while i < ws.len()
        invariant
            i <= ws@.len(),
            out@ == start + words_le_bytes(ws@.take(i as int)),
        decreases ws@.len() - i,
    {
        push_u32_le(out, ws[i]);
        assert(ws@.take(i + 1).drop_last() =~= ws@.take(i as int));
        assert(out@ =~= start + words_le_bytes(ws@.take(i + 1)));
        i = i + 1;
    }
    assert(ws@.take(i as int) =~= ws@);
}

/// Appends the decimal numeral of `n`.
pub fn push_decimal(out: &mut Vec<u8>, n: usize)
    ensures
        final(out)@ == old(out)@ + decimal_digits(n as nat),
    decreases n,
{
    let ghost start = out@;
    if n >= 10 {
        push_decimal(out, n / 10);
    }
    out.push((n % 10) as u8 + 48);
    assert(out@ =~= start + decimal_digits(n as nat));
}

/// Appends the UTF-8 bytes of `s`.
pub fn push_str_bytes(out: &mut Vec<u8>, s: &str)
    ensures
        final(out)@ == old(out)@ + s.spec_bytes(),
{
    let b = s.as_bytes();
    let ghost start = out@;
    let mut i: usize = 0;
    while i < b.len()
        invariant
            i <= b@.len(),
            b@ == s.spec_bytes(),
            out@ == start + b@.take(i as int),
        decreases b@.len() - i,
    {
        out.push(b[i]);
        assert(out@ =~= start + b@.take(i + 1));
        i = i + 1;
    }
    assert(b@.take(i as int) =~= b@);
}

} // verus!
