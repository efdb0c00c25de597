//! Percent-encoding of caller-supplied identifiers for use in URL path
//! segments and query components.
//!
//! A value is first taken as its UTF-8 bytes; every byte outside the
//! unreserved set is written as `%` followed by two uppercase hexadecimal
//! digits, so that decoding the path segment yields the original value again.

use vstd::prelude::*;
use vstd::utf8::{decode_utf8, encode_utf8};

verus! {

/// Bytes that may stand literally in a path segment: ASCII letters, digits,
/// `-`, `.`, `_` and `~` (the unreserved set).
pub open spec fn is_unreserved(b: u8) -> bool {
    (0x41 <= b <= 0x5a) || (0x61 <= b <= 0x7a) || (0x30 <= b <= 0x39) || b == 0x2d || b == 0x2e
        || b == 0x5f || b == 0x7e
}

/// The uppercase hexadecimal digit for a value below sixteen.
pub open spec fn hex_char(n: u8) -> char
    recommends
        n < 16,
{
    if n < 10 {
        ((0x30 + n) as u8) as char
    } else {
        ((0x37 + n) as u8) as char
    }
}

/// How one byte appears in the encoded output: itself when unreserved,
/// otherwise a three-character escape.
pub open spec fn encoded_byte(b: u8) -> Seq<char> {
    if is_unreserved(b) {
        seq![b as char]
    } else {
        seq!['%', hex_char(b / 16), hex_char(b % 16)]
    }
}

/// The percent-encoding of a byte sequence.
pub open spec fn percent_encoded(bs: Seq<u8>) -> Seq<char>
    decreases bs.len(),
{
    if bs.len() == 0 {
        Seq::empty()
    } else {
        encoded_byte(bs[0]) + percent_encoded(bs.drop_first())
    }
}

/// A character that can serve as an uppercase hexadecimal digit.
pub open spec fn is_hex_char(c: char) -> bool {
    (0x30 <= c as u32 <= 0x39) || (0x41 <= c as u32 <= 0x46)
}

/// The value of an uppercase hexadecimal digit.
pub open spec fn hex_value(c: char) -> u8
    recommends
        is_hex_char(c),
{
    if 0x30 <= c as u32 <= 0x39 {
        (c as u32 - 0x30) as u8
    } else {
        (c as u32 - 0x37) as u8
    }
}

/// The decoding a receiver applies to a percent-encoded component: each
/// `%`-escape becomes the byte its digits spell, every other character
/// becomes its own code unit. A malformed escape ends the decoding.
pub open spec fn percent_decoded(cs: Seq<char>) -> Seq<u8>
    decreases cs.len(),
{
    if cs.len() == 0 {
        Seq::empty()
    } else if cs[0] == '%' {
        if cs.len() >= 3 && is_hex_char(cs[1]) && is_hex_char(cs[2]) {
            seq![(hex_value(cs[1]) * 16 + hex_value(cs[2])) as u8] + percent_decoded(
                cs.subrange(3, cs.len() as int),
            )
        } else {
            Seq::empty()
        }
    } else {
        seq![((cs[0] as u32) % 256) as u8] + percent_decoded(cs.drop_first())
    }
}

/// Encoding distributes over concatenation of byte sequences.
pub proof fn lemma_percent_encoded_concat(a: Seq<u8>, b: Seq<u8>)
    ensures
        percent_encoded(a + b) == percent_encoded(a) + percent_encoded(b),
    decreases a.len(),
{
    if a.len() == 0 {
        assert(a + b =~= b);
        assert(percent_encoded(a) + percent_encoded(b) =~= percent_encoded(b));
    } else {
        assert((a + b).drop_first() =~= a.drop_first() + b);
        lemma_percent_encoded_concat(a.drop_first(), b);
        assert(percent_encoded(a + b) =~= percent_encoded(a) + percent_encoded(b));
    }
}

/// The uppercase hexadecimal digit of a value below sixteen reads back as
/// that value, and is never a reserved character.
pub proof fn lemma_hex_char_value(n: u8)
    requires
        n < 16,
    ensures
        is_hex_char(hex_char(n)),
        hex_value(hex_char(n)) == n,
        hex_char(n) != '%',
{
}

/// Decoding a percent-encoded byte sequence restores it exactly.
pub proof fn lemma_percent_roundtrip(bs: Seq<u8>)
    ensures
        percent_decoded(percent_encoded(bs)) == bs,
    decreases bs.len(),
{
    if bs.len() == 0 {
        assert(percent_decoded(percent_encoded(bs)) =~= bs);
    } else {
        let b = bs[0];
        let rest = bs.drop_first();
        lemma_percent_roundtrip(rest);
        let e = percent_encoded(bs);
        assert(e == encoded_byte(b) + percent_encoded(rest));
        if is_unreserved(b) {
            assert(e[0] == b as char);
            assert(b as char != '%');
            assert(e.drop_first() =~= percent_encoded(rest));
            assert(((e[0] as u32) % 256) as u8 == b);
            assert(percent_decoded(e) =~= bs);
        } else {
            lemma_hex_char_value(b / 16);
            lemma_hex_char_value(b % 16);
            assert(e[0] == '%' && e[1] == hex_char(b / 16) && e[2] == hex_char(b % 16));
            assert(e.len() >= 3);
            assert(e.subrange(3, e.len() as int) =~= percent_encoded(rest));
            assert(hex_value(e[1]) * 16 + hex_value(e[2]) == b) by {
                assert(b / 16 * 16 + b % 16 == b) by (nonlinear_arith);
            };
            assert(percent_decoded(e) =~= bs);
        }
    }
}

/// A path segment built from a caller identifier decodes, on the receiving
/// side, to the UTF-8 bytes of the original identifier, and those bytes spell
/// the original identifier again.
pub proof fn lemma_path_segment_roundtrip(s: Seq<char>)
    ensures
        percent_decoded(percent_encoded(encode_utf8(s))) == encode_utf8(s),
        decode_utf8(percent_decoded(percent_encoded(encode_utf8(s)))) == s,
{
    lemma_percent_roundtrip(encode_utf8(s));
    vstd::utf8::encode_utf8_decode_utf8(s);
}

/// Relies on String::push: appends the given character to the end of the
/// string.
#[verifier::external_body]
pub(crate) fn push_char(s: &mut String, c: char)
    ensures
        final(s)@ == old(s)@.push(c),
{
    s.push(c);
}

fn unreserved(b: u8) -> (r: bool)
    ensures
        r == is_unreserved(b),
{
    (0x41 <= b && b <= 0x5a) || (0x61 <= b && b <= 0x7a) || (0x30 <= b && b <= 0x39) || b == 0x2d
        || b == 0x2e || b == 0x5f || b == 0x7e
}

pub(crate) fn hex_digit(n: u8) -> (c: char)
    requires
        n < 16,
    ensures
        c == hex_char(n),
{
    if n < 10 {
        (0x30 + n) as char
    } else {
        (0x37 + n) as char
    }
}

/// Percent-encode a byte sequence.
pub fn encode_bytes(bs: &[u8]) -> (r: String)
    ensures
        r@ == percent_encoded(bs@),
{
    let mut out = String::new();
    let mut i: usize = 0;
    while i < bs.len()
        invariant
            i <= bs@.len(),
            out@ == percent_encoded(bs@.take(i as int)),
        decreases bs@.len() - i,
    {
        let b = bs[i];
        if unreserved(b) {
            push_char(&mut out, b as char);
        } else {
            push_char(&mut out, '%');
            push_char(&mut out, hex_digit(b / 16));
            push_char(&mut out, hex_digit(b % 16));
        }
        proof {
            assert(bs@.take(i + 1) =~= bs@.take(i as int) + seq![b]);
            lemma_percent_encoded_concat(bs@.take(i as int), seq![b]);
            assert(seq![b].drop_first() =~= Seq::<u8>::empty());
            reveal_with_fuel(percent_encoded, 2);
            assert(percent_encoded(seq![b]) =~= encoded_byte(b));
            assert(out@ =~= percent_encoded(bs@.take(i + 1)));
        }
        i = i + 1;
    }
    proof {
        assert(bs@.take(i as int) =~= bs@);
    }
    out
}

/// Percent-encode a caller identifier so that it can occupy one URL path
/// segment, whatever characters it holds.
pub fn encode_path(s: &str) -> (r: String)
    ensures
        r@ == percent_encoded(encode_utf8(s@)),
{
    encode_bytes(s.as_bytes())
}

} // verus!
