//! Round-trip laws: the hex literals in a generated body decode, in order,
//! to exactly the input bytes.

use vstd::prelude::*;

use crate::header::{
    body_text, body_text_from, byte_literal, hex_digit_char, lemma_body_text_from_step, separator,
};

verus! {

/// Whether `c` is a lowercase hexadecimal digit.
pub open spec fn is_hex_digit_char(c: char) -> bool {
    ('0' <= c && c <= '9') || ('a' <= c && c <= 'f')
}

/// The value of a lowercase hexadecimal digit.
pub open spec fn hex_digit_value(c: char) -> int
    recommends
        is_hex_digit_char(c),
{
    if '0' <= c && c <= '9' {
        c as u32 - '0' as u32
    } else {
        c as u32 - 'a' as u32 + 10
    }
}

/// Scans `s` left to right and decodes every hex literal `0x` followed by
/// two lowercase hex digits; every other character is passed over.
pub open spec fn parse_hex_literals(s: Seq<char>) -> Seq<u8>
    decreases s.len(),
{
    if s.len() >= 4 && s[0] == '0' && s[1] == 'x' && is_hex_digit_char(s[2]) && is_hex_digit_char(
        s[3],
    ) {
        seq![(16 * hex_digit_value(s[2]) + hex_digit_value(s[3])) as u8] + parse_hex_literals(
            s.subrange(4, s.len() as int),
        )
    } else if s.len() > 0 {
        parse_hex_literals(s.subrange(1, s.len() as int))
    } else {
        Seq::empty()
    }
}

/// The emitted digit for a value below sixteen is a hex digit, and decodes
/// back to that value.
proof fn lemma_hex_digit_char_value(v: int)
    requires
        0 <= v < 16,
    ensures
        is_hex_digit_char(hex_digit_char(v)),
        hex_digit_value(hex_digit_char(v)) == v,
{
}

/// A character other than `0` can never open a literal, so the scan passes
/// over it.
proof fn lemma_parse_prepend_non_literal(c: char, rest: Seq<char>)
    requires
        c != '0',
    ensures
        parse_hex_literals(seq![c] + rest) == parse_hex_literals(rest),
{
    let s = seq![c] + rest;
    assert(s.subrange(1, s.len() as int) =~= rest);
}

/// The scan takes a byte's five emitted characters to that byte and moves on.
proof fn lemma_parse_byte_literal(b: u8, rest: Seq<char>)
    ensures
        parse_hex_literals(byte_literal(b) + rest) == seq![b] + parse_hex_literals(rest),
{
    let s = byte_literal(b) + rest;
    let hi = b as int / 16;
    let lo = b as int % 16;
    assert(0 <= hi < 16);
    assert(0 <= lo < 16);
    lemma_hex_digit_char_value(hi);
    lemma_hex_digit_char_value(lo);
    vstd::arithmetic::div_mod::lemma_fundamental_div_mod(b as int, 16);
    assert(16 * hex_digit_value(s[2]) + hex_digit_value(s[3]) == b);
    assert(s.subrange(4, s.len() as int) =~= seq![','] + rest);
    lemma_parse_prepend_non_literal(',', rest);
}

/// Separators contribute nothing to the decoded bytes.
proof fn lemma_parse_separator(i: int, len: int, rest: Seq<char>)
    requires
        0 <= i < len,
    ensures
        parse_hex_literals(separator(i, len) + rest) == parse_hex_literals(rest),
{
    let sep = separator(i, len);
    if sep.len() == 0 {
        assert(sep + rest =~= rest);
    } else if sep.len() == 1 {
        assert(sep + rest =~= seq![' '] + rest);
        lemma_parse_prepend_non_literal(' ', rest);
    } else {
        let r3 = seq![' '] + rest;
        let r2 = seq![' '] + r3;
        let r1 = seq![' '] + r2;
        let r0 = seq![' '] + r1;
        assert(sep + rest =~= seq!['\n'] + r0);
        lemma_parse_prepend_non_literal('\n', r0);
        assert(r0.subrange(1, r0.len() as int) =~= r1);
        lemma_parse_prepend_non_literal(' ', r1);
        lemma_parse_prepend_non_literal(' ', r2);
        lemma_parse_prepend_non_literal(' ', r3);
        lemma_parse_prepend_non_literal(' ', rest);
    }
}

/// Decoding the body built from index `i` onward recovers the bytes from
/// index `i` onward.
proof fn lemma_parse_body_from(bytes: Seq<u8>, i: int)
    requires
        0 <= i <= bytes.len(),
    ensures
        parse_hex_literals(body_text_from(bytes, i)) == bytes.subrange(i, bytes.len() as int),
    decreases bytes.len() - i,
{
    let len = bytes.len() as int;
    if i == len {
        assert(bytes.subrange(len, len) =~= Seq::<u8>::empty());
    } else {
        let lit = byte_literal(bytes[i]);
        let sep = separator(i, len);
        let tail = body_text_from(bytes, i + 1);
        lemma_body_text_from_step(bytes, i);
        assert(lit + sep + tail =~= lit + (sep + tail));
        lemma_parse_byte_literal(bytes[i], sep + tail);
        lemma_parse_separator(i, len, tail);
        lemma_parse_body_from(bytes, i + 1);
        assert(seq![bytes[i]] + bytes.subrange(i + 1, len) =~= bytes.subrange(i, len));
    }
}

/// Round trip: for every byte sequence, decoding the hex literals of the
/// generated body, in order, yields exactly that sequence — same bytes, same
/// order, same length.
pub proof fn lemma_body_round_trip(bytes: Seq<u8>)
    ensures
        parse_hex_literals(body_text(bytes)) == bytes,
{
    lemma_parse_body_from(bytes, 0);
    assert(bytes.subrange(0, bytes.len() as int) =~= bytes);
}

/// Appending one zero byte to the input before literalizing adds exactly one
/// decoded byte literal, `0x00`, at the end of the body, and leaves every
/// earlier decoded byte as it was.
pub proof fn lemma_terminator_adds_zero(bytes: Seq<u8>)
    ensures
        parse_hex_literals(body_text(bytes.push(0))) == parse_hex_literals(
            body_text(bytes),
        ).push(0),
{
    lemma_body_round_trip(bytes);
    lemma_body_round_trip(bytes.push(0));
    assert(parse_hex_literals(body_text(bytes)).push(0) =~= bytes.push(0));
}

} // verus!
