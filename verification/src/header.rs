//! The literalization engine: the exact text of the generated header.
//!
//! The generated header has this shape, byte for byte:
//!
//! ```text
//! #pragma once
//! #include <stdint.h>
//! static const uint8_t <symbol_name>[] = {
//!     <body>
//! };
//! ```
//!
//! where `<body>` lists every input byte as a two-digit lowercase hex literal
//! followed by a comma, twelve literals to a line, continuation lines indented
//! by four spaces, and no dangling blank continuation line after the last
//! literal.

use vstd::prelude::*;

verus! {

/// Number of byte literals on each full body line.
pub const BYTES_PER_LINE: usize = 12;

/// The lowercase hexadecimal digit for a value below sixteen.
pub open spec fn hex_digit_char(v: int) -> char
    recommends
        0 <= v < 16,
{
    if v == 0 {
        '0'
    } else if v == 1 {
        '1'
    } else if v == 2 {
        '2'
    } else if v == 3 {
        '3'
    } else if v == 4 {
        '4'
    } else if v == 5 {
        '5'
    } else if v == 6 {
        '6'
    } else if v == 7 {
        '7'
    } else if v == 8 {
        '8'
    } else if v == 9 {
        '9'
    } else if v == 10 {
        'a'
    } else if v == 11 {
        'b'
    } else if v == 12 {
        'c'
    } else if v == 13 {
        'd'
    } else if v == 14 {
        'e'
    } else {
        'f'
    }
}

/// The five characters emitted for one input byte: `0x`, the two lowercase
/// hex digits of its value, and a comma.
pub open spec fn byte_literal(b: u8) -> Seq<char> {
    seq!['0', 'x', hex_digit_char(b as int / 16), hex_digit_char(b as int % 16), ',']
}

/// The separator emitted after the byte at index `i` of `len` input bytes:
/// a newline plus four spaces of indentation after every twelfth literal, a
/// single space otherwise. A newline separator that would fall after the very
/// last literal is dropped as a whole, so the body never ends in a dangling
/// blank continuation line; a trailing single space is kept.
pub open spec fn separator(i: int, len: int) -> Seq<char>
    recommends
        0 <= i < len,
{
    if (i + 1) % (BYTES_PER_LINE as int) == 0 {
        if i + 1 == len {
            Seq::empty()
        } else {
            seq!['\n', ' ', ' ', ' ', ' ']
        }
    } else {
        seq![' ']
    }
}

/// The body characters contributed by the bytes from index `i` onward.
pub open spec fn body_text_from(bytes: Seq<u8>, i: int) -> Seq<char>
    recommends
        0 <= i <= bytes.len(),
    decreases bytes.len() - i,
{
    if bytes.len() <= i {
        Seq::empty()
    } else {
        byte_literal(bytes[i]) + separator(i, bytes.len() as int) + body_text_from(bytes, i + 1)
    }
}

/// The body: every input byte as a hex literal, in input order, with its
/// separator; empty for empty input.
pub open spec fn body_text(bytes: Seq<u8>) -> Seq<char> {
    body_text_from(bytes, 0)
}

/// The complete header text for a symbol name and an input byte sequence.
/// The name is interpolated verbatim; gating it through the symbol-name
/// grammar is the caller's duty.
pub open spec fn header_text(name: Seq<char>, bytes: Seq<u8>) -> Seq<char> {
    "#pragma once\n#include <stdint.h>\nstatic const uint8_t "@ + name + "[] = {\n    "@
        + body_text(bytes) + "\n};\n"@
}

/// One recursive step of the body, spelled out for callers that walk the
/// input front to back.
pub proof fn lemma_body_text_from_step(bytes: Seq<u8>, i: int)
    requires
        0 <= i < bytes.len(),
    ensures
        body_text_from(bytes, i) == byte_literal(bytes[i]) + separator(i, bytes.len() as int)
            + body_text_from(bytes, i + 1),
{
}

fn hex_digit_str(v: u8) -> (r: &'static str)
    requires
        v < 16,
    ensures
        r@ == seq![hex_digit_char(v as int)],
{
    let r = if v == 0 {
        "0"
    } else if v == 1 {
        "1"
    } else if v == 2 {
        "2"
    } else if v == 3 {
        "3"
    } else if v == 4 {
        "4"
    } else if v == 5 {
        "5"
    } else if v == 6 {
        "6"
    } else if v == 7 {
        "7"
    } else if v == 8 {
        "8"
    } else if v == 9 {
        "9"
    } else if v == 10 {
        "a"
    } else if v == 11 {
        "b"
    } else if v == 12 {
        "c"
    } else if v == 13 {
        "d"
    } else if v == 14 {
        "e"
    } else {
        "f"
    };
    proof {
        reveal_strlit("0");
        reveal_strlit("1");
        reveal_strlit("2");
        reveal_strlit("3");
        reveal_strlit("4");
        reveal_strlit("5");
        reveal_strlit("6");
        reveal_strlit("7");
        reveal_strlit("8");
        reveal_strlit("9");
        reveal_strlit("a");
        reveal_strlit("b");
        reveal_strlit("c");
        reveal_strlit("d");
        reveal_strlit("e");
        reveal_strlit("f");
        assert(r@ =~= seq![hex_digit_char(v as int)]);
    }
    r
}

/// Renders the header text for `symbol_name` and `bytes`, exactly as
/// `header_text` states it. Total: any byte sequence is representable, and
/// the name is interpolated verbatim without validation.
pub fn literalize(symbol_name: &str, bytes: &[u8]) -> (header: String)
    ensures
        header@ == header_text(symbol_name@, bytes@),
{
    let mut out = String::new();
    out.append("#pragma once\n#include <stdint.h>\nstatic const uint8_t ");
    out.append(symbol_name);
    out.append("[] = {\n    ");
    let ghost opening: Seq<char> = out@;
    let len = bytes.len();
    let mut i: usize = 0;
    while i < len
        invariant
            i <= len,
            len == bytes@.len(),
            out@ + body_text_from(bytes@, i as int) == opening + body_text(bytes@),
        decreases len - i,
    {
        let ghost prev: Seq<char> = out@;
        let b = bytes[i];
        out.append("0x");
        out.append(hex_digit_str(b / 16));
        out.append(hex_digit_str(b % 16));
        out.append(",");
        proof {
            reveal_strlit("0x");
            reveal_strlit(",");
            assert(out@ =~= prev + byte_literal(b));
        }
        if (i + 1) % BYTES_PER_LINE == 0 {
            if i + 1 < len {
                out.append("\n    ");
                proof {
                    reveal_strlit("\n    ");
                    assert(out@ =~= prev + byte_literal(b) + separator(i as int, len as int));
                }
            } else {
                proof {
                    assert(out@ =~= prev + byte_literal(b) + separator(i as int, len as int));
                }
            }
        } else {
            out.append(" ");
            proof {
                reveal_strlit(" ");
                assert(out@ =~= prev + byte_literal(b) + separator(i as int, len as int));
            }
        }
        proof {
            lemma_body_text_from_step(bytes@, i as int);
            assert(out@ + body_text_from(bytes@, i as int + 1) =~= prev + body_text_from(
                bytes@,
                i as int,
            ));
        }
        i += 1;
    }
    proof {
        assert(out@ + body_text_from(bytes@, len as int) =~= out@);
    }
    out.append("\n};\n");
    proof {
        assert(out@ =~= header_text(symbol_name@, bytes@));
    }
    out
}

} // verus!
