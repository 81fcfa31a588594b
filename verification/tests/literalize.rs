use strinclude::literalize;

/// The body portion of a generated header: what stands between the opening
/// brace line's four-space indent and the closing brace line.
fn body_of(header: &str) -> &str {
    let start = header.find("{\n    ").expect("opener") + "{\n    ".len();
    let end = header.rfind("\n};").expect("closer");
    &header[start..end]
}

/// Decodes every `0xhh` literal of `s`, in order.
fn parse_hex_literals(s: &str) -> Vec<u8> {
    let b = s.as_bytes();
    let mut out = Vec::new();
    let mut i = 0;
    while i + 3 < b.len() {
        if b[i] == b'0' && b[i + 1] == b'x' {
            let hi = (b[i + 2] as char).to_digit(16).expect("hex digit");
            let lo = (b[i + 3] as char).to_digit(16).expect("hex digit");
            out.push((hi * 16 + lo) as u8);
            i += 4;
        } else {
            i += 1;
        }
    }
    out
}

#[test]
fn empty_input() {
    let header = literalize("s", &[]);
    assert_eq!(
        header,
        "#pragma once\n#include <stdint.h>\nstatic const uint8_t s[] = {\n    \n};\n"
    );
}

#[test]
fn single_byte() {
    let header = literalize("s", &[0xab]);
    assert_eq!(
        header,
        "#pragma once\n#include <stdint.h>\nstatic const uint8_t s[] = {\n    0xab, \n};\n"
    );
    assert_eq!(body_of(&header), "0xab, ");
}

#[test]
fn hex_digits_are_two_lowercase() {
    let header = literalize("s", &[0x00, 0x0a, 0xff, 0x5e]);
    assert_eq!(body_of(&header), "0x00, 0x0a, 0xff, 0x5e, ");
}

#[test]
fn name_is_interpolated_verbatim() {
    let header = literalize("my_resource_1", &[0x01]);
    assert!(header.contains("static const uint8_t my_resource_1[] = {"));
}

#[test]
fn line_wrap_at_twelve() {
    let bytes: Vec<u8> = (0u8..25).collect();
    let header = literalize("s", &bytes);
    let body = body_of(&header);
    // Exactly two interior breaks, each a newline plus four spaces.
    assert_eq!(body.matches("\n    ").count(), 2);
    assert_eq!(body.matches('\n').count(), 2);
    // The breaks fall after the literals at indices 11 and 23.
    let lines: Vec<&str> = body.split("\n    ").collect();
    assert_eq!(lines.len(), 3);
    assert_eq!(parse_hex_literals(lines[0]).len(), 12);
    assert_eq!(parse_hex_literals(lines[1]).len(), 12);
    assert_eq!(parse_hex_literals(lines[2]).len(), 1);
    // No newline after the final literal; the trailing space stays.
    assert!(body.ends_with("0x18, "));
}

#[test]
fn full_line_has_no_trailing_separator() {
    let bytes: Vec<u8> = (0u8..12).collect();
    let header = literalize("s", &bytes);
    let body = body_of(&header);
    assert_eq!(
        body,
        "0x00, 0x01, 0x02, 0x03, 0x04, 0x05, 0x06, 0x07, 0x08, 0x09, 0x0a, 0x0b,"
    );
}

#[test]
fn round_trip() {
    let bytes: Vec<u8> = (0u8..=255).cycle().take(300).collect();
    let header = literalize("data", &bytes);
    assert_eq!(parse_hex_literals(body_of(&header)), bytes);
}

#[test]
fn deterministic() {
    let bytes: Vec<u8> = vec![3, 141, 59, 26, 53, 58, 97, 93, 238, 0, 255];
    let first = literalize("pi_digits", &bytes);
    let second = literalize("pi_digits", &bytes);
    assert_eq!(first.as_bytes(), second.as_bytes());
}

#[test]
fn terminator_adds_one_zero_literal() {
    let bytes: Vec<u8> = (10u8..33).collect();
    let mut terminated = bytes.clone();
    terminated.push(0);
    let plain = literalize("s", &bytes);
    let with_zero = literalize("s", &terminated);
    let plain_parsed = parse_hex_literals(body_of(&plain));
    let zero_parsed = parse_hex_literals(body_of(&with_zero));
    assert_eq!(zero_parsed.len(), plain_parsed.len() + 1);
    assert_eq!(zero_parsed[..plain_parsed.len()], plain_parsed[..]);
    assert_eq!(*zero_parsed.last().expect("one literal"), 0x00);
}
