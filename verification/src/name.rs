//! The symbol-name grammar: which identifiers may name the emitted array.

use vstd::prelude::*;

verus! {

/// Whether `c` may begin a symbol name: a letter or an underscore.
pub open spec fn is_name_start_char(c: char) -> bool {
    ('a' <= c && c <= 'z') || ('A' <= c && c <= 'Z') || c == '_'
}

/// Whether `c` may appear after the first character of a symbol name:
/// a letter, a digit, or an underscore.
pub open spec fn is_name_continue_char(c: char) -> bool {
    is_name_start_char(c) || ('0' <= c && c <= '9')
}

/// The symbol-name grammar, anchored at both ends: one start character
/// followed by any number of continue characters. The empty string has no
/// first character and is therefore illegal.
pub open spec fn is_legal_symbol_name(s: Seq<char>) -> bool {
    &&& s.len() > 0
    &&& is_name_start_char(s[0])
    &&& forall|i: int| 1 <= i < s.len() ==> is_name_continue_char(#[trigger] s[i])
}

fn is_name_start(c: char) -> (legal: bool)
    ensures
        legal == is_name_start_char(c),
{
    ('a' <= c && c <= 'z') || ('A' <= c && c <= 'Z') || c == '_'
}

fn is_name_continue(c: char) -> (legal: bool)
    ensures
        legal == is_name_continue_char(c),
{
    is_name_start(c) || ('0' <= c && c <= '9')
}

/// Decides whether `symbol_name` is acceptable as the identifier of the
/// emitted array: it must match the grammar `[A-Za-z_][A-Za-z0-9_]*` in its
/// entirety, with no other character anywhere.
pub fn symbol_name_is_legal(symbol_name: &str) -> (legal: bool)
    ensures
        legal == is_legal_symbol_name(symbol_name@),
{
    let len = symbol_name.unicode_len();
    if len == 0 {
        return false;
    }
    if !is_name_start(symbol_name.get_char(0)) {
        return false;
    }
    let mut i: usize = 1;
    while i < len
        invariant
            1 <= i <= len,
            len == symbol_name@.len(),
            is_name_start_char(symbol_name@[0]),
            forall|j: int| 1 <= j < i ==> is_name_continue_char(#[trigger] symbol_name@[j]),
        decreases len - i,
    {
        if !is_name_continue(symbol_name.get_char(i)) {
            return false;
        }
        i += 1;
    }
    true
}

} // verus!
