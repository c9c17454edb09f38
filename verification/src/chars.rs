//! Character classification used by the scanner, in both specification and
//! executable form.

use vstd::prelude::*;

verus! {

/// An ASCII decimal digit.
pub open spec fn is_digit_char(c: char) -> bool {
    48 <= c as u32 && c as u32 <= 57
}

/// An ASCII letter.
pub open spec fn is_alpha_char(c: char) -> bool {
    (65 <= c as u32 && c as u32 <= 90) || (97 <= c as u32 && c as u32 <= 122)
}

/// A character that may continue an identifier: an ASCII letter, an ASCII
/// digit, or an underscore.
pub open spec fn is_ident_char(c: char) -> bool {
    is_digit_char(c) || is_alpha_char(c) || c == '_'
}

/// A whitespace character: one with the Unicode `White_Space` property.
pub open spec fn is_space_char(c: char) -> bool {
    c == '\u{0009}' || c == '\u{000a}' || c == '\u{000b}' || c == '\u{000c}' || c == '\u{000d}'
        || c == ' ' || c == '\u{0085}' || c == '\u{00a0}' || c == '\u{1680}'
        || (0x2000 <= c as u32 && c as u32 <= 0x200a) || c == '\u{2028}' || c == '\u{2029}'
        || c == '\u{202f}' || c == '\u{205f}' || c == '\u{3000}'
}

/// One of the nine fixed single-character punctuation marks (and the dot).
pub open spec fn is_punct_char(c: char) -> bool {
    c == '(' || c == ')' || c == '{' || c == '}' || c == ',' || c == '.' || c == '-' || c == '+'
        || c == '*' || c == ';'
}

/// A character that may begin a one- or two-character comparison or
/// assignment operator.
pub open spec fn is_op_start_char(c: char) -> bool {
    c == '=' || c == '>' || c == '<' || c == '!'
}

pub fn is_digit(c: char) -> (r: bool)
    ensures
        r == is_digit_char(c),
{
    let u = c as u32;
    48 <= u && u <= 57
}

pub fn is_alpha(c: char) -> (r: bool)
    ensures
        r == is_alpha_char(c),
{
    let u = c as u32;
    (65 <= u && u <= 90) || (97 <= u && u <= 122)
}

pub fn is_ident(c: char) -> (r: bool)
    ensures
        r == is_ident_char(c),
{
    is_digit(c) || is_alpha(c) || c == '_'
}

pub fn is_space(c: char) -> (r: bool)
    ensures
        r == is_space_char(c),
{
    let u = c as u32;
    c == '\u{0009}' || c == '\u{000a}' || c == '\u{000b}' || c == '\u{000c}' || c == '\u{000d}'
        || c == ' ' || c == '\u{0085}' || c == '\u{00a0}' || c == '\u{1680}'
        || (0x2000 <= u && u <= 0x200a) || c == '\u{2028}' || c == '\u{2029}' || c == '\u{202f}'
        || c == '\u{205f}' || c == '\u{3000}'
}

} // verus!
