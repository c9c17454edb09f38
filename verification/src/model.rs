//! The mathematical model of scanning: a recursive specification function
//! that maps source text, a cursor, a line counter, and the in-string state
//! to the sequence of tokens the scanner produces from that point on.

use vstd::prelude::*;

use crate::chars::is_alpha_char;
use crate::chars::is_digit_char;
use crate::chars::is_ident_char;
use crate::chars::is_op_start_char;
use crate::chars::is_punct_char;
use crate::chars::is_space_char;
use crate::token::ReservedWords;
use crate::token::TokenKindView;
use crate::token::TokenView;

verus! {

/// The index just past the maximal run of ASCII digits starting at `i`.
pub open spec fn digit_run_end(s: Seq<char>, i: int) -> int
    decreases s.len() - i,
{
    if 0 <= i < s.len() && is_digit_char(s[i]) {
        digit_run_end(s, i + 1)
    } else {
        i
    }
}

/// The index just past the maximal run of identifier characters starting at
/// `i`.
pub open spec fn ident_run_end(s: Seq<char>, i: int) -> int
    decreases s.len() - i,
{
    if 0 <= i < s.len() && is_ident_char(s[i]) {
        ident_run_end(s, i + 1)
    } else {
        i
    }
}

/// The index of the first newline at or after `i`, or the length of the
/// input if there is none: where a line comment starting before `i` ends.
pub open spec fn comment_end(s: Seq<char>, i: int) -> int
    decreases s.len() - i,
{
    if 0 <= i < s.len() {
        if s[i] == '\n' {
            i
        } else {
            comment_end(s, i + 1)
        }
    } else {
        s.len() as int
    }
}

/// The index just past the number literal whose first digit stands at `i`:
/// a maximal digit run, then a fractional part only when a `.` follows the
/// run and a digit follows the `.`.
pub open spec fn number_end(s: Seq<char>, i: int) -> int {
    let j = digit_run_end(s, i);
    if j + 1 < s.len() && s[j] == '.' && is_digit_char(s[j + 1]) {
        digit_run_end(s, j + 1)
    } else {
        j
    }
}

/// The reserved word spelled `w`, if any.
pub open spec fn keyword_of(w: Seq<char>) -> Option<ReservedWords> {
    if w == "and"@ {
        Some(ReservedWords::AND)
    } else if w == "class"@ {
        Some(ReservedWords::CLASS)
    } else if w == "else"@ {
        Some(ReservedWords::ELSE)
    } else if w == "false"@ {
        Some(ReservedWords::FALSE)
    } else if w == "for"@ {
        Some(ReservedWords::FOR)
    } else if w == "fun"@ {
        Some(ReservedWords::FUN)
    } else if w == "if"@ {
        Some(ReservedWords::IF)
    } else if w == "nil"@ {
        Some(ReservedWords::NIL)
    } else if w == "or"@ {
        Some(ReservedWords::OR)
    } else if w == "print"@ {
        Some(ReservedWords::PRINT)
    } else if w == "return"@ {
        Some(ReservedWords::RETURN)
    } else if w == "super"@ {
        Some(ReservedWords::SUPER)
    } else if w == "this"@ {
        Some(ReservedWords::THIS)
    } else if w == "true"@ {
        Some(ReservedWords::TRUE)
    } else if w == "var"@ {
        Some(ReservedWords::VAR)
    } else if w == "while"@ {
        Some(ReservedWords::WHILE)
    } else {
        None
    }
}

/// The kind of token an alphanumeric word scans to: a reserved word when it
/// matches one case-sensitively, an identifier otherwise.
pub open spec fn word_kind(w: Seq<char>) -> TokenKindView {
    match keyword_of(w) {
        Some(k) => TokenKindView::Reserved(k),
        None => TokenKindView::Identifier(w),
    }
}

/// The token kind of a fixed single-character punctuation mark.
pub open spec fn punct_kind(c: char) -> TokenKindView {
    if c == '(' {
        TokenKindView::LeftParen
    } else if c == ')' {
        TokenKindView::RightParen
    } else if c == '{' {
        TokenKindView::LeftBrace
    } else if c == '}' {
        TokenKindView::RightBrace
    } else if c == ',' {
        TokenKindView::Comma
    } else if c == '.' {
        TokenKindView::Dot
    } else if c == '-' {
        TokenKindView::Minus
    } else if c == '+' {
        TokenKindView::Plus
    } else if c == ';' {
        TokenKindView::Semicolon
    } else {
        TokenKindView::Star
    }
}

/// The token kind of a comparison or assignment operator's one-character
/// form.
pub open spec fn op_single_kind(c: char) -> TokenKindView {
    if c == '=' {
        TokenKindView::Equals
    } else if c == '>' {
        TokenKindView::Greater
    } else if c == '<' {
        TokenKindView::LessThan
    } else {
        TokenKindView::Bang
    }
}

/// The token kind of a comparison or assignment operator's two-character
/// form, by its first character.
pub open spec fn op_double_kind(c: char) -> TokenKindView {
    if c == '=' {
        TokenKindView::DoubleEquals
    } else if c == '>' {
        TokenKindView::GreaterEquals
    } else if c == '<' {
        TokenKindView::LessThanEquals
    } else {
        TokenKindView::BangEquals
    }
}

pub proof fn lemma_digit_run_end_bounds(s: Seq<char>, i: int)
    requires
        0 <= i <= s.len(),
    ensures
        i <= digit_run_end(s, i) <= s.len(),
    decreases s.len() - i,
{
    if i < s.len() && is_digit_char(s[i]) {
        lemma_digit_run_end_bounds(s, i + 1);
    }
}

pub proof fn lemma_ident_run_end_bounds(s: Seq<char>, i: int)
    requires
        0 <= i <= s.len(),
    ensures
        i <= ident_run_end(s, i) <= s.len(),
    decreases s.len() - i,
{
    if i < s.len() && is_ident_char(s[i]) {
        lemma_ident_run_end_bounds(s, i + 1);
    }
}

pub proof fn lemma_comment_end_bounds(s: Seq<char>, i: int)
    requires
        0 <= i,
    ensures
        comment_end(s, i) <= s.len(),
        i <= s.len() ==> i <= comment_end(s, i),
    decreases s.len() - i,
{
    if 0 <= i < s.len() && s[i] != '\n' {
        lemma_comment_end_bounds(s, i + 1);
    }
}

pub proof fn lemma_number_end_bounds(s: Seq<char>, i: int)
    requires
        0 <= i < s.len(),
        is_digit_char(s[i]),
    ensures
        i < number_end(s, i) <= s.len(),
{
    lemma_digit_run_end_bounds(s, i + 1);
    let j = digit_run_end(s, i);
    if j + 1 < s.len() && s[j] == '.' && is_digit_char(s[j + 1]) {
        lemma_digit_run_end_bounds(s, j + 2);
    }
}

/// The tokens the scanner produces from the state with cursor `i`, line
/// counter `line`, in-string flag `in_str`, and string buffer `buf`, to the
/// end of the input `s`.
///
/// One recursive step is one scanning decision, in the scanner's priority
/// order: newline, punctuation, operator with one-character lookahead,
/// quote, slash or line comment, number literal, a character buffered while
/// inside a string, whitespace, word, unrecognized character. At the end of
/// the input a still-open string yields one unterminated-string error, and
/// exactly one `Eof` token closes the sequence.
pub open spec fn scan_from(s: Seq<char>, i: int, line: nat, in_str: bool, buf: Seq<char>) -> Seq<
    TokenView,
>
    decreases s.len() - i,
{
    if !(0 <= i < s.len()) {
        let eof = seq![TokenView { kind: TokenKindView::Eof, line }];
        if in_str {
            seq![TokenView { kind: TokenKindView::Error('"', line), line }] + eof
        } else {
            eof
        }
    } else {
        let c = s[i];
        if c == '\n' {
            scan_from(s, i + 1, line + 1, in_str, buf)
        } else if is_punct_char(c) {
            seq![TokenView { kind: punct_kind(c), line }] + scan_from(s, i + 1, line, in_str, buf)
        } else if is_op_start_char(c) {
            if i + 1 < s.len() && s[i + 1] == '=' {
                seq![TokenView { kind: op_double_kind(c), line }] + scan_from(
                    s,
                    i + 2,
                    line,
                    in_str,
                    buf,
                )
            } else {
                seq![TokenView { kind: op_single_kind(c), line }] + scan_from(
                    s,
                    i + 1,
                    line,
                    in_str,
                    buf,
                )
            }
        } else if c == '"' {
            if in_str {
                seq![TokenView { kind: TokenKindView::String(buf), line }] + scan_from(
                    s,
                    i + 1,
                    line,
                    false,
                    Seq::empty(),
                )
            } else {
                scan_from(s, i + 1, line, true, buf)
            }
        } else if c == '/' {
            if i + 1 < s.len() && s[i + 1] == '/' {
                proof {
                    lemma_comment_end_bounds(s, i + 2);
                }
                scan_from(s, comment_end(s, i + 2), line, in_str, buf)
            } else {
                seq![TokenView { kind: TokenKindView::Slash, line }] + scan_from(
                    s,
                    i + 1,
                    line,
                    in_str,
                    buf,
                )
            }
        } else if is_digit_char(c) {
            proof {
                lemma_number_end_bounds(s, i);
            }
            let j = number_end(s, i);
            seq![TokenView { kind: TokenKindView::Number(s.subrange(i, j)), line }] + scan_from(
                s,
                j,
                line,
                in_str,
                buf,
            )
        } else if in_str {
            scan_from(s, i + 1, line, in_str, buf.push(c))
        } else if is_space_char(c) {
            scan_from(s, i + 1, line, in_str, buf)
        } else if is_alpha_char(c) {
            proof {
                lemma_ident_run_end_bounds(s, i + 1);
            }
            let j = ident_run_end(s, i);
            seq![TokenView { kind: word_kind(s.subrange(i, j)), line }] + scan_from(
                s,
                j,
                line,
                in_str,
                buf,
            )
        } else {
            seq![TokenView { kind: TokenKindView::Error(c, line), line }] + scan_from(
                s,
                i + 1,
                line,
                in_str,
                buf,
            )
        }
    }
}

/// The full token sequence of a source text: one scan from the start, on
/// line 1, outside any string.
pub open spec fn scan_spec(s: Seq<char>) -> Seq<TokenView> {
    scan_from(s, 0, 1, false, Seq::empty())
}

} // verus!
