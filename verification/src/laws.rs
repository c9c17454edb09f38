//! Properties of the scanning model that hold of every input.

use vstd::prelude::*;

use crate::chars::is_digit_char;
use crate::chars::is_ident_char;
use crate::model::comment_end;
use crate::model::digit_run_end;
use crate::model::ident_run_end;
use crate::model::lemma_comment_end_bounds;
use crate::model::lemma_digit_run_end_bounds;
use crate::model::lemma_ident_run_end_bounds;
use crate::model::lemma_number_end_bounds;
use crate::model::number_end;
use crate::model::scan_from;
use crate::model::scan_spec;
use crate::token::TokenKindView;
use crate::token::TokenView;

verus! {

/// How many tokens the scanner emits from the state with cursor `i` and
/// in-string flag `in_str`, the final `Eof` token not counted: one for each
/// recognized unit (a punctuation mark, an operator, a literal, a word, an
/// unrecognized character, or an unterminated string), and none for
/// newlines, whitespace and comments. Neither the line counter nor the
/// string buffer affects the count.
pub open spec fn units_from(s: Seq<char>, i: int, in_str: bool) -> nat
    decreases s.len() - i,
{
    if !(0 <= i < s.len()) {
        if in_str {
            1
        } else {
            0
        }
    } else {
        let c = s[i];
        if c == '\n' {
            units_from(s, i + 1, in_str)
        } else if crate::chars::is_punct_char(c) {
            1 + units_from(s, i + 1, in_str)
        } else if crate::chars::is_op_start_char(c) {
            if i + 1 < s.len() && s[i + 1] == '=' {
                1 + units_from(s, i + 2, in_str)
            } else {
                1 + units_from(s, i + 1, in_str)
            }
        } else if c == '"' {
            if in_str {
                1 + units_from(s, i + 1, false)
            } else {
                units_from(s, i + 1, true)
            }
        } else if c == '/' {
            if i + 1 < s.len() && s[i + 1] == '/' {
                proof {
                    lemma_comment_end_bounds(s, i + 2);
                }
                units_from(s, comment_end(s, i + 2), in_str)
            } else {
                1 + units_from(s, i + 1, in_str)
            }
        } else if is_digit_char(c) {
            proof {
                lemma_number_end_bounds(s, i);
            }
            1 + units_from(s, number_end(s, i), in_str)
        } else if in_str {
            units_from(s, i + 1, in_str)
        } else if crate::chars::is_space_char(c) {
            units_from(s, i + 1, in_str)
        } else if crate::chars::is_alpha_char(c) {
            proof {
                lemma_ident_run_end_bounds(s, i + 1);
            }
            1 + units_from(s, ident_run_end(s, i), in_str)
        } else {
            1 + units_from(s, i + 1, in_str)
        }
    }
}

/// The number of recognized units in a whole source text.
pub open spec fn recognized_units(s: Seq<char>) -> nat {
    units_from(s, 0, false)
}

proof fn lemma_cons_facts()
    ensures
        forall|t: TokenView, rest: Seq<TokenView>| (#[trigger] (seq![t] + rest)).len() == 1
            + rest.len(),
        forall|t: TokenView, rest: Seq<TokenView>| (#[trigger] (seq![t] + rest))[0] == t,
        forall|t: TokenView, rest: Seq<TokenView>, k: int|
            1 <= k <= rest.len() ==> #[trigger] (seq![t] + rest)[k] == rest[k - 1],
        forall|t: TokenView, rest: Seq<TokenView>|
            rest.len() >= 1 ==> (#[trigger] (seq![t] + rest)).last() == rest.last(),
{
}

proof fn lemma_newline_unfold(s: Seq<char>, i: int, line: nat, in_str: bool, buf: Seq<char>)
    requires
        0 <= i < s.len(),
        s[i] == '\n',
    ensures
        scan_from(s, i, line, in_str, buf) == scan_from(s, i + 1, line + 1, in_str, buf),
        units_from(s, i, in_str) == units_from(s, i + 1, in_str),
        newline_count(s, i) == 1 + newline_count(s, i + 1),
{
}

proof fn lemma_punct_unfold(s: Seq<char>, i: int, line: nat, in_str: bool, buf: Seq<char>, c: char)
    requires
        0 <= i < s.len(),
        s[i] == c,
        c != '\n',
        crate::chars::is_punct_char(c),
    ensures
        scan_from(s, i, line, in_str, buf) == seq![
            TokenView { kind: crate::model::punct_kind(c), line },
        ] + scan_from(s, i + 1, line, in_str, buf),
        units_from(s, i, in_str) == 1 + units_from(s, i + 1, in_str),
        newline_count(s, i) == newline_count(s, i + 1),
{
}

proof fn lemma_op_unfold(s: Seq<char>, i: int, line: nat, in_str: bool, buf: Seq<char>, c: char)
    requires
        0 <= i < s.len(),
        s[i] == c,
        c != '\n',
        !crate::chars::is_punct_char(c),
        crate::chars::is_op_start_char(c),
    ensures
        i + 1 < s.len() && s[i + 1] == '=' ==> scan_from(s, i, line, in_str, buf) == seq![
            TokenView { kind: crate::model::op_double_kind(c), line },
        ] + scan_from(s, i + 2, line, in_str, buf) && units_from(s, i, in_str) == 1 + units_from(
            s,
            i + 2,
            in_str,
        ),
        !(i + 1 < s.len() && s[i + 1] == '=') ==> scan_from(s, i, line, in_str, buf) == seq![
            TokenView { kind: crate::model::op_single_kind(c), line },
        ] + scan_from(s, i + 1, line, in_str, buf) && units_from(s, i, in_str) == 1 + units_from(
            s,
            i + 1,
            in_str,
        ),
        i + 1 < s.len() && s[i + 1] == '=' ==> newline_count(s, i) == newline_count(s, i + 2),
        !(i + 1 < s.len() && s[i + 1] == '=') ==> newline_count(s, i) == newline_count(s, i + 1),
{
    if i + 1 < s.len() && s[i + 1] == '=' {
        assert(s[i + 1] != '\n');
        assert(newline_count(s, i + 1) == newline_count(s, i + 2));
    }
}

proof fn lemma_quote_unfold(s: Seq<char>, i: int, line: nat, in_str: bool, buf: Seq<char>)
    requires
        0 <= i < s.len(),
        s[i] == '"',
    ensures
        in_str ==> scan_from(s, i, line, in_str, buf) == seq![
            TokenView { kind: TokenKindView::String(buf), line },
        ] + scan_from(s, i + 1, line, false, Seq::empty()) && units_from(s, i, in_str) == 1
            + units_from(s, i + 1, false),
        !in_str ==> scan_from(s, i, line, in_str, buf) == scan_from(s, i + 1, line, true, buf)
            && units_from(s, i, in_str) == units_from(s, i + 1, true),
        newline_count(s, i) == newline_count(s, i + 1),
{
}

proof fn lemma_slash_unfold(s: Seq<char>, i: int, line: nat, in_str: bool, buf: Seq<char>)
    requires
        0 <= i < s.len(),
        s[i] == '/',
    ensures
        i + 1 < s.len() && s[i + 1] == '/' ==> scan_from(s, i, line, in_str, buf) == scan_from(
            s,
            comment_end(s, i + 2),
            line,
            in_str,
            buf,
        ) && units_from(s, i, in_str) == units_from(s, comment_end(s, i + 2), in_str),
        !(i + 1 < s.len() && s[i + 1] == '/') ==> scan_from(s, i, line, in_str, buf) == seq![
            TokenView { kind: TokenKindView::Slash, line },
        ] + scan_from(s, i + 1, line, in_str, buf) && units_from(s, i, in_str) == 1 + units_from(
            s,
            i + 1,
            in_str,
        ),
        i + 1 < s.len() && s[i + 1] == '/' ==> newline_count(s, i) == newline_count(
            s,
            comment_end(s, i + 2),
        ),
        !(i + 1 < s.len() && s[i + 1] == '/') ==> newline_count(s, i) == newline_count(s, i + 1),
{
    if i + 1 < s.len() && s[i + 1] == '/' {
        assert(s[i + 1] != '\n');
        assert(newline_count(s, i + 1) == newline_count(s, i + 2));
        lemma_nc_comment(s, i + 2);
    }
}

proof fn lemma_digit_unfold(s: Seq<char>, i: int, line: nat, in_str: bool, buf: Seq<char>, c: char)
    requires
        0 <= i < s.len(),
        s[i] == c,
        c != '\n',
        !crate::chars::is_punct_char(c),
        !crate::chars::is_op_start_char(c),
        c != '"',
        c != '/',
        is_digit_char(c),
    ensures
        scan_from(s, i, line, in_str, buf) == seq![
            TokenView { kind: TokenKindView::Number(s.subrange(i, number_end(s, i))), line },
        ] + scan_from(s, number_end(s, i), line, in_str, buf),
        units_from(s, i, in_str) == 1 + units_from(s, number_end(s, i), in_str),
        newline_count(s, i) == newline_count(s, number_end(s, i)),
{
    lemma_nc_number(s, i);
}

proof fn lemma_buffered_unfold(s: Seq<char>, i: int, line: nat, buf: Seq<char>, c: char)
    requires
        0 <= i < s.len(),
        s[i] == c,
        c != '\n',
        !crate::chars::is_punct_char(c),
        !crate::chars::is_op_start_char(c),
        c != '"',
        c != '/',
        !is_digit_char(c),
    ensures
        scan_from(s, i, line, true, buf) == scan_from(s, i + 1, line, true, buf.push(c)),
        units_from(s, i, true) == units_from(s, i + 1, true),
        newline_count(s, i) == newline_count(s, i + 1),
{
}

proof fn lemma_space_unfold(s: Seq<char>, i: int, line: nat, buf: Seq<char>, c: char)
    requires
        0 <= i < s.len(),
        s[i] == c,
        c != '\n',
        !crate::chars::is_punct_char(c),
        !crate::chars::is_op_start_char(c),
        c != '"',
        c != '/',
        !is_digit_char(c),
        crate::chars::is_space_char(c),
    ensures
        scan_from(s, i, line, false, buf) == scan_from(s, i + 1, line, false, buf),
        units_from(s, i, false) == units_from(s, i + 1, false),
        newline_count(s, i) == newline_count(s, i + 1),
{
}

proof fn lemma_word_unfold(s: Seq<char>, i: int, line: nat, buf: Seq<char>, c: char)
    requires
        0 <= i < s.len(),
        s[i] == c,
        c != '\n',
        !crate::chars::is_punct_char(c),
        !crate::chars::is_op_start_char(c),
        c != '"',
        c != '/',
        !is_digit_char(c),
        !crate::chars::is_space_char(c),
        crate::chars::is_alpha_char(c),
    ensures
        scan_from(s, i, line, false, buf) == seq![
            TokenView {
                kind: crate::model::word_kind(s.subrange(i, ident_run_end(s, i))),
                line,
            },
        ] + scan_from(s, ident_run_end(s, i), line, false, buf),
        units_from(s, i, false) == 1 + units_from(s, ident_run_end(s, i), false),
        newline_count(s, i) == newline_count(s, ident_run_end(s, i)),
{
    lemma_nc_ident_run(s, i);
}

proof fn lemma_end_unfold(s: Seq<char>, i: int, line: nat, in_str: bool, buf: Seq<char>)
    requires
        !(0 <= i < s.len()),
    ensures
        in_str ==> scan_from(s, i, line, in_str, buf) == seq![
            TokenView { kind: TokenKindView::Error('"', line), line },
            TokenView { kind: TokenKindView::Eof, line },
        ] && units_from(s, i, in_str) == 1,
        !in_str ==> scan_from(s, i, line, in_str, buf) == seq![
            TokenView { kind: TokenKindView::Eof, line },
        ] && units_from(s, i, in_str) == 0,
        newline_count(s, i) == 0,
{
    if in_str {
        assert(seq![TokenView { kind: TokenKindView::Error('"', line), line }] + seq![
            TokenView { kind: TokenKindView::Eof, line },
        ] =~= seq![
            TokenView { kind: TokenKindView::Error('"', line), line },
            TokenView { kind: TokenKindView::Eof, line },
        ]);
    }
}

proof fn lemma_else_case(s: Seq<char>, i: int, line: nat, in_str: bool, buf: Seq<char>, c: char)
    requires
        0 <= i < s.len(),
        s[i] == c,
        c != '\n',
        !crate::chars::is_punct_char(c),
        !crate::chars::is_op_start_char(c),
        c != '"',
        c != '/',
        !is_digit_char(c),
        !in_str,
        !crate::chars::is_space_char(c),
        !crate::chars::is_alpha_char(c),
        scan_from(s, i + 1, line, in_str, buf).len() == units_from(s, i + 1, in_str) + 1,
        scan_from(s, i + 1, line, in_str, buf).last().kind is Eof,
        forall|k: int|
            0 <= k < scan_from(s, i + 1, line, in_str, buf).len() - 1 ==> !((#[trigger] scan_from(
                s,
                i + 1,
                line,
                in_str,
                buf,
            )[k]).kind is Eof),
    ensures
        scan_from(s, i, line, in_str, buf).len() == units_from(s, i, in_str) + 1,
        scan_from(s, i, line, in_str, buf).last().kind is Eof,
        forall|k: int|
            0 <= k < scan_from(s, i, line, in_str, buf).len() - 1 ==> !((#[trigger] scan_from(
                s,
                i,
                line,
                in_str,
                buf,
            )[k]).kind is Eof),
{
    lemma_cons_facts();
}

proof fn lemma_scan_from_eof(s: Seq<char>, i: int, line: nat, in_str: bool, buf: Seq<char>)
    ensures
        scan_from(s, i, line, in_str, buf).len() == units_from(s, i, in_str) + 1,
        scan_from(s, i, line, in_str, buf).last().kind is Eof,
        forall|k: int|
            0 <= k < scan_from(s, i, line, in_str, buf).len() - 1 ==> !((#[trigger] scan_from(
                s,
                i,
                line,
                in_str,
                buf,
            )[k]).kind is Eof),
    decreases s.len() - i,
{
    lemma_cons_facts();
    if !(0 <= i < s.len()) {
        lemma_end_unfold(s, i, line, in_str, buf);
    } else {
        let c = s[i];
        if c == '\n' {
            lemma_newline_unfold(s, i, line, in_str, buf);
            lemma_scan_from_eof(s, i + 1, line + 1, in_str, buf);
        } else if crate::chars::is_punct_char(c) {
            lemma_punct_unfold(s, i, line, in_str, buf, c);
            lemma_scan_from_eof(s, i + 1, line, in_str, buf);
        } else if crate::chars::is_op_start_char(c) {
            lemma_op_unfold(s, i, line, in_str, buf, c);
            if i + 1 < s.len() && s[i + 1] == '=' {
                lemma_scan_from_eof(s, i + 2, line, in_str, buf);
            } else {
                lemma_scan_from_eof(s, i + 1, line, in_str, buf);
            }
        } else if c == '"' {
            lemma_quote_unfold(s, i, line, in_str, buf);
            if in_str {
                lemma_scan_from_eof(s, i + 1, line, false, Seq::empty());
            } else {
                lemma_scan_from_eof(s, i + 1, line, true, buf);
            }
        } else if c == '/' {
            lemma_slash_unfold(s, i, line, in_str, buf);
            if i + 1 < s.len() && s[i + 1] == '/' {
                lemma_comment_end_bounds(s, i + 2);
                lemma_scan_from_eof(s, comment_end(s, i + 2), line, in_str, buf);
            } else {
                lemma_scan_from_eof(s, i + 1, line, in_str, buf);
            }
        } else if is_digit_char(c) {
            lemma_digit_unfold(s, i, line, in_str, buf, c);
            lemma_number_end_bounds(s, i);
            lemma_scan_from_eof(s, number_end(s, i), line, in_str, buf);
        } else if in_str {
            lemma_buffered_unfold(s, i, line, buf, c);
            lemma_scan_from_eof(s, i + 1, line, in_str, buf.push(c));
        } else if crate::chars::is_space_char(c) {
            lemma_space_unfold(s, i, line, buf, c);
            lemma_scan_from_eof(s, i + 1, line, in_str, buf);
        } else if crate::chars::is_alpha_char(c) {
            lemma_word_unfold(s, i, line, buf, c);
            lemma_ident_run_end_bounds(s, i + 1);
            lemma_scan_from_eof(s, ident_run_end(s, i), line, in_str, buf);
        } else {
            lemma_scan_from_eof(s, i + 1, line, in_str, buf);
            lemma_else_case(s, i, line, in_str, buf, c);
        }
    }
}

/// Every scan ends in exactly one `Eof` token: the produced sequence is
/// never empty, its last element is `Eof`, and no earlier element is.
pub proof fn lemma_eof_terminated(s: Seq<char>)
    ensures
        scan_spec(s).len() >= 1,
        scan_spec(s).last().kind is Eof,
        forall|k: int| 0 <= k < scan_spec(s).len() - 1 ==> !(scan_spec(s)[k].kind is Eof),
{
    lemma_scan_from_eof(s, 0, 1, false, Seq::empty());
}

/// The number of tokens a scan produces is the number of recognized units
/// in the input plus exactly one for the trailing `Eof`: newlines,
/// whitespace and comments contribute no tokens.
pub proof fn lemma_token_count(s: Seq<char>)
    ensures
        scan_spec(s).len() == recognized_units(s) + 1,
{
    lemma_scan_from_eof(s, 0, 1, false, Seq::empty());
}


/// The number of newline characters in `s` at or after position `i`.
pub open spec fn newline_count(s: Seq<char>, i: int) -> nat
    decreases s.len() - i,
{
    if 0 <= i < s.len() {
        (if s[i] == '\n' {
            1nat
        } else {
            0nat
        }) + newline_count(s, i + 1)
    } else {
        0
    }
}

proof fn lemma_nc_comment(s: Seq<char>, j: int)
    requires
        0 <= j,
    ensures
        newline_count(s, j) == newline_count(s, comment_end(s, j)),
    decreases s.len() - j,
{
    if 0 <= j < s.len() && s[j] != '\n' {
        lemma_nc_comment(s, j + 1);
    }
}

proof fn lemma_nc_digit_run(s: Seq<char>, j: int)
    requires
        0 <= j,
    ensures
        newline_count(s, j) == newline_count(s, digit_run_end(s, j)),
    decreases s.len() - j,
{
    if 0 <= j < s.len() && is_digit_char(s[j]) {
        assert(s[j] != '\n');
        lemma_nc_digit_run(s, j + 1);
    }
}

proof fn lemma_nc_ident_run(s: Seq<char>, j: int)
    requires
        0 <= j,
    ensures
        newline_count(s, j) == newline_count(s, ident_run_end(s, j)),
    decreases s.len() - j,
{
    if 0 <= j < s.len() && is_ident_char(s[j]) {
        assert(s[j] != '\n');
        lemma_nc_ident_run(s, j + 1);
    }
}

proof fn lemma_nc_number(s: Seq<char>, i: int)
    requires
        0 <= i < s.len(),
        is_digit_char(s[i]),
    ensures
        newline_count(s, i) == newline_count(s, number_end(s, i)),
{
    lemma_nc_digit_run(s, i);
    lemma_digit_run_end_bounds(s, i);
    let j = digit_run_end(s, i);
    if j + 1 < s.len() && s[j] == '.' && is_digit_char(s[j + 1]) {
        assert(s[j] != '\n');
        lemma_nc_digit_run(s, j + 1);
    }
}

proof fn lemma_cons_lines(t: TokenView, rest: Seq<TokenView>, lo: nat, hi: nat)
    requires
        t.line == lo,
        lo <= hi,
        rest.len() >= 1,
        forall|k: int| 0 <= k < rest.len() ==> lo <= (#[trigger] rest[k]).line <= hi,
        forall|j: int, k: int|
            0 <= j <= k < rest.len() ==> #[trigger] rest[j].line <= #[trigger] rest[k].line,
        rest.last().line == hi,
    ensures
        forall|k: int|
            0 <= k < (seq![t] + rest).len() ==> lo <= (#[trigger] (seq![t] + rest)[k]).line <= hi,
        forall|j: int, k: int|
            0 <= j <= k < (seq![t] + rest).len() ==> #[trigger] (seq![t] + rest)[j].line
                <= #[trigger] (seq![t] + rest)[k].line,
        (seq![t] + rest).last().line == hi,
{
    let whole = seq![t] + rest;
    assert(whole.len() == 1 + rest.len());
    assert forall|k: int| 0 <= k < whole.len() implies lo <= (#[trigger] whole[k]).line <= hi by {
        if k >= 1 {
            assert(whole[k] == rest[k - 1]);
        }
    }
    assert forall|j: int, k: int| 0 <= j <= k < whole.len() implies #[trigger] whole[j].line
        <= #[trigger] whole[k].line by {
        if j >= 1 {
            assert(whole[j] == rest[j - 1]);
            assert(whole[k] == rest[k - 1]);
        } else if k >= 1 {
            assert(whole[k] == rest[k - 1]);
            assert(lo <= rest[k - 1].line);
        }
    }
    assert(whole.last() == rest.last());
}

proof fn lemma_scan_from_lines(s: Seq<char>, i: int, line: nat, in_str: bool, buf: Seq<char>)
    ensures
        forall|k: int|
            0 <= k < scan_from(s, i, line, in_str, buf).len() ==> line <= (#[trigger] scan_from(
                s,
                i,
                line,
                in_str,
                buf,
            )[k]).line <= line + newline_count(s, i),
        forall|j: int, k: int|
            0 <= j <= k < scan_from(s, i, line, in_str, buf).len() ==> #[trigger] scan_from(
                s,
                i,
                line,
                in_str,
                buf,
            )[j].line <= #[trigger] scan_from(s, i, line, in_str, buf)[k].line,
        scan_from(s, i, line, in_str, buf).last().line == line + newline_count(s, i),
    decreases s.len() - i,
{
    lemma_cons_facts();
    if !(0 <= i < s.len()) {
        lemma_end_unfold(s, i, line, in_str, buf);
    } else {
        let c = s[i];
        let hi = line + newline_count(s, i);
        if c == '\n' {
            lemma_newline_unfold(s, i, line, in_str, buf);
            lemma_scan_from_lines(s, i + 1, line + 1, in_str, buf);
        } else if crate::chars::is_punct_char(c) {
            lemma_punct_unfold(s, i, line, in_str, buf, c);
            lemma_scan_from_lines(s, i + 1, line, in_str, buf);
            lemma_scan_from_eof(s, i + 1, line, in_str, buf);
            lemma_cons_lines(
                TokenView { kind: crate::model::punct_kind(c), line },
                scan_from(s, i + 1, line, in_str, buf),
                line,
                hi,
            );
        } else if crate::chars::is_op_start_char(c) {
            lemma_op_unfold(s, i, line, in_str, buf, c);
            if i + 1 < s.len() && s[i + 1] == '=' {
                lemma_scan_from_lines(s, i + 2, line, in_str, buf);
                lemma_scan_from_eof(s, i + 2, line, in_str, buf);
                lemma_cons_lines(
                    TokenView { kind: crate::model::op_double_kind(c), line },
                    scan_from(s, i + 2, line, in_str, buf),
                    line,
                    hi,
                );
            } else {
                lemma_scan_from_lines(s, i + 1, line, in_str, buf);
                lemma_scan_from_eof(s, i + 1, line, in_str, buf);
                lemma_cons_lines(
                    TokenView { kind: crate::model::op_single_kind(c), line },
                    scan_from(s, i + 1, line, in_str, buf),
                    line,
                    hi,
                );
            }
        } else if c == '"' {
            lemma_quote_unfold(s, i, line, in_str, buf);
            if in_str {
                lemma_scan_from_lines(s, i + 1, line, false, Seq::empty());
                lemma_scan_from_eof(s, i + 1, line, false, Seq::empty());
                lemma_cons_lines(
                    TokenView { kind: TokenKindView::String(buf), line },
                    scan_from(s, i + 1, line, false, Seq::empty()),
                    line,
                    hi,
                );
            } else {
                lemma_scan_from_lines(s, i + 1, line, true, buf);
            }
        } else if c == '/' {
            lemma_slash_unfold(s, i, line, in_str, buf);
            if i + 1 < s.len() && s[i + 1] == '/' {
                lemma_comment_end_bounds(s, i + 2);
                lemma_scan_from_lines(s, comment_end(s, i + 2), line, in_str, buf);
            } else {
                lemma_scan_from_lines(s, i + 1, line, in_str, buf);
                lemma_scan_from_eof(s, i + 1, line, in_str, buf);
                lemma_cons_lines(
                    TokenView { kind: TokenKindView::Slash, line },
                    scan_from(s, i + 1, line, in_str, buf),
                    line,
                    hi,
                );
            }
        } else if is_digit_char(c) {
            lemma_digit_unfold(s, i, line, in_str, buf, c);
            lemma_number_end_bounds(s, i);
            lemma_scan_from_lines(s, number_end(s, i), line, in_str, buf);
            lemma_scan_from_eof(s, number_end(s, i), line, in_str, buf);
            lemma_cons_lines(
                TokenView { kind: TokenKindView::Number(s.subrange(i, number_end(s, i))), line },
                scan_from(s, number_end(s, i), line, in_str, buf),
                line,
                hi,
            );
        } else if in_str {
            lemma_buffered_unfold(s, i, line, buf, c);
            lemma_scan_from_lines(s, i + 1, line, in_str, buf.push(c));
        } else if crate::chars::is_space_char(c) {
            lemma_space_unfold(s, i, line, buf, c);
            lemma_scan_from_lines(s, i + 1, line, in_str, buf);
        } else if crate::chars::is_alpha_char(c) {
            lemma_word_unfold(s, i, line, buf, c);
            lemma_ident_run_end_bounds(s, i + 1);
            lemma_scan_from_lines(s, ident_run_end(s, i), line, in_str, buf);
            lemma_scan_from_eof(s, ident_run_end(s, i), line, in_str, buf);
            lemma_cons_lines(
                TokenView {
                    kind: crate::model::word_kind(s.subrange(i, ident_run_end(s, i))),
                    line,
                },
                scan_from(s, ident_run_end(s, i), line, in_str, buf),
                line,
                hi,
            );
        } else {
            lemma_scan_from_lines(s, i + 1, line, in_str, buf);
            lemma_scan_from_eof(s, i + 1, line, in_str, buf);
            lemma_lines_else_case(s, i, line, in_str, buf, c);
        }
    }
}

proof fn lemma_lines_else_case(
    s: Seq<char>,
    i: int,
    line: nat,
    in_str: bool,
    buf: Seq<char>,
    c: char,
)
    requires
        0 <= i < s.len(),
        s[i] == c,
        c != '\n',
        !crate::chars::is_punct_char(c),
        !crate::chars::is_op_start_char(c),
        c != '"',
        c != '/',
        !is_digit_char(c),
        !in_str,
        !crate::chars::is_space_char(c),
        !crate::chars::is_alpha_char(c),
        scan_from(s, i + 1, line, in_str, buf).len() >= 1,
        forall|k: int|
            0 <= k < scan_from(s, i + 1, line, in_str, buf).len() ==> line <= (
            #[trigger] scan_from(s, i + 1, line, in_str, buf)[k]).line <= line + newline_count(
                s,
                i + 1,
            ),
        forall|j: int, k: int|
            0 <= j <= k < scan_from(s, i + 1, line, in_str, buf).len() ==> #[trigger] scan_from(
                s,
                i + 1,
                line,
                in_str,
                buf,
            )[j].line <= #[trigger] scan_from(s, i + 1, line, in_str, buf)[k].line,
        scan_from(s, i + 1, line, in_str, buf).last().line == line + newline_count(s, i + 1),
    ensures
        forall|k: int|
            0 <= k < scan_from(s, i, line, in_str, buf).len() ==> line <= (#[trigger] scan_from(
                s,
                i,
                line,
                in_str,
                buf,
            )[k]).line <= line + newline_count(s, i),
        forall|j: int, k: int|
            0 <= j <= k < scan_from(s, i, line, in_str, buf).len() ==> #[trigger] scan_from(
                s,
                i,
                line,
                in_str,
                buf,
            )[j].line <= #[trigger] scan_from(s, i, line, in_str, buf)[k].line,
        scan_from(s, i, line, in_str, buf).last().line == line + newline_count(s, i),
{
    lemma_cons_facts();
    assert(newline_count(s, i) == newline_count(s, i + 1));
    lemma_cons_lines(
        TokenView { kind: TokenKindView::Error(c, line), line },
        scan_from(s, i + 1, line, in_str, buf),
        line,
        line + newline_count(s, i),
    );
}

/// Line numbers are 1-based, monotonically non-decreasing across the token
/// sequence, never exceed one plus the number of newline characters in the
/// input, and the final `Eof` token's line is exactly one plus that number:
/// the line counter grows by exactly one for each newline consumed.
pub proof fn lemma_line_numbers(s: Seq<char>)
    ensures
        forall|j: int, k: int|
            0 <= j <= k < scan_spec(s).len() ==> #[trigger] scan_spec(s)[j].line
                <= #[trigger] scan_spec(s)[k].line,
        forall|k: int|
            0 <= k < scan_spec(s).len() ==> 1 <= (#[trigger] scan_spec(s)[k]).line <= 1
                + newline_count(s, 0),
        scan_spec(s).last().line == 1 + newline_count(s, 0),
{
    lemma_scan_from_lines(s, 0, 1, false, Seq::empty());
}


} // verus!
