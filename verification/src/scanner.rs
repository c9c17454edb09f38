//! The scanner: one forward pass over the source text, producing the token
//! sequence that `crate::model::scan_spec` describes.

use vstd::prelude::*;
use vstd::string::StrSliceExecFns;

use crate::chars::is_alpha;
use crate::chars::is_alpha_char;
use crate::chars::is_digit;
use crate::chars::is_digit_char;
use crate::chars::is_ident;
use crate::chars::is_space;
use crate::model::comment_end;
use crate::model::digit_run_end;
use crate::model::ident_run_end;
use crate::model::keyword_of;
use crate::model::number_end;
use crate::model::scan_from;
use crate::model::word_kind;
use crate::token::views;
use crate::token::ReservedWords;
use crate::token::Token;
use crate::token::TokenKindView;
use crate::token::TokenType;
use crate::token::TokenView;

verus! {

/// Relies on `String`'s `FromIterator<char>` implementation: collecting an
/// iterator of characters yields the string of exactly those characters, in
/// order.
#[verifier::external_body]
fn chars_to_string(v: &Vec<char>) -> (r: String)
    ensures
        r@ == v@,
{
    v.iter().collect()
}

/// Character-for-character equality of two string slices.
fn str_eq(a: &str, b: &str) -> (r: bool)
    ensures
        r == (a@ == b@),
{
    let alen: usize = a.unicode_len();
    let blen: usize = b.unicode_len();
    if alen != blen {
        return false;
    }
    let mut i: usize = 0;
    while i < alen
        invariant
            i <= alen,
            alen == a@.len(),
            alen == b@.len(),
            forall|k: int| 0 <= k < i ==> a@[k] == b@[k],
        decreases alen - i,
    {
        if a.get_char(i) != b.get_char(i) {
            return false;
        }
        i = i + 1;
    }
    proof {
        assert(a@ =~= b@);
    }
    true
}

/// The reserved word spelled by `w`, if any: a case-sensitive comparison
/// against the sixteen reserved words.
fn keyword_lookup(w: &str) -> (r: Option<ReservedWords>)
    ensures
        r == keyword_of(w@),
{
    if str_eq(w, "and") {
        Some(ReservedWords::AND)
    } else if str_eq(w, "class") {
        Some(ReservedWords::CLASS)
    } else if str_eq(w, "else") {
        Some(ReservedWords::ELSE)
    } else if str_eq(w, "false") {
        Some(ReservedWords::FALSE)
    } else if str_eq(w, "for") {
        Some(ReservedWords::FOR)
    } else if str_eq(w, "fun") {
        Some(ReservedWords::FUN)
    } else if str_eq(w, "if") {
        Some(ReservedWords::IF)
    } else if str_eq(w, "nil") {
        Some(ReservedWords::NIL)
    } else if str_eq(w, "or") {
        Some(ReservedWords::OR)
    } else if str_eq(w, "print") {
        Some(ReservedWords::PRINT)
    } else if str_eq(w, "return") {
        Some(ReservedWords::RETURN)
    } else if str_eq(w, "super") {
        Some(ReservedWords::SUPER)
    } else if str_eq(w, "this") {
        Some(ReservedWords::THIS)
    } else if str_eq(w, "true") {
        Some(ReservedWords::TRUE)
    } else if str_eq(w, "var") {
        Some(ReservedWords::VAR)
    } else if str_eq(w, "while") {
        Some(ReservedWords::WHILE)
    } else {
        None
    }
}

proof fn lemma_scan_step_error(s: Seq<char>, i: int, line: nat, ins: bool, buf: Seq<char>, c: char)
    requires
        0 <= i < s.len(),
        s[i] == c,
        c != '\n',
        !crate::chars::is_punct_char(c),
        !crate::chars::is_op_start_char(c),
        c != '"',
        c != '/',
        !is_digit_char(c),
        !ins,
        !crate::chars::is_space_char(c),
        !is_alpha_char(c),
    ensures
        scan_from(s, i, line, ins, buf) == seq![
            TokenView { kind: TokenKindView::Error(c, line), line },
        ] + scan_from(s, i + 1, line, ins, buf),
{
}

proof fn lemma_push_concat()
    ensures
        forall|a: Seq<TokenView>, x: TokenView, b: Seq<TokenView>|
            #[trigger] (a.push(x) + b) == a + (seq![x] + b),
{
    assert forall|a: Seq<TokenView>, x: TokenView, b: Seq<TokenView>|
        #[trigger] (a.push(x) + b) == a + (seq![x] + b) by {
        assert(a.push(x) + b =~= a + (seq![x] + b));
    }
}

/// The scanner. It owns a read-only view of the source text and produces
/// the ordered token sequence in one linear pass, with a cursor measured in
/// whole characters and a 1-based line counter.
pub struct Scanner<'a> {
    source: &'a str,
    tokens: Vec<Token>,
    current: usize,
    line: usize,
    in_string: bool,
    string_buffer: Vec<char>,
}

/// The two scanners agree on everything but the cursor: same source, line
/// counter, string state and buffer, and the same tokens emitted so far.
pub open spec fn same_but_cursor<'a>(pre: Scanner<'a>, post: Scanner<'a>) -> bool {
    &&& post.src() == pre.src()
    &&& post.cur_line() == pre.cur_line()
    &&& post.in_str() == pre.in_str()
    &&& post.buf() == pre.buf()
    &&& post.emitted() == pre.emitted()
}

impl<'a> Scanner<'a> {
    /// The source text, as a sequence of characters.
    pub closed spec fn src(&self) -> Seq<char> {
        self.source@
    }

    /// The cursor: how many characters have been consumed.
    pub closed spec fn pos(&self) -> int {
        self.current as int
    }

    /// The current 1-based line number.
    pub closed spec fn cur_line(&self) -> nat {
        self.line as nat
    }

    /// Whether the scan stands inside an open string literal.
    pub closed spec fn in_str(&self) -> bool {
        self.in_string
    }

    /// The contents accumulated so far for an in-progress string literal.
    pub closed spec fn buf(&self) -> Seq<char> {
        self.string_buffer@
    }

    /// The views of the tokens emitted so far, in order.
    pub closed spec fn emitted(&self) -> Seq<TokenView> {
        views(self.tokens@)
    }

    /// Well-formedness: the cursor lies within the source, the line counter
    /// is 1-based and grows by at most one per consumed character, and the
    /// source is short enough for the line counter never to overflow.
    pub closed spec fn wf(&self) -> bool {
        &&& self.current <= self.source@.len()
        &&& self.source@.len() < usize::MAX
        &&& 1 <= self.line
        &&& self.line <= 1 + self.current
    }

    /// A fresh scanner over `source`: cursor at the start, line counter 1,
    /// outside any string, nothing emitted.
    pub fn new(source: &'a str) -> (s: Scanner<'a>)
        requires
            source@.len() < usize::MAX,
        ensures
            s.wf(),
            s.src() == source@,
            s.pos() == 0,
            s.cur_line() == 1,
            !s.in_str(),
            s.buf() == Seq::<char>::empty(),
            s.emitted() == Seq::<TokenView>::empty(),
    {
        let s = Scanner {
            source,
            tokens: Vec::new(),
            current: 0,
            line: 1,
            in_string: false,
            string_buffer: Vec::new(),
        };
        proof {
            assert(s.emitted() =~= Seq::<TokenView>::empty());
        }
        s
    }

    fn at_end(&self) -> (r: bool)
        ensures
            r == (self.pos() >= self.src().len()),
    {
        self.current >= self.source.unicode_len()
    }

    fn peek(&self) -> (r: Option<char>)
        ensures
            self.pos() < self.src().len() ==> r == Some(self.src()[self.pos()]),
            self.pos() >= self.src().len() ==> r is None,
    {
        if self.current < self.source.unicode_len() {
            Some(self.source.get_char(self.current))
        } else {
            None
        }
    }

    fn peek_next(&self) -> (r: Option<char>)
        requires
            self.wf(),
        ensures
            self.pos() + 1 < self.src().len() ==> r == Some(self.src()[self.pos() + 1]),
            self.pos() + 1 >= self.src().len() ==> r is None,
    {
        if self.current + 1 < self.source.unicode_len() {
            Some(self.source.get_char(self.current + 1))
        } else {
            None
        }
    }

    fn advance(&mut self) -> (r: Option<char>)
        requires
            old(self).wf(),
        ensures
            final(self).wf(),
            same_but_cursor(*old(self), *final(self)),
            old(self).pos() < old(self).src().len() ==> (r == Some(
                old(self).src()[old(self).pos()],
            ) && final(self).pos() == old(self).pos() + 1),
            old(self).pos() >= old(self).src().len() ==> (r is None && final(self).pos() == old(
                self,
            ).pos()),
    {
        if self.current < self.source.unicode_len() {
            let c = self.source.get_char(self.current);
            self.current = self.current + 1;
            Some(c)
        } else {
            None
        }
    }

    fn match_next(&mut self, expected: char) -> (r: bool)
        requires
            old(self).wf(),
        ensures
            final(self).wf(),
            same_but_cursor(*old(self), *final(self)),
            r == (old(self).pos() < old(self).src().len() && old(self).src()[old(self).pos()]
                == expected),
            r ==> final(self).pos() == old(self).pos() + 1,
            !r ==> final(self).pos() == old(self).pos(),
    {
        let next = self.peek();
        match next {
            Some(c) => {
                if c == expected {
                    self.advance();
                    true
                } else {
                    false
                }
            },
            None => false,
        }
    }

    /// Discards characters up to, but not including, the next newline or
    /// the end of the input.
    fn skip_line_comment(&mut self)
        requires
            old(self).wf(),
        ensures
            final(self).wf(),
            same_but_cursor(*old(self), *final(self)),
            old(self).pos() <= final(self).pos(),
            final(self).pos() == comment_end(old(self).src(), old(self).pos()),
    {
        loop
            invariant
                self.wf(),
                same_but_cursor(*old(self), *self),
                old(self).pos() <= self.pos(),
                comment_end(self.src(), self.pos()) == comment_end(
                    old(self).src(),
                    old(self).pos(),
                ),
            ensures
                self.wf(),
                same_but_cursor(*old(self), *self),
                self.pos() == comment_end(old(self).src(), old(self).pos()),
            decreases self.src().len() - self.pos(),
        {
            let p = self.peek();
            match p {
                Some(ch) => {
                    if ch == '\n' {
                        break ;
                    }
                    self.advance();
                },
                None => {
                    break ;
                },
            }
        }
    }

    /// Consumes the rest of a number literal whose first digit, `curr`, the
    /// caller has just consumed, and returns its exact source spelling: a
    /// maximal digit run, then a fractional part only when a `.` followed
    /// by a digit comes next.
    fn scan_number(&mut self, curr: char) -> (r: String)
        requires
            old(self).wf(),
            1 <= old(self).pos(),
            old(self).src()[old(self).pos() - 1] == curr,
            is_digit_char(curr),
        ensures
            final(self).wf(),
            same_but_cursor(*old(self), *final(self)),
            old(self).pos() <= final(self).pos(),
            final(self).pos() == number_end(old(self).src(), old(self).pos() - 1),
            r@ == old(self).src().subrange(
                old(self).pos() - 1,
                number_end(old(self).src(), old(self).pos() - 1),
            ),
    {
        let start: usize = self.current - 1;
        proof {
            assert(digit_run_end(self.src(), start as int) == digit_run_end(
                self.src(),
                self.pos(),
            ));
        }
        self.digit_run();
        let p = self.peek();
        let pn = self.peek_next();
        let mut fraction = false;
        match (p, pn) {
            (Some(dot), Some(d)) => {
                if dot == '.' && is_digit(d) {
                    fraction = true;
                }
            },
            _ => {},
        }
        if fraction {
            self.advance();
            self.digit_run();
        }
        let end: usize = self.current;
        let r = self.source.substring_char(start, end).to_owned();
        r
    }

    /// Consumes the maximal run of ASCII digits beginning at the cursor.
    fn digit_run(&mut self)
        requires
            old(self).wf(),
        ensures
            final(self).wf(),
            same_but_cursor(*old(self), *final(self)),
            old(self).pos() <= final(self).pos(),
            final(self).pos() == digit_run_end(old(self).src(), old(self).pos()),
    {
        loop
            invariant
                self.wf(),
                same_but_cursor(*old(self), *self),
                old(self).pos() <= self.pos(),
                digit_run_end(self.src(), self.pos()) == digit_run_end(
                    old(self).src(),
                    old(self).pos(),
                ),
            ensures
                self.wf(),
                same_but_cursor(*old(self), *self),
                old(self).pos() <= self.pos(),
                self.pos() == digit_run_end(old(self).src(), old(self).pos()),
            decreases self.src().len() - self.pos(),
        {
            let p = self.peek();
            match p {
                Some(ch) => {
                    if is_digit(ch) {
                        self.advance();
                    } else {
                        break ;
                    }
                },
                None => {
                    break ;
                },
            }
        }
    }

    /// Consumes the rest of an identifier or reserved word whose first
    /// letter, `curr`, the caller has just consumed: a maximal run of
    /// letters, digits and underscores, compared case-sensitively against
    /// the reserved words once the whole run is in hand.
    fn identifier(&mut self, curr: char) -> (r: TokenType)
        requires
            old(self).wf(),
            1 <= old(self).pos(),
            old(self).src()[old(self).pos() - 1] == curr,
            is_alpha_char(curr),
        ensures
            final(self).wf(),
            same_but_cursor(*old(self), *final(self)),
            old(self).pos() <= final(self).pos(),
            final(self).pos() == ident_run_end(old(self).src(), old(self).pos() - 1),
            r@ == word_kind(
                old(self).src().subrange(
                    old(self).pos() - 1,
                    ident_run_end(old(self).src(), old(self).pos() - 1),
                ),
            ),
    {
        let start: usize = self.current - 1;
        proof {
            assert(ident_run_end(self.src(), start as int) == ident_run_end(
                self.src(),
                self.pos(),
            ));
        }
        loop
            invariant
                self.wf(),
                same_but_cursor(*old(self), *self),
                start + 1 <= self.pos(),
                ident_run_end(self.src(), self.pos()) == ident_run_end(
                    old(self).src(),
                    start as int,
                ),
            ensures
                self.wf(),
                same_but_cursor(*old(self), *self),
                start + 1 <= self.pos(),
                self.pos() == ident_run_end(old(self).src(), start as int),
            decreases self.src().len() - self.pos(),
        {
            let p = self.peek();
            match p {
                Some(ch) => {
                    if is_ident(ch) {
                        self.advance();
                    } else {
                        break ;
                    }
                },
                None => {
                    break ;
                },
            }
        }
        let end: usize = self.current;
        let word = self.source.substring_char(start, end);
        let looked = keyword_lookup(word);
        match looked {
            Some(k) => TokenType::Reserved(k),
            None => TokenType::Identifier(word.to_owned()),
        }
    }

    /// Appends a token of kind `kind` at the current line.
    fn push(&mut self, kind: TokenType)
        requires
            old(self).wf(),
        ensures
            final(self).wf(),
            final(self).src() == old(self).src(),
            final(self).pos() == old(self).pos(),
            final(self).cur_line() == old(self).cur_line(),
            final(self).in_str() == old(self).in_str(),
            final(self).buf() == old(self).buf(),
            final(self).emitted() == old(self).emitted().push(
                TokenView { kind: kind@, line: old(self).cur_line() },
            ),
    {
        let ghost kv = kind@;
        let line: usize = self.line;
        self.tokens.push(Token { token_type: kind, line });
        proof {
            assert(self.emitted() =~= old(self).emitted().push(
                TokenView { kind: kv, line: old(self).cur_line() },
            ));
        }
    }

    /// Appends an `Error` token carrying the unrecognized character `c`,
    /// which the caller has just consumed, and the current line: one whole
    /// step of the scanning model.
    fn push_error(&mut self, c: char)
        requires
            old(self).wf(),
            1 <= old(self).pos() <= old(self).src().len(),
            old(self).src()[old(self).pos() - 1] == c,
            c != '\n',
            !crate::chars::is_punct_char(c),
            !crate::chars::is_op_start_char(c),
            c != '"',
            c != '/',
            !is_digit_char(c),
            !old(self).in_str(),
            !crate::chars::is_space_char(c),
            !is_alpha_char(c),
        ensures
            final(self).wf(),
            final(self).src() == old(self).src(),
            final(self).pos() == old(self).pos(),
            final(self).cur_line() == old(self).cur_line(),
            final(self).in_str() == old(self).in_str(),
            final(self).buf() == old(self).buf(),
            old(self).emitted() + scan_from(
                old(self).src(),
                old(self).pos() - 1,
                old(self).cur_line(),
                old(self).in_str(),
                old(self).buf(),
            ) == final(self).emitted() + scan_from(
                old(self).src(),
                old(self).pos(),
                old(self).cur_line(),
                old(self).in_str(),
                old(self).buf(),
            ),
    {
        let line: usize = self.line;
        self.tokens.push(Token { token_type: TokenType::Error(c, line), line });
        proof {
            lemma_push_concat();
            lemma_scan_step_error(
                old(self).src(),
                old(self).pos() - 1,
                old(self).cur_line(),
                old(self).in_str(),
                old(self).buf(),
                c,
            );
            assert(self.emitted() =~= old(self).emitted().push(
                TokenView {
                    kind: TokenKindView::Error(c, old(self).cur_line()),
                    line: old(self).cur_line(),
                },
            ));
        }
    }

    /// Performs one scanning decision at the cursor: consumes at least one
    /// character, and what it emits and how it moves the state is exactly
    /// one step of the scanning model `scan_from`.
    #[verifier::rlimit(100)]
    fn step(&mut self)
        requires
            old(self).wf(),
            old(self).pos() < old(self).src().len(),
        ensures
            final(self).wf(),
            final(self).src() == old(self).src(),
            old(self).pos() < final(self).pos(),
            old(self).emitted() + scan_from(
                old(self).src(),
                old(self).pos(),
                old(self).cur_line(),
                old(self).in_str(),
                old(self).buf(),
            ) == final(self).emitted() + scan_from(
                final(self).src(),
                final(self).pos(),
                final(self).cur_line(),
                final(self).in_str(),
                final(self).buf(),
            ),
    {
        let copt = self.advance();
        let c = copt.unwrap();
        if c == '\n' {
            self.line = self.line + 1;
        } else if c == '(' {
            self.push(TokenType::LeftParen);
        } else if c == ')' {
            self.push(TokenType::RightParen);
        } else if c == '{' {
            self.push(TokenType::LeftBrace);
        } else if c == '}' {
            self.push(TokenType::RightBrace);
        } else if c == ',' {
            self.push(TokenType::Comma);
        } else if c == '.' {
            self.push(TokenType::Dot);
        } else if c == '-' {
            self.push(TokenType::Minus);
        } else if c == '+' {
            self.push(TokenType::Plus);
        } else if c == '*' {
            self.push(TokenType::Star);
        } else if c == ';' {
            self.push(TokenType::Semicolon);
        } else if c == '=' {
            if self.match_next('=') {
                self.push(TokenType::DoubleEquals);
            } else {
                self.push(TokenType::Equals);
            }
        } else if c == '>' {
            if self.match_next('=') {
                self.push(TokenType::GreaterEquals);
            } else {
                self.push(TokenType::Greater);
            }
        } else if c == '<' {
            if self.match_next('=') {
                self.push(TokenType::LessThanEquals);
            } else {
                self.push(TokenType::LessThan);
            }
        } else if c == '!' {
            if self.match_next('=') {
                self.push(TokenType::BangEquals);
            } else {
                self.push(TokenType::Bang);
            }
        } else if c == '"' {
            if self.in_string {
                let text = chars_to_string(&self.string_buffer);
                self.push(TokenType::String(text));
                self.string_buffer = Vec::new();
                self.in_string = false;
            } else {
                self.in_string = true;
            }
        } else if c == '/' {
            if self.match_next('/') {
                self.skip_line_comment();
            } else {
                self.push(TokenType::Slash);
            }
        } else if is_digit(c) {
            let val = self.scan_number(c);
            self.push(TokenType::Number(val));
        } else if self.in_string {
            self.string_buffer.push(c);
        } else if is_space(c) {
            // whitespace outside a string is discarded
        } else if is_alpha(c) {
            let word = self.identifier(c);
            self.push(word);
        } else {
            self.push_error(c);
        }
        proof {
            lemma_push_concat();
        }
    }

    /// Scans the whole remaining input and returns the token sequence:
    /// exactly the tokens already emitted, followed by what the scanning
    /// model `scan_from` produces from the scanner's current state. On a
    /// fresh scanner that is `scan_spec` of the source text.
    pub fn scan_tokens(self) -> (r: Vec<Token>)
        requires
            self.wf(),
        ensures
            views(r@) == self.emitted() + scan_from(
                self.src(),
                self.pos(),
                self.cur_line(),
                self.in_str(),
                self.buf(),
            ),
    {
        let ghost init = self;
        let ghost target = self.emitted() + scan_from(
            self.src(),
            self.pos(),
            self.cur_line(),
            self.in_str(),
            self.buf(),
        );
        let mut sc = self;
        while !sc.at_end()
            invariant
                sc.wf(),
                sc.src() == init.src(),
                target == sc.emitted() + scan_from(
                    sc.src(),
                    sc.pos(),
                    sc.cur_line(),
                    sc.in_str(),
                    sc.buf(),
                ),
            decreases sc.src().len() - sc.pos(),
        {
            sc.step();
        }
        let ghost endst = sc;
        if sc.in_string {
            let line: usize = sc.line;
            sc.push(TokenType::Error('"', line));
        }
        sc.push(TokenType::Eof);
        proof {
            assert(endst.pos() == endst.src().len());
            assert(sc.emitted() =~= target);
        }
        sc.tokens
    }
}

} // verus!
