//! Tokens and their specification-level views.

use vstd::prelude::*;

verus! {

/// The sixteen reserved words of the language.
#[derive(Clone, Copy, Debug, PartialEq, Eq)]
pub enum ReservedWords {
    AND,
    CLASS,
    FOR,
    FALSE,
    ELSE,
    FUN,
    IF,
    NIL,
    OR,
    PRINT,
    RETURN,
    SUPER,
    THIS,
    TRUE,
    VAR,
    WHILE,
}

/// The classification of a token, carrying the data later stages need.
#[derive(Debug, PartialEq)]
pub enum TokenType {
    LeftParen,
    RightParen,
    LeftBrace,
    RightBrace,
    Comma,
    Dot,
    Minus,
    Plus,
    Semicolon,
    Star,
    /// A string literal's contents, quotes stripped, no escape decoding.
    String(String),
    Eof,
    /// An unrecognized character with the line it appeared on; a quote
    /// character stands for a string literal that was never closed.
    Error(char, usize),
    Equals,
    DoubleEquals,
    Greater,
    GreaterEquals,
    LessThan,
    LessThanEquals,
    Bang,
    BangEquals,
    Slash,
    /// A number literal's exact source spelling.
    Number(String),
    /// An identifier that is not a reserved word.
    Identifier(String),
    Reserved(ReservedWords),
}

/// A classified, line-tagged unit produced by scanning.
#[derive(Debug, PartialEq)]
pub struct Token {
    pub token_type: TokenType,
    /// The 1-based line on which the token was recognized.
    pub line: usize,
}

/// The mathematical counterpart of `TokenType`: string payloads are
/// character sequences, line numbers are naturals.
pub enum TokenKindView {
    LeftParen,
    RightParen,
    LeftBrace,
    RightBrace,
    Comma,
    Dot,
    Minus,
    Plus,
    Semicolon,
    Star,
    String(Seq<char>),
    Eof,
    Error(char, nat),
    Equals,
    DoubleEquals,
    Greater,
    GreaterEquals,
    LessThan,
    LessThanEquals,
    Bang,
    BangEquals,
    Slash,
    Number(Seq<char>),
    Identifier(Seq<char>),
    Reserved(ReservedWords),
}

/// The mathematical counterpart of `Token`.
pub struct TokenView {
    pub kind: TokenKindView,
    pub line: nat,
}

impl View for TokenType {
    type V = TokenKindView;

    open spec fn view(&self) -> TokenKindView {
        match self {
            TokenType::LeftParen => TokenKindView::LeftParen,
            TokenType::RightParen => TokenKindView::RightParen,
            TokenType::LeftBrace => TokenKindView::LeftBrace,
            TokenType::RightBrace => TokenKindView::RightBrace,
            TokenType::Comma => TokenKindView::Comma,
            TokenType::Dot => TokenKindView::Dot,
            TokenType::Minus => TokenKindView::Minus,
            TokenType::Plus => TokenKindView::Plus,
            TokenType::Semicolon => TokenKindView::Semicolon,
            TokenType::Star => TokenKindView::Star,
            TokenType::String(s) => TokenKindView::String(s@),
            TokenType::Eof => TokenKindView::Eof,
            TokenType::Error(c, l) => TokenKindView::Error(*c, *l as nat),
            TokenType::Equals => TokenKindView::Equals,
            TokenType::DoubleEquals => TokenKindView::DoubleEquals,
            TokenType::Greater => TokenKindView::Greater,
            TokenType::GreaterEquals => TokenKindView::GreaterEquals,
            TokenType::LessThan => TokenKindView::LessThan,
            TokenType::LessThanEquals => TokenKindView::LessThanEquals,
            TokenType::Bang => TokenKindView::Bang,
            TokenType::BangEquals => TokenKindView::BangEquals,
            TokenType::Slash => TokenKindView::Slash,
            TokenType::Number(s) => TokenKindView::Number(s@),
            TokenType::Identifier(s) => TokenKindView::Identifier(s@),
            TokenType::Reserved(w) => TokenKindView::Reserved(*w),
        }
    }
}

impl View for Token {
    type V = TokenView;

    open spec fn view(&self) -> TokenView {
        TokenView { kind: self.token_type@, line: self.line as nat }
    }
}

/// The views of a sequence of tokens, in order.
pub open spec fn views(tokens: Seq<Token>) -> Seq<TokenView> {
    tokens.map_values(|t: Token| t@)
}

} // verus!
