//! A lexical scanner for a small scripting language.
//!
//! The scanner turns raw source text into a flat, ordered sequence of
//! classified tokens, each tagged with the 1-based line on which it was
//! recognized. Illegal input never aborts a scan: it is reported through
//! `Error` tokens embedded in the sequence, and the sequence always ends
//! with exactly one `Eof` token.

pub mod chars;
pub mod laws;
pub mod model;
pub mod scanner;
pub mod token;

pub use scanner::Scanner;
pub use token::ReservedWords;
pub use token::Token;
pub use token::TokenType;
