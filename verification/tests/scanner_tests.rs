use lox_scanner::ReservedWords;
use lox_scanner::Scanner;
use lox_scanner::Token;
use lox_scanner::TokenType;

fn scan(source: &str) -> Vec<Token> {
    Scanner::new(source).scan_tokens()
}

fn tok(token_type: TokenType, line: usize) -> Token {
    Token { token_type, line }
}

#[test]
fn empty_input_yields_only_eof() {
    assert_eq!(scan(""), vec![tok(TokenType::Eof, 1)]);
}

#[test]
fn punctuation_round_trip() {
    assert_eq!(
        scan("({})"),
        vec![
            tok(TokenType::LeftParen, 1),
            tok(TokenType::LeftBrace, 1),
            tok(TokenType::RightBrace, 1),
            tok(TokenType::RightParen, 1),
            tok(TokenType::Eof, 1),
        ]
    );
}

#[test]
fn all_single_char_punctuation() {
    assert_eq!(
        scan(",.-+*;"),
        vec![
            tok(TokenType::Comma, 1),
            tok(TokenType::Dot, 1),
            tok(TokenType::Minus, 1),
            tok(TokenType::Plus, 1),
            tok(TokenType::Star, 1),
            tok(TokenType::Semicolon, 1),
            tok(TokenType::Eof, 1),
        ]
    );
}

#[test]
fn bang_equals_is_one_token() {
    assert_eq!(
        scan("!="),
        vec![tok(TokenType::BangEquals, 1), tok(TokenType::Eof, 1)]
    );
}

#[test]
fn bang_alone_at_end_of_input() {
    assert_eq!(scan("!"), vec![tok(TokenType::Bang, 1), tok(TokenType::Eof, 1)]);
}

#[test]
fn comparison_operators() {
    assert_eq!(
        scan("= == > >= < <="),
        vec![
            tok(TokenType::Equals, 1),
            tok(TokenType::DoubleEquals, 1),
            tok(TokenType::Greater, 1),
            tok(TokenType::GreaterEquals, 1),
            tok(TokenType::LessThan, 1),
            tok(TokenType::LessThanEquals, 1),
            tok(TokenType::Eof, 1),
        ]
    );
}

#[test]
fn number_with_trailing_dot_leaves_the_dot() {
    assert_eq!(
        scan("123."),
        vec![
            tok(TokenType::Number("123".to_string()), 1),
            tok(TokenType::Dot, 1),
            tok(TokenType::Eof, 1),
        ]
    );
}

#[test]
fn fractional_number_is_one_token() {
    assert_eq!(
        scan("3.14"),
        vec![tok(TokenType::Number("3.14".to_string()), 1), tok(TokenType::Eof, 1)]
    );
}

#[test]
fn dot_without_following_digit_after_number() {
    assert_eq!(
        scan("1.x"),
        vec![
            tok(TokenType::Number("1".to_string()), 1),
            tok(TokenType::Dot, 1),
            tok(TokenType::Identifier("x".to_string()), 1),
            tok(TokenType::Eof, 1),
        ]
    );
}

#[test]
fn number_then_identifier() {
    assert_eq!(
        scan("12ab"),
        vec![
            tok(TokenType::Number("12".to_string()), 1),
            tok(TokenType::Identifier("ab".to_string()), 1),
            tok(TokenType::Eof, 1),
        ]
    );
}

#[test]
fn unterminated_string_reports_error_and_no_string_token() {
    assert_eq!(
        scan("\"abc"),
        vec![tok(TokenType::Error('"', 1), 1), tok(TokenType::Eof, 1)]
    );
}

#[test]
fn unterminated_string_reports_line_where_input_ended() {
    assert_eq!(
        scan("\"a\nb"),
        vec![tok(TokenType::Error('"', 2), 2), tok(TokenType::Eof, 2)]
    );
}

#[test]
fn string_literal_contents_without_quotes() {
    assert_eq!(
        scan("\"hi\""),
        vec![tok(TokenType::String("hi".to_string()), 1), tok(TokenType::Eof, 1)]
    );
}

#[test]
fn string_closing_on_later_line_is_tagged_with_that_line() {
    // the newline inside the literal advances the line counter and is not
    // stored in the literal's contents
    assert_eq!(
        scan("\"a\nb\""),
        vec![tok(TokenType::String("ab".to_string()), 2), tok(TokenType::Eof, 2)]
    );
}

#[test]
fn punctuation_inside_string_is_still_tokenized() {
    // single-character punctuation outranks string accumulation in the
    // dispatch order
    assert_eq!(
        scan("\"a(b\""),
        vec![
            tok(TokenType::LeftParen, 1),
            tok(TokenType::String("ab".to_string()), 1),
            tok(TokenType::Eof, 1),
        ]
    );
}

#[test]
fn unknown_character_gives_error_token() {
    assert_eq!(
        scan("@"),
        vec![tok(TokenType::Error('@', 1), 1), tok(TokenType::Eof, 1)]
    );
}

#[test]
fn scanning_continues_after_unknown_character() {
    assert_eq!(
        scan("@+"),
        vec![
            tok(TokenType::Error('@', 1), 1),
            tok(TokenType::Plus, 1),
            tok(TokenType::Eof, 1),
        ]
    );
}

#[test]
fn underscore_cannot_start_an_identifier() {
    assert_eq!(
        scan("_"),
        vec![tok(TokenType::Error('_', 1), 1), tok(TokenType::Eof, 1)]
    );
}

#[test]
fn classroom_is_a_single_identifier() {
    assert_eq!(
        scan("classroom"),
        vec![
            tok(TokenType::Identifier("classroom".to_string()), 1),
            tok(TokenType::Eof, 1),
        ]
    );
}

#[test]
fn class_alone_is_reserved() {
    assert_eq!(
        scan("class"),
        vec![tok(TokenType::Reserved(ReservedWords::CLASS), 1), tok(TokenType::Eof, 1)]
    );
}

#[test]
fn identifier_with_digits_and_underscores() {
    assert_eq!(
        scan("a_1b"),
        vec![tok(TokenType::Identifier("a_1b".to_string()), 1), tok(TokenType::Eof, 1)]
    );
}

#[test]
fn all_sixteen_reserved_words() {
    let source = "and class else false for fun if nil or print return super this true var while";
    let expected = vec![
        ReservedWords::AND,
        ReservedWords::CLASS,
        ReservedWords::ELSE,
        ReservedWords::FALSE,
        ReservedWords::FOR,
        ReservedWords::FUN,
        ReservedWords::IF,
        ReservedWords::NIL,
        ReservedWords::OR,
        ReservedWords::PRINT,
        ReservedWords::RETURN,
        ReservedWords::SUPER,
        ReservedWords::THIS,
        ReservedWords::TRUE,
        ReservedWords::VAR,
        ReservedWords::WHILE,
    ];
    let tokens = scan(source);
    assert_eq!(tokens.len(), 17);
    for (i, word) in expected.iter().enumerate() {
        assert_eq!(tokens[i], tok(TokenType::Reserved(*word), 1));
    }
    assert_eq!(tokens[16], tok(TokenType::Eof, 1));
}

#[test]
fn slash_alone_is_a_token() {
    assert_eq!(scan("/"), vec![tok(TokenType::Slash, 1), tok(TokenType::Eof, 1)]);
}

#[test]
fn line_comment_is_discarded_to_end_of_line() {
    assert_eq!(
        scan("a//xyz .,;\nb"),
        vec![
            tok(TokenType::Identifier("a".to_string()), 1),
            tok(TokenType::Identifier("b".to_string()), 2),
            tok(TokenType::Eof, 2),
        ]
    );
}

#[test]
fn comment_at_end_of_input() {
    assert_eq!(scan("// nothing"), vec![tok(TokenType::Eof, 1)]);
}

#[test]
fn whitespace_contributes_no_tokens() {
    assert_eq!(scan(" \t\r "), vec![tok(TokenType::Eof, 1)]);
}

#[test]
fn token_count_is_units_plus_one_eof() {
    // two recognized units, a comment and whitespace contribute none
    let tokens = scan("// c\n( )");
    assert_eq!(tokens.len(), 3);
    assert_eq!(tokens[2], tok(TokenType::Eof, 2));
}

#[test]
fn every_scan_ends_with_exactly_one_eof() {
    for source in ["", "(", "\"open", "@#$", "1 + 2\n", "and or"] {
        let tokens = scan(source);
        assert!(tokens.len() >= 1);
        assert!(matches!(tokens[tokens.len() - 1].token_type, TokenType::Eof));
        let eof_count: usize = tokens
            .iter()
            .filter(|t| matches!(t.token_type, TokenType::Eof))
            .count();
        assert_eq!(eof_count, 1);
    }
}

#[test]
fn line_numbers_follow_newlines() {
    assert_eq!(
        scan("(\n)\n+"),
        vec![
            tok(TokenType::LeftParen, 1),
            tok(TokenType::RightParen, 2),
            tok(TokenType::Plus, 3),
            tok(TokenType::Eof, 3),
        ]
    );
}

#[test]
fn line_numbers_never_decrease() {
    let tokens = scan("a\nb\n\nc @\n\"s\ntr\" 1.5//x\nend");
    let mut prev: usize = 1;
    for t in &tokens {
        assert!(t.line >= prev);
        prev = t.line;
    }
}

#[test]
fn multibyte_characters_are_single_error_units() {
    assert_eq!(
        scan("\u{00e9}"),
        vec![tok(TokenType::Error('\u{00e9}', 1), 1), tok(TokenType::Eof, 1)]
    );
}
