use minilang::lexer::Lexer;
use minilang::lexer::error::LexerError;
use minilang::lexer::token::Token;

fn toks(src: &str) -> Vec<Token> {
    Lexer::tokenize(src).expect("tokenize should succeed")
}

#[test]
fn tokenize_addition() {
    assert_eq!(
        toks("1+2"),
        vec![
            Token::LiteralNumber("1".to_string(), false),
            Token::Plus,
            Token::LiteralNumber("2".to_string(), false),
        ]
    );
}

#[test]
fn tokenize_float_and_parens() {
    assert_eq!(
        toks("45.2 * (3 / 2)"),
        vec![
            Token::LiteralNumber("45.2".to_string(), true),
            Token::Star,
            Token::OpenParen,
            Token::LiteralNumber("3".to_string(), false),
            Token::Slash,
            Token::LiteralNumber("2".to_string(), false),
            Token::CloseParen,
        ]
    );
}

#[test]
fn tokenize_keywords_and_identifiers() {
    assert_eq!(
        toks("let mutable _ letter x_1"),
        vec![
            Token::Let,
            Token::Mutable,
            Token::Unit,
            Token::Identifier("letter".to_string()),
            Token::Identifier("x_1".to_string()),
        ]
    );
}

#[test]
fn tokenize_operators() {
    assert_eq!(
        toks("= == ( ) + - * / % ;"),
        vec![
            Token::Assign,
            Token::Equals,
            Token::OpenParen,
            Token::CloseParen,
            Token::Plus,
            Token::Minus,
            Token::Star,
            Token::Slash,
            Token::Percent,
            Token::Semicolon,
        ]
    );
}

#[test]
fn tokenize_second_point_stops_number() {
    assert_eq!(
        toks("1.2.3"),
        vec![
            Token::LiteralNumber("1.2".to_string(), true),
            Token::LiteralNumber(".3".to_string(), true),
        ]
    );
}

#[test]
fn tokenize_leading_point() {
    assert_eq!(toks(".5"), vec![Token::LiteralNumber(".5".to_string(), true)]);
}

#[test]
fn tokenize_string_with_escapes() {
    assert_eq!(
        toks("\"a\\nb\\\"c\\\\d\\te\\bf\\rg\""),
        vec![Token::LiteralString("a\nb\"c\\d\te\u{8}f\rg".to_string())]
    );
}

#[test]
fn tokenize_unrecognized_escape_is_dropped() {
    assert_eq!(toks("\"a\\qb\""), vec![Token::LiteralString("ab".to_string())]);
}

#[test]
fn tokenize_carriage_returns_skipped_in_string() {
    assert_eq!(toks("\"a\rb\""), vec![Token::LiteralString("ab".to_string())]);
}

#[test]
fn unclosed_string_at_end_of_input() {
    assert_eq!(
        Lexer::tokenize("\"abc"),
        Err(LexerError::UnclosedString("abc".to_string()))
    );
}

#[test]
fn unclosed_string_at_newline() {
    assert_eq!(
        Lexer::tokenize("\"ab\ncd\""),
        Err(LexerError::UnclosedString("ab".to_string()))
    );
}

#[test]
fn unexpected_character() {
    assert_eq!(Lexer::tokenize("1 @ 2"), Err(LexerError::UnexpectedChar('@')));
}

#[test]
fn tokenize_empty_source() {
    assert_eq!(toks(""), Vec::<Token>::new());
    assert_eq!(toks(" \t\n"), Vec::<Token>::new());
}
