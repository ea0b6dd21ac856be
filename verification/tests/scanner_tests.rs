//! Tests of the two scanners: token kinds, locations and literal payloads.

use cool_rs::parsing::scanner::Scanner as ParsingScanner;
use cool_rs::parsing::token::{LexicalError, Loc, Token};
use cool_rs::scanner::{Literal, Scanner, TokenType};

fn scan_and_get_tokens(input: &str) -> Vec<TokenType> {
    let mut scanner = Scanner::default();
    scanner.scan_tokens(input.to_string());
    scanner.tokens.iter().map(|token| token.ty.clone()).collect()
}

#[test]
fn test_keywords() {
    let input = "class if while let";
    let mut scanner = ParsingScanner::new(input);
    let tokens = scanner.scan_tokens().unwrap();
    let loc = Loc { line: 1, column: 0 };
    let expected = vec![
        (Token::Class_, loc.clone()),
        (Token::If, loc.clone()),
        (Token::While, loc.clone()),
        (Token::Let, loc),
    ];
    assert_eq!(tokens, expected);
}

#[test]
fn test_operators() {
    let input = "+ - * / <- =>";
    let mut scanner = ParsingScanner::new(input);
    let tokens = scanner.scan_tokens().unwrap();
    let loc = Loc { line: 1, column: 0 };
    let expected = vec![
        (Token::Plus, loc.clone()),
        (Token::Minus, loc.clone()),
        (Token::Mul, loc.clone()),
        (Token::Divide, loc.clone()),
        (Token::Assign, loc.clone()),
        (Token::Darrow, loc),
    ];
    assert_eq!(tokens, expected);
}

#[test]
fn scanner_test_keywords() {
    let input = "if else while loop";
    let tokens = scan_and_get_tokens(input);
    let expected = vec![TokenType::If, TokenType::Else, TokenType::While, TokenType::Loop];
    assert_eq!(tokens, expected);
}

#[test]
fn scanner_test_operators() {
    let input = "+ - * / < <= > >= = <-";
    let tokens = scan_and_get_tokens(input);
    let expected = vec![
        TokenType::Add,
        TokenType::Sub,
        TokenType::Mul,
        TokenType::Div,
        TokenType::Lt,
        TokenType::Lteq,
        TokenType::Gt,
        TokenType::Gteq,
        TokenType::Eq,
        TokenType::Assign,
    ];
    assert_eq!(tokens, expected);
}

#[test]
fn test_identifiers() {
    let input = "foo bar my_variable";
    let tokens = scan_and_get_tokens(input);
    let expected = vec![TokenType::Identifier, TokenType::Identifier, TokenType::Identifier];
    assert_eq!(tokens, expected);
}

#[test]
fn test_types() {
    let input = "Int String Bool";
    let tokens = scan_and_get_tokens(input);
    let expected = vec![TokenType::Type, TokenType::Type, TokenType::Type];
    assert_eq!(tokens, expected);
}

#[test]
fn test_numbers() {
    let input = "42 123456";
    let tokens = scan_and_get_tokens(input);
    let expected = vec![TokenType::Number, TokenType::Number];
    assert_eq!(tokens, expected);
}

#[test]
fn test_strings() {
    let input = r#""hello" "world""#;
    let tokens = scan_and_get_tokens(input);
    let expected = vec![TokenType::String, TokenType::String];
    assert_eq!(tokens, expected);
}

#[test]
fn test_unterminated_string() {
    let input = r#""hello"#;
    let tokens = scan_and_get_tokens(input);
    let expected = vec![TokenType::Error];
    assert_eq!(tokens, expected);
}

#[test]
fn test_comments() {
    let input = "let x = 42; -- this is a comment\nlet y = 13;";
    let tokens = scan_and_get_tokens(input);
    let expected = vec![
        TokenType::Let,
        TokenType::Identifier,
        TokenType::Eq,
        TokenType::Number,
        TokenType::Semicolon,
        TokenType::Let,
        TokenType::Identifier,
        TokenType::Eq,
        TokenType::Number,
        TokenType::Semicolon,
    ];
    assert_eq!(tokens, expected);
}

#[test]
fn test_complex_case() {
    let input = r#"class Main inherits IO {
            let x: Int <- 42;
            let y: String <- "Hello";
        }"#;
    let tokens = scan_and_get_tokens(input);
    let expected = vec![
        TokenType::Class,
        TokenType::Identifier,
        TokenType::Inherits,
        TokenType::Identifier,
        TokenType::Lbracket,
        TokenType::Let,
        TokenType::Identifier,
        TokenType::Colon,
        TokenType::Type,
        TokenType::Assign,
        TokenType::Number,
        TokenType::Semicolon,
        TokenType::Let,
        TokenType::Identifier,
        TokenType::Colon,
        TokenType::Type,
        TokenType::Assign,
        TokenType::String,
        TokenType::Semicolon,
        TokenType::Rbracket,
    ];
    assert_eq!(tokens, expected);
}

#[test]
fn test_literal_payloads() {
    let mut scanner = Scanner::default();
    scanner.scan_tokens("42 \"hello\" 2147483648".to_string());
    assert_eq!(scanner.tokens.len(), 3);
    assert_eq!(scanner.tokens[0].ty, TokenType::Number);
    assert_eq!(scanner.tokens[0].literal, Some(Literal::Number(42)));
    assert_eq!(scanner.tokens[0].lexeme, b"42".to_vec());
    assert_eq!(scanner.tokens[1].ty, TokenType::String);
    assert_eq!(scanner.tokens[1].literal, Some(Literal::Str("hello".to_string())));
    // One past the 32-bit signed range is marked, not parsed.
    assert_eq!(scanner.tokens[2].ty, TokenType::Error);
}

#[test]
fn test_parsing_scanner_payloads_and_lines() {
    let mut scanner = ParsingScanner::new("x <- 7\nY");
    let tokens = scanner.scan_tokens().unwrap();
    assert_eq!(tokens.len(), 4);
    assert_eq!(tokens[0].0, Token::Objectid("x".to_string()));
    assert_eq!(tokens[1].0, Token::Assign);
    assert_eq!(tokens[2].0, Token::IntConst("7".to_string()));
    assert_eq!(tokens[2].1.line, 1);
    assert_eq!(tokens[3].0, Token::Typeid("Y".to_string()));
    assert_eq!(tokens[3].1.line, 2);
}

#[test]
fn test_parsing_scanner_errors() {
    let mut scanner = ParsingScanner::new("let x = ?");
    match scanner.scan_tokens() {
        Err(LexicalError::InvalidChar(c, _)) => assert_eq!(c, '?'),
        other => panic!("expected an invalid-character error, got {:?}", other),
    }
    let mut scanner = ParsingScanner::new("\"open");
    assert!(matches!(scanner.scan_tokens(), Err(LexicalError::UnterminatedString(_))));
    let mut scanner = ParsingScanner::new("99999999999");
    assert!(matches!(scanner.scan_tokens(), Err(LexicalError::InvalidNumber(_, _))));
}
