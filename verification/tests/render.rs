use token_scanner::error::{Error, ErrorType};
use token_scanner::render::decimal_text;
use token_scanner::scanner::Scanner;
use token_scanner::token::{Literal, Token, TokenType};

#[test]
fn decimal_text_of_small_and_large_numbers() {
    assert_eq!(decimal_text(0), "0");
    assert_eq!(decimal_text(7), "7");
    assert_eq!(decimal_text(9), "9");
    assert_eq!(decimal_text(10), "10");
    assert_eq!(decimal_text(65), "65");
    assert_eq!(decimal_text(100), "100");
    assert_eq!(decimal_text(1234567890), "1234567890");
    assert_eq!(decimal_text(usize::MAX), usize::MAX.to_string());
}

#[test]
fn literal_text_is_the_string_or_null() {
    assert_eq!(Literal::String("abc".to_string()).text(), "abc");
    assert_eq!(Literal::String(String::new()).text(), "");
    assert_eq!(Literal::NULL.text(), "null");
}

#[test]
fn error_messages() {
    assert_eq!(
        ErrorType::UnexpectedCharacter("$".to_string()).message(),
        "Unexpected character: $"
    );
    assert_eq!(
        ErrorType::UnexpectedCharacter("e\u{301}".to_string()).message(),
        "Unexpected character: e\u{301}"
    );
    assert_eq!(
        ErrorType::UnterminatedString("\"abc".to_string()).message(),
        "Unterminated string."
    );
}

#[test]
fn error_lines() {
    let error = Error { error_type: ErrorType::UnexpectedCharacter("#".to_string()), line: 1 };
    assert_eq!(error.render(), "[line 1] Error: Unexpected character: #");
    let error = Error { error_type: ErrorType::UnterminatedString("\"x".to_string()), line: 120 };
    assert_eq!(error.render(), "[line 120] Error: Unterminated string.");
}

#[test]
fn kind_names_are_the_names_of_the_kinds() {
    for kind in [
        TokenType::LEFT_PAREN,
        TokenType::RIGHT_PAREN,
        TokenType::LEFT_BRACE,
        TokenType::RIGHT_BRACE,
        TokenType::STAR,
        TokenType::DOT,
        TokenType::COMMA,
        TokenType::PLUS,
        TokenType::MINUS,
        TokenType::SEMICOLON,
        TokenType::SLASH,
        TokenType::EQUAL,
        TokenType::EQUAL_EQUAL,
        TokenType::BANG,
        TokenType::BANG_EQUAL,
        TokenType::LESS,
        TokenType::LESS_EQUAL,
        TokenType::GREATER,
        TokenType::GREATER_EQUAL,
        TokenType::EOF,
        TokenType::LINE_BREAK,
        TokenType::ERROR,
        TokenType::STRING,
    ] {
        assert_eq!(kind.name(), format!("{:?}", kind));
    }
}

#[test]
fn token_lines() {
    let token = Token {
        token_type: TokenType::LEFT_PAREN,
        literal: None,
        text: "(".to_string(),
        line: 1,
    };
    assert_eq!(token.render(), "LEFT_PAREN ( null");
    let token = Token {
        token_type: TokenType::STRING,
        literal: Some(Literal::String("abc".to_string())),
        text: "\"abc\"".to_string(),
        line: 3,
    };
    assert_eq!(token.render(), "STRING \"abc\" abc");
    let token = Token { token_type: TokenType::EOF, literal: None, text: String::new(), line: 1 };
    assert_eq!(token.render(), "EOF  null");
    let token = Token {
        token_type: TokenType::EOF,
        literal: Some(Literal::NULL),
        text: String::new(),
        line: 1,
    };
    assert_eq!(token.render(), "EOF  null");
}

#[test]
fn a_whole_scan_rendered() {
    let mut scanner = Scanner::new("(\"hi\") != @\n\"open".to_string());
    scanner.scan_tokens();
    let tokens: Vec<String> = scanner.tokens().iter().map(|t| t.render()).collect();
    assert_eq!(
        tokens,
        vec!["LEFT_PAREN ( null", "STRING \"hi\" hi", "RIGHT_PAREN ) null", "BANG_EQUAL != null", "EOF  null"]
    );
    let errors: Vec<String> = scanner.errors().iter().map(|e| e.render()).collect();
    assert_eq!(
        errors,
        vec!["[line 1] Error: Unexpected character: @", "[line 2] Error: Unterminated string."]
    );
    assert_eq!(scanner.exit_code(), 65);
}
