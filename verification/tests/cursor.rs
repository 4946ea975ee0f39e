use token_scanner::error::{Error, ErrorType};
use token_scanner::scanner::Scanner;
use token_scanner::token::{Literal, Token, TokenType};

fn clusters(parts: &[&str]) -> Vec<String> {
    parts.iter().map(|p| p.to_string()).collect()
}

#[test]
fn a_new_scanner_has_emitted_nothing() {
    let scanner = Scanner::new("(=)".to_string());
    assert!(scanner.tokens().is_empty());
    assert!(scanner.errors().is_empty());
    assert!(!scanner.has_errors());
    assert_eq!(scanner.line(), 1);
    assert!(!scanner.eof());
    assert_eq!(scanner.exit_code(), 0);
}

#[test]
fn a_new_scanner_on_empty_text_is_at_the_end() {
    let scanner = Scanner::new(String::new());
    assert!(scanner.eof());
}

#[test]
fn new_cuts_the_text_into_clusters() {
    let mut scanner = Scanner::new("a\u{310}\r\nb".to_string());
    assert_eq!(scanner.advance(), "a\u{310}");
    assert_eq!(scanner.advance(), "\r\n");
    assert_eq!(scanner.advance(), "b");
    assert!(scanner.eof());
}

#[test]
fn peek_does_not_move_the_cursor() {
    let scanner = Scanner::new("!=".to_string());
    assert_eq!(scanner.peek(), "!");
    assert_eq!(scanner.peek(), "!");
    assert!(!scanner.eof());
}

#[test]
fn advance_returns_the_cluster_and_moves_on() {
    let mut scanner = Scanner::new("!=".to_string());
    assert_eq!(scanner.advance(), "!");
    assert_eq!(scanner.peek(), "=");
    assert_eq!(scanner.advance(), "=");
    assert!(scanner.eof());
    assert_eq!(scanner.line(), 1);
}

#[test]
fn is_compound_token_takes_only_the_expected_character() {
    let mut scanner = Scanner::new("=/".to_string());
    assert!(!scanner.is_compound_token('/'));
    assert_eq!(scanner.peek(), "=");
    assert!(scanner.is_compound_token('='));
    assert_eq!(scanner.peek(), "/");
    assert!(scanner.is_compound_token('/'));
    assert!(scanner.eof());
    assert!(!scanner.is_compound_token('='));
    assert!(scanner.eof());
}

#[test]
fn is_compound_token_does_not_take_part_of_a_cluster() {
    let mut scanner = Scanner::new("=\u{301}".to_string());
    assert!(!scanner.is_compound_token('='));
    assert_eq!(scanner.peek(), "=\u{301}");
}

#[test]
fn substr_joins_clusters() {
    let scanner = Scanner::new("(e\u{301}\r\n)".to_string());
    assert_eq!(scanner.substr(0, 4), "(e\u{301}\r\n)");
    assert_eq!(scanner.substr(1, 2), "e\u{301}");
    assert_eq!(scanner.substr(1, 3), "e\u{301}\r\n");
    assert_eq!(scanner.substr(2, 2), "");
    assert_eq!(scanner.substr(0, 0), "");
}

#[test]
fn substr_stops_at_the_end_of_the_input() {
    let scanner = Scanner::new("abc".to_string());
    assert_eq!(scanner.substr(1, 10), "bc");
    assert_eq!(scanner.substr(3, 10), "");
    assert_eq!(scanner.substr(7, 9), "");
    assert_eq!(scanner.substr(0, usize::MAX), "abc");
}

#[test]
fn add_token_takes_the_text_between_bookmark_and_cursor() {
    let mut scanner = Scanner::new("<=".to_string());
    scanner.advance();
    scanner.advance();
    scanner.add_token(TokenType::LESS_EQUAL, None);
    assert_eq!(
        scanner.tokens(),
        &vec![Token {
            token_type: TokenType::LESS_EQUAL,
            literal: None,
            text: "<=".to_string(),
            line: 1
        }]
    );
}

#[test]
fn add_token_keeps_the_literal() {
    let mut scanner = Scanner::new("\"x\"".to_string());
    scanner.advance();
    scanner.advance();
    scanner.advance();
    scanner.add_token(TokenType::STRING, Some(Literal::String("x".to_string())));
    assert_eq!(
        scanner.tokens(),
        &vec![Token {
            token_type: TokenType::STRING,
            literal: Some(Literal::String("x".to_string())),
            text: "\"x\"".to_string(),
            line: 1
        }]
    );
}

#[test]
fn add_token_gives_the_end_token_an_empty_lexeme() {
    let mut scanner = Scanner::new("()".to_string());
    scanner.advance();
    scanner.add_token(TokenType::EOF, None);
    assert_eq!(
        scanner.tokens(),
        &vec![Token { token_type: TokenType::EOF, literal: None, text: String::new(), line: 1 }]
    );
}

#[test]
fn add_error_sets_the_flag_and_keeps_the_order() {
    let mut scanner = Scanner::new("".to_string());
    assert!(!scanner.has_errors());
    scanner.add_error(ErrorType::UnexpectedCharacter("?".to_string()));
    assert!(scanner.has_errors());
    scanner.add_error(ErrorType::UnterminatedString("\"x".to_string()));
    assert!(scanner.has_errors());
    assert_eq!(
        scanner.errors(),
        &vec![
            Error { error_type: ErrorType::UnexpectedCharacter("?".to_string()), line: 1 },
            Error { error_type: ErrorType::UnterminatedString("\"x".to_string()), line: 1 },
        ]
    );
    assert_eq!(scanner.exit_code(), 65);
    assert!(scanner.tokens().is_empty());
}

#[test]
fn the_error_flag_stays_set() {
    let mut scanner = Scanner::new("$()".to_string());
    scanner.scan_token();
    assert!(scanner.has_errors());
    scanner.scan_tokens();
    assert!(scanner.has_errors());
    assert_eq!(scanner.errors().len(), 1);
}

#[test]
fn scan_token_deals_with_one_item_at_a_time() {
    let mut scanner = Scanner::new("!= // c\n\"s\" $".to_string());
    scanner.scan_token();
    assert_eq!(scanner.tokens().len(), 1);
    assert_eq!(scanner.tokens()[0].token_type, TokenType::BANG_EQUAL);
    assert_eq!(scanner.peek(), " ");
    scanner.scan_token();
    assert_eq!(scanner.tokens().len(), 1);
    assert_eq!(scanner.peek(), "/");
    scanner.scan_token();
    assert_eq!(scanner.tokens().len(), 1);
    assert_eq!(scanner.peek(), "\n");
    assert_eq!(scanner.line(), 1);
    scanner.scan_token();
    assert_eq!(scanner.line(), 2);
    assert_eq!(scanner.peek(), "\"");
    scanner.scan_token();
    assert_eq!(scanner.tokens().len(), 2);
    assert_eq!(scanner.tokens()[1].literal, Some(Literal::String("s".to_string())));
    assert_eq!(scanner.tokens()[1].line, 2);
    scanner.scan_token();
    assert!(scanner.errors().is_empty());
    scanner.scan_token();
    assert_eq!(
        scanner.errors(),
        &vec![Error { error_type: ErrorType::UnexpectedCharacter("$".to_string()), line: 2 }]
    );
    assert!(scanner.eof());
}

#[test]
fn from_clusters_takes_the_clusters_as_given() {
    let mut scanner = Scanner::from_clusters(clusters(&["(", "\n", "!", "=", ")"])).unwrap();
    scanner.scan_tokens();
    let kinds: Vec<TokenType> = scanner.tokens().iter().map(|t| t.token_type).collect();
    assert_eq!(
        kinds,
        vec![
            TokenType::LEFT_PAREN,
            TokenType::BANG_EQUAL,
            TokenType::RIGHT_PAREN,
            TokenType::EOF
        ]
    );
    assert_eq!(scanner.tokens()[1].line, 2);
    assert_eq!(scanner.tokens()[1].text, "!=");
}

#[test]
fn from_clusters_accepts_no_clusters() {
    let mut scanner = Scanner::from_clusters(Vec::new()).unwrap();
    assert!(scanner.eof());
    scanner.scan_tokens();
    assert_eq!(scanner.tokens().len(), 1);
}

#[test]
fn from_clusters_refuses_an_empty_cluster() {
    assert!(Scanner::from_clusters(clusters(&["(", "", ")"])).is_none());
    assert!(Scanner::from_clusters(clusters(&[""])).is_none());
}

#[test]
fn a_cluster_that_spells_an_operator_is_that_operator() {
    let mut scanner = Scanner::from_clusters(clusters(&["==", ">="])).unwrap();
    scanner.scan_tokens();
    let kinds: Vec<TokenType> = scanner.tokens().iter().map(|t| t.token_type).collect();
    assert_eq!(kinds, vec![TokenType::EQUAL_EQUAL, TokenType::GREATER_EQUAL, TokenType::EOF]);
}

#[test]
fn new_and_from_clusters_agree() {
    let mut a = Scanner::new("(\"x\")\n$".to_string());
    let mut b = Scanner::from_clusters(clusters(&["(", "\"", "x", "\"", ")", "\n", "$"])).unwrap();
    a.scan_tokens();
    b.scan_tokens();
    assert_eq!(a.tokens(), b.tokens());
    assert_eq!(a.errors(), b.errors());
    assert_eq!(a.line(), b.line());
}

#[test]
fn try_new_accepts_ordinary_text() {
    let mut scanner = Scanner::try_new("(\n)".to_string()).unwrap();
    scanner.scan_tokens();
    assert_eq!(scanner.tokens().len(), 3);
    assert_eq!(scanner.line(), 2);
    assert!(Scanner::try_new(String::new()).is_some());
}
