use token_scanner::token::TokenType;

#[test]
fn parse_knows_the_single_characters() {
    assert_eq!(TokenType::parse("("), Some(TokenType::LEFT_PAREN));
    assert_eq!(TokenType::parse(")"), Some(TokenType::RIGHT_PAREN));
    assert_eq!(TokenType::parse("{"), Some(TokenType::LEFT_BRACE));
    assert_eq!(TokenType::parse("}"), Some(TokenType::RIGHT_BRACE));
    assert_eq!(TokenType::parse("*"), Some(TokenType::STAR));
    assert_eq!(TokenType::parse("."), Some(TokenType::DOT));
    assert_eq!(TokenType::parse(","), Some(TokenType::COMMA));
    assert_eq!(TokenType::parse("+"), Some(TokenType::PLUS));
    assert_eq!(TokenType::parse("-"), Some(TokenType::MINUS));
    assert_eq!(TokenType::parse(";"), Some(TokenType::SEMICOLON));
    assert_eq!(TokenType::parse("/"), Some(TokenType::SLASH));
    assert_eq!(TokenType::parse("="), Some(TokenType::EQUAL));
    assert_eq!(TokenType::parse("!"), Some(TokenType::BANG));
    assert_eq!(TokenType::parse("<"), Some(TokenType::LESS));
    assert_eq!(TokenType::parse(">"), Some(TokenType::GREATER));
    assert_eq!(TokenType::parse("\""), Some(TokenType::STRING));
}

#[test]
fn parse_knows_the_two_character_operators() {
    assert_eq!(TokenType::parse("=="), Some(TokenType::EQUAL_EQUAL));
    assert_eq!(TokenType::parse("!="), Some(TokenType::BANG_EQUAL));
    assert_eq!(TokenType::parse("<="), Some(TokenType::LESS_EQUAL));
    assert_eq!(TokenType::parse(">="), Some(TokenType::GREATER_EQUAL));
}

#[test]
fn parse_drops_blank_space() {
    assert_eq!(TokenType::parse(" "), None);
    assert_eq!(TokenType::parse("\t"), None);
    assert_eq!(TokenType::parse("\r"), None);
}

#[test]
fn parse_marks_the_line_feed() {
    assert_eq!(TokenType::parse("\n"), Some(TokenType::LINE_BREAK));
}

#[test]
fn parse_takes_the_empty_text_for_the_end() {
    assert_eq!(TokenType::parse(""), Some(TokenType::EOF));
}

#[test]
fn parse_does_not_know_anything_else() {
    for text in ["a", "0", "$", "@", "#", "_", "\r\n", "=!", "=<", "= ", " =", "===", "((", "\u{e9}", "e\u{301}", "\u{0}"] {
        assert_eq!(TokenType::parse(text), Some(TokenType::ERROR), "{:?}", text);
    }
}
