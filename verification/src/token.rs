//! Token kinds, tokens and their literal values.

use vstd::prelude::*;
use vstd::string::*;

verus! {

/// The closed set of kinds a token can have.
///
/// `LINE_BREAK` only ever classifies a line feed inside the scanner and is
/// never the kind of an emitted token. `ERROR` classifies input that matches
/// nothing else.
#[allow(non_camel_case_types)]
#[derive(Debug, Clone, Copy, PartialEq, Eq, Hash, Structural)]
pub enum TokenType {
    LEFT_PAREN,
    RIGHT_PAREN,
    LEFT_BRACE,
    RIGHT_BRACE,
    STAR,
    DOT,
    COMMA,
    PLUS,
    MINUS,
    SEMICOLON,
    SLASH,
    EQUAL,
    EQUAL_EQUAL,
    BANG,
    BANG_EQUAL,
    LESS,
    LESS_EQUAL,
    GREATER,
    GREATER_EQUAL,
    EOF,
    LINE_BREAK,
    ERROR,
    STRING,
}

impl TokenType {
    /// The table from a single character to its kind. `None` stands for
    /// blank space, which the scanner drops.
    pub open spec fn of_char(a: char) -> Option<TokenType> {
        if a == '(' {
            Some(TokenType::LEFT_PAREN)
        } else if a == ')' {
            Some(TokenType::RIGHT_PAREN)
        } else if a == '{' {
            Some(TokenType::LEFT_BRACE)
        } else if a == '}' {
            Some(TokenType::RIGHT_BRACE)
        } else if a == '*' {
            Some(TokenType::STAR)
        } else if a == '.' {
            Some(TokenType::DOT)
        } else if a == ',' {
            Some(TokenType::COMMA)
        } else if a == '+' {
            Some(TokenType::PLUS)
        } else if a == '-' {
            Some(TokenType::MINUS)
        } else if a == ';' {
            Some(TokenType::SEMICOLON)
        } else if a == '/' {
            Some(TokenType::SLASH)
        } else if a == '=' {
            Some(TokenType::EQUAL)
        } else if a == '!' {
            Some(TokenType::BANG)
        } else if a == '<' {
            Some(TokenType::LESS)
        } else if a == '>' {
            Some(TokenType::GREATER)
        } else if a == '\r' || a == '\t' || a == ' ' {
            None
        } else if a == '\n' {
            Some(TokenType::LINE_BREAK)
        } else if a == '"' {
            Some(TokenType::STRING)
        } else {
            Some(TokenType::ERROR)
        }
    }

    /// The table from a piece of source text to its kind: a single
    /// character goes by [`TokenType::of_char`]; `==`, `!=`, `<=` and `>=`
    /// are the two-character operators; the empty text is the end of input;
    /// anything else is unrecognised.
    pub open spec fn classify(c: Seq<char>) -> Option<TokenType> {
        if c.len() == 0 {
            Some(TokenType::EOF)
        } else if c.len() == 1 {
            TokenType::of_char(c[0])
        } else if c.len() == 2 && c[1] == '=' && c[0] == '=' {
            Some(TokenType::EQUAL_EQUAL)
        } else if c.len() == 2 && c[1] == '=' && c[0] == '!' {
            Some(TokenType::BANG_EQUAL)
        } else if c.len() == 2 && c[1] == '=' && c[0] == '<' {
            Some(TokenType::LESS_EQUAL)
        } else if c.len() == 2 && c[1] == '=' && c[0] == '>' {
            Some(TokenType::GREATER_EQUAL)
        } else {
            Some(TokenType::ERROR)
        }
    }

    /// Classifies one piece of source text by the table [`TokenType::classify`].
    pub fn parse(c: &str) -> (kind: Option<TokenType>)
        ensures
            kind == TokenType::classify(c@),
    {
        let n: usize = c.unicode_len();
        if n == 0 {
            Some(TokenType::EOF)
        } else if n == 1 {
            let a: char = c.get_char(0);
            if a == '(' {
                Some(TokenType::LEFT_PAREN)
            } else if a == ')' {
                Some(TokenType::RIGHT_PAREN)
            } else if a == '{' {
                Some(TokenType::LEFT_BRACE)
            } else if a == '}' {
                Some(TokenType::RIGHT_BRACE)
            } else if a == '*' {
                Some(TokenType::STAR)
            } else if a == '.' {
                Some(TokenType::DOT)
            } else if a == ',' {
                Some(TokenType::COMMA)
            } else if a == '+' {
                Some(TokenType::PLUS)
            } else if a == '-' {
                Some(TokenType::MINUS)
            } else if a == ';' {
                Some(TokenType::SEMICOLON)
            } else if a == '/' {
                Some(TokenType::SLASH)
            } else if a == '=' {
                Some(TokenType::EQUAL)
            } else if a == '!' {
                Some(TokenType::BANG)
            } else if a == '<' {
                Some(TokenType::LESS)
            } else if a == '>' {
                Some(TokenType::GREATER)
            } else if a == '\r' || a == '\t' || a == ' ' {
                None
            } else if a == '\n' {
                Some(TokenType::LINE_BREAK)
            } else if a == '"' {
                Some(TokenType::STRING)
            } else {
                Some(TokenType::ERROR)
            }
        } else if n == 2 {
            let a: char = c.get_char(0);
            let b: char = c.get_char(1);
            if b == '=' && a == '=' {
                Some(TokenType::EQUAL_EQUAL)
            } else if b == '=' && a == '!' {
                Some(TokenType::BANG_EQUAL)
            } else if b == '=' && a == '<' {
                Some(TokenType::LESS_EQUAL)
            } else if b == '=' && a == '>' {
                Some(TokenType::GREATER_EQUAL)
            } else {
                Some(TokenType::ERROR)
            }
        } else {
            Some(TokenType::ERROR)
        }
    }
}

/// The decoded value a token carries.
#[derive(Debug, Clone, PartialEq, Eq)]
pub enum Literal {
    /// The characters between the quotes of a string literal.
    String(String),
    /// No value.
    NULL,
}

/// The mathematical value of a [`Literal`].
pub enum LiteralView {
    String(Seq<char>),
    NULL,
}

impl View for Literal {
    type V = LiteralView;

    open spec fn view(&self) -> LiteralView {
        match self {
            Literal::String(s) => LiteralView::String(s@),
            Literal::NULL => LiteralView::NULL,
        }
    }
}

impl LiteralView {
    /// The text shown for a literal: the string itself, or `null`.
    pub open spec fn text(self) -> Seq<char> {
        match self {
            LiteralView::String(s) => s,
            LiteralView::NULL => "null"@,
        }
    }
}

impl Literal {
    /// The text shown for this literal: the string itself, or `null`.
    pub fn text(&self) -> (text: String)
        ensures
            text@ == self@.text(),
    {
        match self {
            Literal::String(s) => s.clone(),
            Literal::NULL => String::from_str("null"),
        }
    }
}

/// One recognised piece of the source.
#[derive(Debug, Clone, PartialEq, Eq)]
pub struct Token {
    /// What kind of token this is.
    pub token_type: TokenType,
    /// The decoded value; only string literals have one.
    pub literal: Option<Literal>,
    /// The lexeme: the source text exactly as written.
    pub text: String,
    /// The line, counted from one, on which the token began.
    pub line: usize,
}

/// The mathematical value of a [`Token`].
pub struct TokenView {
    pub token_type: TokenType,
    pub literal: Option<LiteralView>,
    pub text: Seq<char>,
    pub line: nat,
}

impl View for Token {
    type V = TokenView;

    open spec fn view(&self) -> TokenView {
        TokenView {
            token_type: self.token_type,
            literal: match self.literal {
                Some(l) => Some(l@),
                None => None,
            },
            text: self.text@,
            line: self.line as nat,
        }
    }
}

impl DeepView for Token {
    type V = TokenView;

    open spec fn deep_view(&self) -> TokenView {
        self@
    }
}

} // verus!
