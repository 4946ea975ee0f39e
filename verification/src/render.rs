//! How tokens and errors are shown as text, one line each.

use crate::error::{Error, ErrorView};
use crate::token::{Token, TokenType, TokenView};
use vstd::prelude::*;
use vstd::string::*;

verus! {

/// The character for one decimal digit.
pub open spec fn digit(d: nat) -> char {
    if d == 0 {
        '0'
    } else if d == 1 {
        '1'
    } else if d == 2 {
        '2'
    } else if d == 3 {
        '3'
    } else if d == 4 {
        '4'
    } else if d == 5 {
        '5'
    } else if d == 6 {
        '6'
    } else if d == 7 {
        '7'
    } else if d == 8 {
        '8'
    } else {
        '9'
    }
}

/// A number written in decimal, without leading zeros.
pub open spec fn decimal(n: nat) -> Seq<char>
    decreases n,
{
    if n < 10 {
        seq![digit(n)]
    } else {
        decimal(n / 10).push(digit(n % 10))
    }
}

/// The text of one decimal digit.
fn digit_text(d: usize) -> (text: &'static str)
    requires
        d < 10,
    ensures
        text@ == seq![digit(d as nat)],
{
    proof {
        reveal_strlit("0");
        reveal_strlit("1");
        reveal_strlit("2");
        reveal_strlit("3");
        reveal_strlit("4");
        reveal_strlit("5");
        reveal_strlit("6");
        reveal_strlit("7");
        reveal_strlit("8");
        reveal_strlit("9");
    }
    if d == 0 {
        "0"
    } else if d == 1 {
        "1"
    } else if d == 2 {
        "2"
    } else if d == 3 {
        "3"
    } else if d == 4 {
        "4"
    } else if d == 5 {
        "5"
    } else if d == 6 {
        "6"
    } else if d == 7 {
        "7"
    } else if d == 8 {
        "8"
    } else {
        "9"
    }
}

/// Writes `n` in decimal.
pub fn decimal_text(n: usize) -> (text: String)
    ensures
        text@ == decimal(n as nat),
    decreases n,
{
    if n < 10 {
        String::from_str(digit_text(n))
    } else {
        let mut text = decimal_text(n / 10);
        text.append(digit_text(n % 10));
        text
    }
}

impl TokenType {
    /// The name under which a kind is shown.
    pub open spec fn name_of(self) -> Seq<char> {
        match self {
            TokenType::LEFT_PAREN => "LEFT_PAREN"@,
            TokenType::RIGHT_PAREN => "RIGHT_PAREN"@,
            TokenType::LEFT_BRACE => "LEFT_BRACE"@,
            TokenType::RIGHT_BRACE => "RIGHT_BRACE"@,
            TokenType::STAR => "STAR"@,
            TokenType::DOT => "DOT"@,
            TokenType::COMMA => "COMMA"@,
            TokenType::PLUS => "PLUS"@,
            TokenType::MINUS => "MINUS"@,
            TokenType::SEMICOLON => "SEMICOLON"@,
            TokenType::SLASH => "SLASH"@,
            TokenType::EQUAL => "EQUAL"@,
            TokenType::EQUAL_EQUAL => "EQUAL_EQUAL"@,
            TokenType::BANG => "BANG"@,
            TokenType::BANG_EQUAL => "BANG_EQUAL"@,
            TokenType::LESS => "LESS"@,
            TokenType::LESS_EQUAL => "LESS_EQUAL"@,
            TokenType::GREATER => "GREATER"@,
            TokenType::GREATER_EQUAL => "GREATER_EQUAL"@,
            TokenType::EOF => "EOF"@,
            TokenType::LINE_BREAK => "LINE_BREAK"@,
            TokenType::ERROR => "ERROR"@,
            TokenType::STRING => "STRING"@,
        }
    }

    /// The name under which this kind is shown.
    pub fn name(&self) -> (name: &'static str)
        ensures
            name@ == self.name_of(),
    {
        match self {
            TokenType::LEFT_PAREN => "LEFT_PAREN",
            TokenType::RIGHT_PAREN => "RIGHT_PAREN",
            TokenType::LEFT_BRACE => "LEFT_BRACE",
            TokenType::RIGHT_BRACE => "RIGHT_BRACE",
            TokenType::STAR => "STAR",
            TokenType::DOT => "DOT",
            TokenType::COMMA => "COMMA",
            TokenType::PLUS => "PLUS",
            TokenType::MINUS => "MINUS",
            TokenType::SEMICOLON => "SEMICOLON",
            TokenType::SLASH => "SLASH",
            TokenType::EQUAL => "EQUAL",
            TokenType::EQUAL_EQUAL => "EQUAL_EQUAL",
            TokenType::BANG => "BANG",
            TokenType::BANG_EQUAL => "BANG_EQUAL",
            TokenType::LESS => "LESS",
            TokenType::LESS_EQUAL => "LESS_EQUAL",
            TokenType::GREATER => "GREATER",
            TokenType::GREATER_EQUAL => "GREATER_EQUAL",
            TokenType::EOF => "EOF",
            TokenType::LINE_BREAK => "LINE_BREAK",
            TokenType::ERROR => "ERROR",
            TokenType::STRING => "STRING",
        }
    }
}

impl TokenView {
    /// The line that shows a token: the name of its kind, its lexeme, and
    /// its literal or `null`, with one space between them.
    pub open spec fn rendered(self) -> Seq<char> {
        self.token_type.name_of() + seq![' '] + self.text + seq![' '] + match self.literal {
            Some(literal) => literal.text(),
            None => "null"@,
        }
    }
}

impl Token {
    /// The line that shows this token: `<KIND> <lexeme> <literal>`, where
    /// a token without a literal shows `null`.
    pub fn render(&self) -> (line: String)
        ensures
            line@ == self@.rendered(),
    {
        proof {
            reveal_strlit(" ");
        }
        let mut line = String::from_str(self.token_type.name());
        line.append(" ");
        line.append(self.text.as_str());
        line.append(" ");
        match &self.literal {
            Some(literal) => {
                let shown = literal.text();
                line.append(shown.as_str());
            },
            None => {
                line.append("null");
            },
        }
        line
    }
}

impl ErrorView {
    /// The line that shows an error: its line number and its message.
    pub open spec fn rendered(self) -> Seq<char> {
        "[line "@ + decimal(self.line) + "] Error: "@ + self.error_type.message()
    }
}

impl Error {
    /// The line that shows this error: `[line <N>] Error: <message>`.
    pub fn render(&self) -> (line: String)
        ensures
            line@ == self@.rendered(),
    {
        let mut line = String::from_str("[line ");
        let number = decimal_text(self.line);
        line.append(number.as_str());
        line.append("] Error: ");
        let message = self.error_type.message();
        line.append(message.as_str());
        line
    }
}

} // verus!
