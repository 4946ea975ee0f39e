//! The errors a scan can record.

use vstd::prelude::*;
use vstd::string::*;

verus! {

/// What went wrong, with the offending text.
#[derive(Debug, Clone, PartialEq, Eq)]
pub enum ErrorType {
    /// A character that belongs to no token; the payload is that character.
    UnexpectedCharacter(String),
    /// A string literal whose closing quote never came; the payload is the
    /// text from the opening quote to the end of the input.
    UnterminatedString(String),
}

/// The mathematical value of an [`ErrorType`].
pub enum ErrorTypeView {
    UnexpectedCharacter(Seq<char>),
    UnterminatedString(Seq<char>),
}

impl View for ErrorType {
    type V = ErrorTypeView;

    open spec fn view(&self) -> ErrorTypeView {
        match self {
            ErrorType::UnexpectedCharacter(c) => ErrorTypeView::UnexpectedCharacter(c@),
            ErrorType::UnterminatedString(s) => ErrorTypeView::UnterminatedString(s@),
        }
    }
}

impl ErrorTypeView {
    /// The message shown for an error of this kind.
    pub open spec fn message(self) -> Seq<char> {
        match self {
            ErrorTypeView::UnexpectedCharacter(c) => "Unexpected character: "@ + c,
            ErrorTypeView::UnterminatedString(_) => "Unterminated string."@,
        }
    }
}

impl ErrorType {
    /// The message shown for this error: `Unexpected character: ` followed
    /// by the character, or `Unterminated string.`.
    pub fn message(&self) -> (text: String)
        ensures
            text@ == self@.message(),
    {
        match self {
            ErrorType::UnexpectedCharacter(c) => {
                let mut text = String::from_str("Unexpected character: ");
                text.append(c.as_str());
                text
            },
            ErrorType::UnterminatedString(_) => String::from_str("Unterminated string."),
        }
    }
}

/// One recorded error: what it is and the line it was met on.
#[derive(Debug, Clone, PartialEq, Eq)]
pub struct Error {
    pub error_type: ErrorType,
    pub line: usize,
}

/// The mathematical value of an [`Error`].
pub struct ErrorView {
    pub error_type: ErrorTypeView,
    pub line: nat,
}

impl View for Error {
    type V = ErrorView;

    open spec fn view(&self) -> ErrorView {
        ErrorView { error_type: self.error_type@, line: self.line as nat }
    }
}

impl DeepView for Error {
    type V = ErrorView;

    open spec fn deep_view(&self) -> ErrorView {
        self@
    }
}

} // verus!
