use super::lexer::{Token, TokenView};
use vstd::prelude::*;

verus! {

/// Why tokenizing or parsing an expression failed.
#[derive(Debug, PartialEq)]
pub enum ParserError {
    /// A character that can neither start nor continue any token.
    InvalidIdentifierCharacter(char),
    /// A quote that opens a string is never closed.
    InvalidString,
    /// A token stands where no expression can start or continue.
    UnexpectedToken(Token),
    /// The tokens ran out where an expression was still required.
    EOF,
}

/// The mathematical value of a [`ParserError`].
pub enum ParserErrorView {
    InvalidIdentifierCharacter(char),
    InvalidString,
    UnexpectedToken(TokenView),
    EOF,
}

impl View for ParserError {
    type V = ParserErrorView;

    open spec fn view(&self) -> ParserErrorView {
        match self {
            ParserError::InvalidIdentifierCharacter(c) => ParserErrorView::InvalidIdentifierCharacter(
                *c,
            ),
            ParserError::InvalidString => ParserErrorView::InvalidString,
            ParserError::UnexpectedToken(t) => ParserErrorView::UnexpectedToken(t@),
            ParserError::EOF => ParserErrorView::EOF,
        }
    }
}

} // verus!
