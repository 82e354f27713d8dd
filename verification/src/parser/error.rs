//! Parse errors.

use vstd::prelude::*;

use crate::lexer::error::{LexerError, LexerErrorV};
use crate::lexer::token::{Token, TokenV};

verus! {

/// The model of a parse error.
pub enum ParserErrorV {
    UnexpectedEOF,
    UnexpectedToken(TokenV),
    Lexer(LexerErrorV),
    ParseInt(Seq<char>),
    ParseFloat(Seq<char>),
    ExpectedCloseParen,
}

/// A parse error: the grammar ran out of tokens, met a token it cannot
/// use, a lexical error, a number literal that does not denote a number
/// (the offending text is carried along), or an unclosed parenthesis.
#[derive(Clone, Debug, PartialEq)]
pub enum ParserError {
    UnexpectedEOF,
    UnexpectedToken(Token),
    Lexer(LexerError),
    ParseInt(String),
    ParseFloat(String),
    ExpectedCloseParen,
}

impl From<LexerError> for ParserError {
    fn from(value: LexerError) -> Self {
        ParserError::Lexer(value)
    }
}

impl vstd::std_specs::convert::FromSpecImpl<LexerError> for ParserError {
    open spec fn obeys_from_spec() -> bool {
        true
    }

    open spec fn from_spec(v: LexerError) -> Self {
        ParserError::Lexer(v)
    }
}

impl View for ParserError {
    type V = ParserErrorV;

    open spec fn view(&self) -> ParserErrorV {
        match self {
            ParserError::UnexpectedEOF => ParserErrorV::UnexpectedEOF,
            ParserError::UnexpectedToken(t) => ParserErrorV::UnexpectedToken(t@),
            ParserError::Lexer(e) => ParserErrorV::Lexer(e@),
            ParserError::ParseInt(t) => ParserErrorV::ParseInt(t@),
            ParserError::ParseFloat(t) => ParserErrorV::ParseFloat(t@),
            ParserError::ExpectedCloseParen => ParserErrorV::ExpectedCloseParen,
        }
    }
}

} // verus!
