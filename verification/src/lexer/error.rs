//! Lexical errors.

use vstd::prelude::*;

verus! {

/// The model of a lexical error.
pub enum LexerErrorV {
    UnexpectedChar(char),
    UnclosedString(Seq<char>),
}

/// A lexical error: a character no token can start with, or a string
/// literal that does not close on its line (the partial content scanned so
/// far is carried along).
#[derive(Clone, Debug, PartialEq)]
pub enum LexerError {
    UnexpectedChar(char),
    UnclosedString(String),
}

impl View for LexerError {
    type V = LexerErrorV;

    open spec fn view(&self) -> LexerErrorV {
        match self {
            LexerError::UnexpectedChar(c) => LexerErrorV::UnexpectedChar(*c),
            LexerError::UnclosedString(t) => LexerErrorV::UnclosedString(t@),
        }
    }
}

} // verus!
