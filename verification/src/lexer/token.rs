//! The lexical tokens of the language.

use vstd::prelude::*;

verus! {

/// The model of a token: token texts as character sequences.
pub enum TokenV {
    LiteralNumber(Seq<char>, bool),
    LiteralString(Seq<char>),
    Identifier(Seq<char>),
    Let,
    Mutable,
    Assign,
    OpenParen,
    CloseParen,
    Plus,
    Minus,
    Star,
    Slash,
    Percent,
    Equals,
    Unit,
    Semicolon,
}

/// One lexical token.  A number literal carries its text and whether a
/// decimal point was seen, so that the parser can choose integer or float
/// parsing; a string literal carries its unescaped content.
#[derive(Clone, Debug, PartialEq)]
pub enum Token {
    LiteralNumber(String, bool),
    LiteralString(String),
    Identifier(String),
    Let,
    Mutable,
    Assign,
    OpenParen,
    CloseParen,
    Plus,
    Minus,
    Star,
    Slash,
    Percent,
    Equals,
    Unit,
    Semicolon,
}

impl View for Token {
    type V = TokenV;

    open spec fn view(&self) -> TokenV {
        match self {
            Token::LiteralNumber(t, d) => TokenV::LiteralNumber(t@, *d),
            Token::LiteralString(t) => TokenV::LiteralString(t@),
            Token::Identifier(t) => TokenV::Identifier(t@),
            Token::Let => TokenV::Let,
            Token::Mutable => TokenV::Mutable,
            Token::Assign => TokenV::Assign,
            Token::OpenParen => TokenV::OpenParen,
            Token::CloseParen => TokenV::CloseParen,
            Token::Plus => TokenV::Plus,
            Token::Minus => TokenV::Minus,
            Token::Star => TokenV::Star,
            Token::Slash => TokenV::Slash,
            Token::Percent => TokenV::Percent,
            Token::Equals => TokenV::Equals,
            Token::Unit => TokenV::Unit,
            Token::Semicolon => TokenV::Semicolon,
        }
    }
}

impl Token {
    /// An owned copy of the token, equal at the level of the model.
    pub fn duplicate(&self) -> (r: Token)
        ensures
            r@ == self@,
    {
        match self {
            Token::LiteralNumber(t, d) => Token::LiteralNumber(t.clone(), *d),
            Token::LiteralString(t) => Token::LiteralString(t.clone()),
            Token::Identifier(t) => Token::Identifier(t.clone()),
            Token::Let => Token::Let,
            Token::Mutable => Token::Mutable,
            Token::Assign => Token::Assign,
            Token::OpenParen => Token::OpenParen,
            Token::CloseParen => Token::CloseParen,
            Token::Plus => Token::Plus,
            Token::Minus => Token::Minus,
            Token::Star => Token::Star,
            Token::Slash => Token::Slash,
            Token::Percent => Token::Percent,
            Token::Equals => Token::Equals,
            Token::Unit => Token::Unit,
            Token::Semicolon => Token::Semicolon,
        }
    }
}

pub open spec fn let_word() -> Seq<char> {
    seq!['l', 'e', 't']
}

pub open spec fn mutable_word() -> Seq<char> {
    seq!['m', 'u', 't', 'a', 'b', 'l', 'e']
}

pub open spec fn unit_word() -> Seq<char> {
    seq!['_']
}

/// The token that a scanned identifier-shaped word stands for: one of the
/// reserved words, or an identifier.
pub open spec fn keyword_or_identifier(text: Seq<char>) -> TokenV {
    if text == let_word() {
        TokenV::Let
    } else if text == mutable_word() {
        TokenV::Mutable
    } else if text == unit_word() {
        TokenV::Unit
    } else {
        TokenV::Identifier(text)
    }
}

} // verus!
