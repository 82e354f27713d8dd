//! The grammar of the language, as recursive functions over the token
//! sequence.
//!
//! Each function parses one precedence level, from position `i`, and
//! yields the parsed expression together with the position after it, or
//! the first parse error.  Binding tightness, from tightest to loosest:
//! primary, unary, assignment, declaration, multiplicative, additive,
//! equality.  These functions are the specification that the executable
//! parser is proved against.

use vstd::prelude::*;

use crate::expression::ExprV;
use crate::expression::binary::BinaryOp;
use crate::expression::unary::UnaryOp;
use crate::float::float_of_text;
use crate::lexer::token::TokenV;
use crate::numeric::{NumericV, spec_parse_int};
use crate::parser::error::ParserErrorV;

verus! {

/// One parse step: the expression recognized and the position after it.
pub type ParseStep = Result<(ExprV, int), ParserErrorV>;

/// `n`, clamped into `lo ..= len`: a successful parse always hands on a
/// position past what it consumed and within the tokens (the executable
/// parser proves as much), and this guard lets the recursion below carry
/// that fact in its measure.
pub open spec fn step_pos(lo: int, n: int, len: int) -> int {
    if lo <= n <= len {
        n
    } else {
        lo
    }
}

pub open spec fn spec_parse_expression(toks: Seq<TokenV>, i: int) -> ParseStep
    decreases toks.len() - i, 12int,
        when 0 <= i <= toks.len()
{
    spec_parse_equality(toks, i)
}

pub open spec fn spec_parse_equality(toks: Seq<TokenV>, i: int) -> ParseStep
    decreases toks.len() - i, 11int,
        when 0 <= i <= toks.len()
{
    match spec_parse_additive(toks, i) {
        Ok((left, n)) => spec_parse_equality_rest(toks, step_pos(i, n, toks.len() as int), left),
        Err(e) => Err(e),
    }
}

/// Zero or more `== additive` continuations, left-associative.
pub open spec fn spec_parse_equality_rest(toks: Seq<TokenV>, i: int, left: ExprV) -> ParseStep
    decreases toks.len() - i, 10int,
        when 0 <= i <= toks.len()
{
    if i < toks.len() && toks[i] is Equals {
        match spec_parse_additive(toks, i + 1) {
            Ok((right, n)) => spec_parse_equality_rest(
                toks,
                step_pos(i + 1, n, toks.len() as int),
                ExprV::Binary(Box::new(left), BinaryOp::Equals, Box::new(right)),
            ),
            Err(e) => Err(e),
        }
    } else {
        Ok((left, i))
    }
}

pub open spec fn spec_parse_additive(toks: Seq<TokenV>, i: int) -> ParseStep
    decreases toks.len() - i, 9int,
        when 0 <= i <= toks.len()
{
    match spec_parse_multiplicative(toks, i) {
        Ok((left, n)) => spec_parse_additive_rest(toks, step_pos(i, n, toks.len() as int), left),
        Err(e) => Err(e),
    }
}

/// Zero or more `+`/`-` continuations, left-associative.
pub open spec fn spec_parse_additive_rest(toks: Seq<TokenV>, i: int, left: ExprV) -> ParseStep
    decreases toks.len() - i, 8int,
        when 0 <= i <= toks.len()
{
    if i < toks.len() && (toks[i] is Plus || toks[i] is Minus) {
        let op = if toks[i] is Plus {
            BinaryOp::Add
        } else {
            BinaryOp::Subtract
        };
        match spec_parse_multiplicative(toks, i + 1) {
            Ok((right, n)) => spec_parse_additive_rest(
                toks,
                step_pos(i + 1, n, toks.len() as int),
                ExprV::Binary(Box::new(left), op, Box::new(right)),
            ),
            Err(e) => Err(e),
        }
    } else {
        Ok((left, i))
    }
}

pub open spec fn spec_parse_multiplicative(toks: Seq<TokenV>, i: int) -> ParseStep
    decreases toks.len() - i, 7int,
        when 0 <= i <= toks.len()
{
    match spec_parse_unary(toks, i) {
        Ok((left, n)) => spec_parse_multiplicative_rest(toks, step_pos(i, n, toks.len() as int), left),
        Err(e) => Err(e),
    }
}

/// Zero or more `*`/`/`/`%` continuations, left-associative.
pub open spec fn spec_parse_multiplicative_rest(toks: Seq<TokenV>, i: int, left: ExprV) -> ParseStep
    decreases toks.len() - i, 6int,
        when 0 <= i <= toks.len()
{
    if i < toks.len() && (toks[i] is Star || toks[i] is Slash || toks[i] is Percent) {
        let op = if toks[i] is Star {
            BinaryOp::Multiply
        } else if toks[i] is Slash {
            BinaryOp::Divide
        } else {
            BinaryOp::Modulo
        };
        match spec_parse_unary(toks, i + 1) {
            Ok((right, n)) => spec_parse_multiplicative_rest(
                toks,
                step_pos(i + 1, n, toks.len() as int),
                ExprV::Binary(Box::new(left), op, Box::new(right)),
            ),
            Err(e) => Err(e),
        }
    } else {
        Ok((left, i))
    }
}

/// Zero or more prefix `+`/`-`, right-associative, around the
/// assignment level.
pub open spec fn spec_parse_unary(toks: Seq<TokenV>, i: int) -> ParseStep
    decreases toks.len() - i, 5int,
        when 0 <= i <= toks.len()
{
    if i < toks.len() && (toks[i] is Plus || toks[i] is Minus) {
        let op = if toks[i] is Plus {
            UnaryOp::Plus
        } else {
            UnaryOp::Minus
        };
        match spec_parse_unary(toks, i + 1) {
            Ok((operand, n)) => Ok((ExprV::Unary(op, Box::new(operand)), n)),
            Err(e) => Err(e),
        }
    } else {
        spec_parse_assignment(toks, i)
    }
}

/// `identifier = expression`, recognized only on that two-token
/// lookahead; otherwise falls through to the declaration level.
pub open spec fn spec_parse_assignment(toks: Seq<TokenV>, i: int) -> ParseStep
    decreases toks.len() - i, 4int,
        when 0 <= i <= toks.len()
{
    if i + 1 < toks.len() && toks[i] is Identifier && toks[i + 1] is Assign {
        match spec_parse_expression(toks, i + 2) {
            Ok((value, n)) => Ok(
                (ExprV::Assignment(toks[i]->Identifier_0, Box::new(value)), n),
            ),
            Err(e) => Err(e),
        }
    } else {
        spec_parse_declaration(toks, i)
    }
}

/// `let [mutable] identifier = expression`; any other shape after `let`
/// is a parse error.  Without `let`, falls through to the primary level.
pub open spec fn spec_parse_declaration(toks: Seq<TokenV>, i: int) -> ParseStep
    decreases toks.len() - i, 3int,
        when 0 <= i <= toks.len()
{
    if i < toks.len() && toks[i] is Let {
        let mutable = i + 1 < toks.len() && toks[i + 1] is Mutable;
        let j = if mutable {
            i + 2
        } else {
            i + 1
        };
        if j < toks.len() && toks[j] is Identifier {
            if j + 1 < toks.len() {
                if toks[j + 1] is Assign {
                    match spec_parse_expression(toks, j + 2) {
                        Ok((value, n)) => Ok(
                            (
                                ExprV::Declaration(
                                    toks[j]->Identifier_0,
                                    Box::new(value),
                                    mutable,
                                ),
                                n,
                            ),
                        ),
                        Err(e) => Err(e),
                    }
                } else {
                    Err(ParserErrorV::UnexpectedToken(toks[j + 1]))
                }
            } else {
                Err(ParserErrorV::UnexpectedEOF)
            }
        } else if j < toks.len() {
            Err(ParserErrorV::UnexpectedToken(toks[j]))
        } else {
            Err(ParserErrorV::UnexpectedEOF)
        }
    } else {
        spec_parse_primary(toks, i)
    }
}

/// A literal, an identifier, the unit marker, or a parenthesized
/// expression.
pub open spec fn spec_parse_primary(toks: Seq<TokenV>, i: int) -> ParseStep
    decreases toks.len() - i, 2int,
        when 0 <= i <= toks.len()
{
    if i >= toks.len() {
        Err(ParserErrorV::UnexpectedEOF)
    } else {
        match toks[i] {
            TokenV::LiteralNumber(text, true) => match float_of_text(text) {
                Some(bits) => Ok((ExprV::LiteralNumber(NumericV::Float(bits)), i + 1)),
                None => Err(ParserErrorV::ParseFloat(text)),
            },
            TokenV::LiteralNumber(text, false) => match spec_parse_int(text) {
                Some(v) => Ok((ExprV::LiteralNumber(NumericV::Int(v)), i + 1)),
                None => Err(ParserErrorV::ParseInt(text)),
            },
            TokenV::LiteralString(st) => Ok((ExprV::LiteralString(st), i + 1)),
            TokenV::Identifier(id) => Ok((ExprV::Identifier(id), i + 1)),
            TokenV::OpenParen => match spec_parse_expression(toks, i + 1) {
                Ok((inner, n)) => if 0 <= n < toks.len() && toks[n] is CloseParen {
                    Ok((inner, n + 1))
                } else {
                    Err(ParserErrorV::ExpectedCloseParen)
                },
                Err(e) => Err(e),
            },
            TokenV::Unit => Ok((ExprV::Unit, i + 1)),
            other => Err(ParserErrorV::UnexpectedToken(other)),
        }
    }
}

/// The top-level loop: one expression, then either the end of the tokens
/// or a `;` separator; a trailing `;` stands for an implicit `_`.
pub open spec fn spec_parse_program(toks: Seq<TokenV>, i: int) -> Result<Seq<ExprV>, ParserErrorV>
    decreases toks.len() - i, 13int,
        when 0 <= i <= toks.len()
{
    match spec_parse_expression(toks, i) {
        Err(e) => Err(e),
        Ok((e, n)) => {
            if !(0 <= n < toks.len()) {
                Ok(seq![e])
            } else if toks[n] is Semicolon {
                if n + 1 >= toks.len() {
                    Ok(seq![e, ExprV::Unit])
                } else if n + 1 > i {
                    match spec_parse_program(toks, n + 1) {
                        Ok(rest) => Ok(seq![e] + rest),
                        Err(e2) => Err(e2),
                    }
                } else {
                    // never reached: a successful parse moves forward
                    Err(ParserErrorV::UnexpectedEOF)
                }
            } else {
                Err(ParserErrorV::UnexpectedToken(toks[n]))
            }
        },
    }
}

} // verus!
