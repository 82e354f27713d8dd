//! The recursive-descent parser.
//!
//! `produce_ast` tokenizes one piece of source text, appends the tokens
//! to the session buffer, and parses expressions from the cursor until
//! the tokens run out, collecting them into one `Program` node.  On any
//! completion the buffer and cursor reset, unless the caller asked for
//! the buffer to be kept, in which case the tokens stay and the cursor
//! moves past them.  Every parsing function is proved to return exactly
//! what the grammar (`crate::parser::grammar`) says.

pub mod error;
pub mod grammar;

use vstd::prelude::*;

use crate::expression::assignment::AssignmentExpression;
use crate::expression::binary::{BinaryExpression, BinaryOp};
use crate::expression::declaration::DeclarationExpression;
use crate::expression::unary::{UnaryExpression, UnaryOp};
use crate::expression::{
    Expression, ExprV, lemma_view_exprs_concat, lemma_view_exprs_push, view_exprs,
};
use crate::float::text_to_bits;
use crate::lexer::token::{Token, TokenV};
use crate::lexer::{Lexer, spec_tokenize, tokens_view};
use crate::numeric::{Numeric, parse_int_literal};
use crate::parser::error::{ParserError, ParserErrorV};
use crate::parser::grammar::{
    spec_parse_assignment, spec_parse_declaration, spec_parse_equality, spec_parse_equality_rest,
    spec_parse_expression, spec_parse_multiplicative, spec_parse_multiplicative_rest,
    spec_parse_primary, spec_parse_program, spec_parse_unary, spec_parse_additive,
    spec_parse_additive_rest, step_pos,
};

verus! {

/// The model of the parser's session state: the buffered tokens and the
/// cursor into them.
pub struct ParserV {
    pub tokens: Seq<TokenV>,
    pub idx: int,
}

/// The state after a completed call: reset, or kept with the cursor
/// past every buffered token.
pub open spec fn spec_clear(p: ParserV, keep: bool) -> ParserV {
    if keep {
        ParserV { tokens: p.tokens, idx: p.tokens.len() as int }
    } else {
        ParserV { tokens: Seq::empty(), idx: 0 }
    }
}

/// What one call of `produce_ast` returns and leaves behind: the source
/// is tokenized (a lexical error is wrapped and returned); the buffered
/// tokens followed by the new ones are parsed from the cursor as a
/// program; the state is cleared or kept either way.
pub open spec fn spec_produce_ast(p: ParserV, src: Seq<char>, keep: bool) -> (Result<
    ExprV,
    ParserErrorV,
>, ParserV) {
    match spec_tokenize(src) {
        Err(le) => (Err(ParserErrorV::Lexer(le)), spec_clear(p, keep)),
        Ok(new_toks) => {
            let all = p.tokens + new_toks;
            let out = match spec_parse_program(all, p.idx) {
                Ok(es) => Ok(ExprV::Program(es)),
                Err(e) => Err(e),
            };
            (out, spec_clear(ParserV { tokens: all, idx: p.idx }, keep))
        },
    }
}

/// The parser's session state: an append-only token buffer and a cursor.
pub struct Parser {
    idx: usize,
    tokens: Vec<Token>,
}

impl ParserV {
    pub open spec fn wf(self) -> bool {
        0 <= self.idx <= self.tokens.len()
    }
}

impl View for Parser {
    type V = ParserV;

    closed spec fn view(&self) -> ParserV {
        ParserV { tokens: tokens_view(self.tokens@), idx: self.idx as int }
    }
}

impl Parser {
    pub fn new() -> (r: Self)
        ensures
            r@.wf(),
            r@.tokens == Seq::<TokenV>::empty(),
            r@.idx == 0,
    {
        let r = Parser { idx: 0, tokens: Vec::new() };
        proof {
            assert(tokens_view(r.tokens@) =~= Seq::<TokenV>::empty());
        }
        r
    }

    fn eof(&self) -> (r: bool)
        ensures
            r == (self@.idx >= self@.tokens.len()),
    {
        self.idx >= self.tokens.len()
    }

    /// An owned copy of the token at the cursor plus `offset`, if any.
    fn at(&self, offset: usize) -> (r: Option<Token>)
        requires
            self@.wf(),
            offset <= 1,
        ensures
            match r {
                Some(t) => self@.idx + offset < self@.tokens.len() && t@ == self@.tokens[self@.idx
                    + offset],
                None => self@.idx + offset >= self@.tokens.len(),
            },
    {
        let remaining = self.tokens.len() - self.idx;
        if offset < remaining {
            Some(self.tokens[self.idx + offset].duplicate())
        } else {
            None
        }
    }

    /// An owned copy of the token at the cursor, if any.
    fn current(&self) -> (r: Option<Token>)
        requires
            self@.wf(),
        ensures
            match r {
                Some(t) => self@.idx < self@.tokens.len() && t@ == self@.tokens[self@.idx],
                None => self@.idx >= self@.tokens.len(),
            },
    {
        self.at(0)
    }

    fn advance(&mut self, n: usize)
        requires
            old(self)@.wf(),
            old(self)@.idx + n <= old(self)@.tokens.len(),
        ensures
            final(self)@.wf(),
            final(self)@.tokens == old(self)@.tokens,
            final(self)@.idx == old(self)@.idx + n,
    {
        let len = self.tokens.len();
        proof {
            assert(self.idx + n <= len);
        }
        self.idx += n;
    }

    fn clear(&mut self, keep_tokens: bool)
        ensures
            final(self)@.wf(),
            final(self)@ == spec_clear(old(self)@, keep_tokens),
    {
        if keep_tokens {
            self.idx = self.tokens.len();
        } else {
            self.tokens.clear();
            self.idx = 0;
            proof {
                assert(tokens_view(self.tokens@) =~= Seq::<TokenV>::empty());
            }
        }
    }

    /// Is the token at the cursor an `==`?
    fn at_equality_op(&self) -> (r: bool)
        requires
            self@.wf(),
        ensures
            r == (self@.idx < self@.tokens.len() && self@.tokens[self@.idx] is Equals),
    {
        self.idx < self.tokens.len() && matches!(&self.tokens[self.idx], Token::Equals)
    }

    /// Is the token at the cursor a `+` or `-`?  (Used both for the
    /// additive level and for prefix operators.)
    fn at_additive_op(&self) -> (r: bool)
        requires
            self@.wf(),
        ensures
            r == (self@.idx < self@.tokens.len() && (self@.tokens[self@.idx] is Plus
                || self@.tokens[self@.idx] is Minus)),
    {
        self.idx < self.tokens.len() && matches!(
            &self.tokens[self.idx],
            Token::Plus | Token::Minus,
        )
    }

    /// Is the token at the cursor a `*`, `/` or `%`?
    fn at_multiplicative_op(&self) -> (r: bool)
        requires
            self@.wf(),
        ensures
            r == (self@.idx < self@.tokens.len() && (self@.tokens[self@.idx] is Star
                || self@.tokens[self@.idx] is Slash || self@.tokens[self@.idx] is Percent)),
    {
        self.idx < self.tokens.len() && matches!(
            &self.tokens[self.idx],
            Token::Star | Token::Slash | Token::Percent,
        )
    }

    fn at_plus(&self) -> (r: bool)
        requires
            self@.wf(),
            self@.idx < self@.tokens.len(),
        ensures
            r == (self@.tokens[self@.idx] is Plus),
    {
        matches!(&self.tokens[self.idx], Token::Plus)
    }

    fn at_star(&self) -> (r: bool)
        requires
            self@.wf(),
            self@.idx < self@.tokens.len(),
        ensures
            r == (self@.tokens[self@.idx] is Star),
    {
        matches!(&self.tokens[self.idx], Token::Star)
    }

    fn at_slash(&self) -> (r: bool)
        requires
            self@.wf(),
            self@.idx < self@.tokens.len(),
        ensures
            r == (self@.tokens[self@.idx] is Slash),
    {
        matches!(&self.tokens[self.idx], Token::Slash)
    }

    fn parse_expression(&mut self) -> (r: Result<Expression, ParserError>)
        requires
            old(self)@.wf(),
        ensures
            final(self)@.wf(),
            final(self)@.tokens == old(self)@.tokens,
            match r {
                Ok(e) => spec_parse_expression(old(self)@.tokens, old(self)@.idx)
                    == Ok::<(ExprV, int), ParserErrorV>((e@, final(self)@.idx)) && old(self)@.idx
                    < final(self)@.idx <= final(self)@.tokens.len(),
                Err(pe) => spec_parse_expression(old(self)@.tokens, old(self)@.idx) == Err::<
                    (ExprV, int),
                    ParserErrorV,
                >(pe@),
            },
        decreases old(self)@.tokens.len() - old(self)@.idx, 12int,
    {
        self.parse_equality()
    }

    #[verifier::loop_isolation(false)]
    fn parse_equality(&mut self) -> (r: Result<Expression, ParserError>)
        requires
            old(self)@.wf(),
        ensures
            final(self)@.wf(),
            final(self)@.tokens == old(self)@.tokens,
            match r {
                Ok(e) => spec_parse_equality(old(self)@.tokens, old(self)@.idx) == Ok::<
                    (ExprV, int),
                    ParserErrorV,
                >((e@, final(self)@.idx)) && old(self)@.idx < final(self)@.idx <= final(self)@.tokens.len(),
                Err(pe) => spec_parse_equality(old(self)@.tokens, old(self)@.idx) == Err::<
                    (ExprV, int),
                    ParserErrorV,
                >(pe@),
            },
        decreases old(self)@.tokens.len() - old(self)@.idx, 11int,
    {
        let ghost toks = old(self)@.tokens;
        let ghost i0 = old(self)@.idx;
        let mut left = match self.parse_additive() {
            Ok(e) => e,
            Err(e) => {
                return Err(e);
            },
        };
        proof {
            assert(step_pos(i0, self@.idx, toks.len() as int) == self@.idx);
        }
        while self.at_equality_op()
            invariant
                self@.wf(),
                self@.tokens == toks,
                i0 < self@.idx <= toks.len(),
                spec_parse_equality(toks, i0) == spec_parse_equality_rest(
                    toks,
                    self@.idx,
                    left@,
                ),
            decreases toks.len() - self@.idx,
        {
            let ghost ib = self@.idx;
            self.advance(1);
            let right = match self.parse_additive() {
                Ok(e) => e,
                Err(e) => {
                    return Err(e);
                },
            };
            proof {
                assert(step_pos(ib + 1, self@.idx, toks.len() as int) == self@.idx);
            }
            left = Expression::Binary(
                BinaryExpression {
                    left: Box::new(left),
                    operator: BinaryOp::Equals,
                    right: Box::new(right),
                },
            );
        }
        Ok(left)
    }

    #[verifier::loop_isolation(false)]
    fn parse_additive(&mut self) -> (r: Result<Expression, ParserError>)
        requires
            old(self)@.wf(),
        ensures
            final(self)@.wf(),
            final(self)@.tokens == old(self)@.tokens,
            match r {
                Ok(e) => spec_parse_additive(old(self)@.tokens, old(self)@.idx) == Ok::<
                    (ExprV, int),
                    ParserErrorV,
                >((e@, final(self)@.idx)) && old(self)@.idx < final(self)@.idx <= final(self)@.tokens.len(),
                Err(pe) => spec_parse_additive(old(self)@.tokens, old(self)@.idx) == Err::<
                    (ExprV, int),
                    ParserErrorV,
                >(pe@),
            },
        decreases old(self)@.tokens.len() - old(self)@.idx, 9int,
    {
        let ghost toks = old(self)@.tokens;
        let ghost i0 = old(self)@.idx;
        let mut left = match self.parse_multiplicative() {
            Ok(e) => e,
            Err(e) => {
                return Err(e);
            },
        };
        proof {
            assert(step_pos(i0, self@.idx, toks.len() as int) == self@.idx);
        }
        while self.at_additive_op()
            invariant
                self@.wf(),
                self@.tokens == toks,
                i0 < self@.idx <= toks.len(),
                spec_parse_additive(toks, i0) == spec_parse_additive_rest(
                    toks,
                    self@.idx,
                    left@,
                ),
            decreases toks.len() - self@.idx,
        {
            let ghost ib = self@.idx;
            let operator = if self.at_plus() {
                BinaryOp::Add
            } else {
                BinaryOp::Subtract
            };
            self.advance(1);
            let right = match self.parse_multiplicative() {
                Ok(e) => e,
                Err(e) => {
                    return Err(e);
                },
            };
            proof {
                assert(step_pos(ib + 1, self@.idx, toks.len() as int) == self@.idx);
            }
            left = Expression::Binary(
                BinaryExpression { left: Box::new(left), operator, right: Box::new(right) },
            );
        }
        Ok(left)
    }

    #[verifier::loop_isolation(false)]
    fn parse_multiplicative(&mut self) -> (r: Result<Expression, ParserError>)
        requires
            old(self)@.wf(),
        ensures
            final(self)@.wf(),
            final(self)@.tokens == old(self)@.tokens,
            match r {
                Ok(e) => spec_parse_multiplicative(old(self)@.tokens, old(self)@.idx) == Ok::<
                    (ExprV, int),
                    ParserErrorV,
                >((e@, final(self)@.idx)) && old(self)@.idx < final(self)@.idx <= final(self)@.tokens.len(),
                Err(pe) => spec_parse_multiplicative(old(self)@.tokens, old(self)@.idx) == Err::<
                    (ExprV, int),
                    ParserErrorV,
                >(pe@),
            },
        decreases old(self)@.tokens.len() - old(self)@.idx, 7int,
    {
        let ghost toks = old(self)@.tokens;
        let ghost i0 = old(self)@.idx;
        let mut left = match self.parse_unary() {
            Ok(e) => e,
            Err(e) => {
                return Err(e);
            },
        };
        proof {
            assert(step_pos(i0, self@.idx, toks.len() as int) == self@.idx);
        }
        while self.at_multiplicative_op()
            invariant
                self@.wf(),
                self@.tokens == toks,
                i0 < self@.idx <= toks.len(),
                spec_parse_multiplicative(toks, i0) == spec_parse_multiplicative_rest(
                    toks,
                    self@.idx,
                    left@,
                ),
            decreases toks.len() - self@.idx,
        {
            let ghost ib = self@.idx;
            let operator = if self.at_star() {
                BinaryOp::Multiply
            } else if self.at_slash() {
                BinaryOp::Divide
            } else {
                BinaryOp::Modulo
            };
            self.advance(1);
            let right = match self.parse_unary() {
                Ok(e) => e,
                Err(e) => {
                    return Err(e);
                },
            };
            proof {
                assert(step_pos(ib + 1, self@.idx, toks.len() as int) == self@.idx);
            }
            left = Expression::Binary(
                BinaryExpression { left: Box::new(left), operator, right: Box::new(right) },
            );
        }
        Ok(left)
    }

    fn parse_unary(&mut self) -> (r: Result<Expression, ParserError>)
        requires
            old(self)@.wf(),
        ensures
            final(self)@.wf(),
            final(self)@.tokens == old(self)@.tokens,
            match r {
                Ok(e) => spec_parse_unary(old(self)@.tokens, old(self)@.idx) == Ok::<
                    (ExprV, int),
                    ParserErrorV,
                >((e@, final(self)@.idx)) && old(self)@.idx < final(self)@.idx <= final(self)@.tokens.len(),
                Err(pe) => spec_parse_unary(old(self)@.tokens, old(self)@.idx) == Err::<
                    (ExprV, int),
                    ParserErrorV,
                >(pe@),
            },
        decreases old(self)@.tokens.len() - old(self)@.idx, 5int,
    {
        if self.at_additive_op() {
            let operator = if self.at_plus() {
                UnaryOp::Plus
            } else {
                UnaryOp::Minus
            };
            self.advance(1);
            match self.parse_unary() {
                Ok(operand) => Ok(
                    Expression::Unary(UnaryExpression { operator, right: Box::new(operand) }),
                ),
                Err(e) => Err(e),
            }
        } else {
            self.parse_assignment()
        }
    }

    fn parse_assignment(&mut self) -> (r: Result<Expression, ParserError>)
        requires
            old(self)@.wf(),
        ensures
            final(self)@.wf(),
            final(self)@.tokens == old(self)@.tokens,
            match r {
                Ok(e) => spec_parse_assignment(old(self)@.tokens, old(self)@.idx) == Ok::<
                    (ExprV, int),
                    ParserErrorV,
                >((e@, final(self)@.idx)) && old(self)@.idx < final(self)@.idx <= final(self)@.tokens.len(),
                Err(pe) => spec_parse_assignment(old(self)@.tokens, old(self)@.idx) == Err::<
                    (ExprV, int),
                    ParserErrorV,
                >(pe@),
            },
        decreases old(self)@.tokens.len() - old(self)@.idx, 4int,
    {
        let lookahead = match self.current() {
            Some(Token::Identifier(_)) => matches!(self.at(1), Some(Token::Assign)),
            _ => false,
        };
        if lookahead {
            let ident = match self.current() {
                Some(Token::Identifier(name)) => name,
                _ => {
                    proof {
                        assert(false);
                    }
                    String::new()
                },
            };
            self.advance(2);
            match self.parse_expression() {
                Ok(value) => Ok(
                    Expression::Assignment(
                        AssignmentExpression { ident, value: Box::new(value) },
                    ),
                ),
                Err(e) => Err(e),
            }
        } else {
            self.parse_declaration()
        }
    }

    fn parse_declaration(&mut self) -> (r: Result<Expression, ParserError>)
        requires
            old(self)@.wf(),
        ensures
            final(self)@.wf(),
            final(self)@.tokens == old(self)@.tokens,
            match r {
                Ok(e) => spec_parse_declaration(old(self)@.tokens, old(self)@.idx) == Ok::<
                    (ExprV, int),
                    ParserErrorV,
                >((e@, final(self)@.idx)) && old(self)@.idx < final(self)@.idx <= final(self)@.tokens.len(),
                Err(pe) => spec_parse_declaration(old(self)@.tokens, old(self)@.idx) == Err::<
                    (ExprV, int),
                    ParserErrorV,
                >(pe@),
            },
        decreases old(self)@.tokens.len() - old(self)@.idx, 3int,
    {
        if matches!(self.current(), Some(Token::Let)) {
            self.advance(1);
            let mutable = matches!(self.current(), Some(Token::Mutable));
            if mutable {
                self.advance(1);
            }
            match self.current() {
                Some(Token::Identifier(ident)) => match self.at(1) {
                    Some(Token::Assign) => {
                        self.advance(2);
                        match self.parse_expression() {
                            Ok(value) => Ok(
                                Expression::Declaration(
                                    DeclarationExpression {
                                        ident,
                                        value: Box::new(value),
                                        mutable,
                                    },
                                ),
                            ),
                            Err(e) => Err(e),
                        }
                    },
                    Some(other) => Err(ParserError::UnexpectedToken(other)),
                    None => Err(ParserError::UnexpectedEOF),
                },
                Some(other) => Err(ParserError::UnexpectedToken(other)),
                None => Err(ParserError::UnexpectedEOF),
            }
        } else {
            self.parse_primary()
        }
    }

    fn parse_primary(&mut self) -> (r: Result<Expression, ParserError>)
        requires
            old(self)@.wf(),
        ensures
            final(self)@.wf(),
            final(self)@.tokens == old(self)@.tokens,
            match r {
                Ok(e) => spec_parse_primary(old(self)@.tokens, old(self)@.idx) == Ok::<
                    (ExprV, int),
                    ParserErrorV,
                >((e@, final(self)@.idx)) && old(self)@.idx < final(self)@.idx <= final(self)@.tokens.len(),
                Err(pe) => spec_parse_primary(old(self)@.tokens, old(self)@.idx) == Err::<
                    (ExprV, int),
                    ParserErrorV,
                >(pe@),
            },
        decreases old(self)@.tokens.len() - old(self)@.idx, 2int,
    {
        match self.current() {
            None => Err(ParserError::UnexpectedEOF),
            Some(Token::LiteralNumber(text, true)) => match text_to_bits(text.as_str()) {
                Some(bits) => {
                    self.advance(1);
                    Ok(Expression::LiteralNumber(Numeric::Float(bits)))
                },
                None => Err(ParserError::ParseFloat(text)),
            },
            Some(Token::LiteralNumber(text, false)) => match parse_int_literal(text.as_str()) {
                Some(v) => {
                    self.advance(1);
                    Ok(Expression::LiteralNumber(Numeric::Int(v)))
                },
                None => Err(ParserError::ParseInt(text)),
            },
            Some(Token::LiteralString(st)) => {
                self.advance(1);
                Ok(Expression::LiteralString(st))
            },
            Some(Token::Identifier(id)) => {
                self.advance(1);
                Ok(Expression::Identifier(id))
            },
            Some(Token::OpenParen) => {
                self.advance(1);
                match self.parse_expression() {
                    Ok(inner) => {
                        if matches!(self.current(), Some(Token::CloseParen)) {
                            self.advance(1);
                            Ok(inner)
                        } else {
                            Err(ParserError::ExpectedCloseParen)
                        }
                    },
                    Err(e) => Err(e),
                }
            },
            Some(Token::Unit) => {
                self.advance(1);
                Ok(Expression::Unit)
            },
            Some(other) => Err(ParserError::UnexpectedToken(other)),
        }
    }

    /// The top-level loop: expressions separated by `;` until the tokens
    /// run out; a trailing `;` contributes an implicit `_`.
    fn parse_program_all(&mut self) -> (r: Result<Vec<Expression>, ParserError>)
        requires
            old(self)@.wf(),
        ensures
            final(self)@.wf(),
            final(self)@.tokens == old(self)@.tokens,
            match r {
                Ok(es) => spec_parse_program(old(self)@.tokens, old(self)@.idx) == Ok::<
                    Seq<ExprV>,
                    ParserErrorV,
                >(view_exprs(es@)),
                Err(pe) => spec_parse_program(old(self)@.tokens, old(self)@.idx) == Err::<
                    Seq<ExprV>,
                    ParserErrorV,
                >(pe@),
            },
        decreases old(self)@.tokens.len() - old(self)@.idx, 13int,
    {
        let ghost toks = old(self)@.tokens;
        let ghost i0 = old(self)@.idx;
        match self.parse_expression() {
            Err(e) => Err(e),
            Ok(e) => {
                match self.current() {
                    None => {
                        let mut v: Vec<Expression> = Vec::new();
                        proof {
                            lemma_view_exprs_push(v@, e);
                        }
                        v.push(e);
                        proof {
                            assert(view_exprs(Seq::<Expression>::empty()) =~= Seq::<
                                ExprV,
                            >::empty());
                            assert(view_exprs(v@) =~= seq![view_exprs(v@)[0]]);
                        }
                        Ok(v)
                    },
                    Some(Token::Semicolon) => {
                        self.advance(1);
                        if self.eof() {
                            let mut v: Vec<Expression> = Vec::new();
                            proof {
                                lemma_view_exprs_push(v@, e);
                            }
                            v.push(e);
                            proof {
                                lemma_view_exprs_push(v@, Expression::Unit);
                            }
                            v.push(Expression::Unit);
                            proof {
                                assert(view_exprs(Seq::<Expression>::empty()) =~= Seq::<
                                    ExprV,
                                >::empty());
                                assert(view_exprs(v@) =~= seq![
                                    view_exprs(v@)[0],
                                    view_exprs(v@)[1],
                                ]);
                            }
                            Ok(v)
                        } else {
                            match self.parse_program_all() {
                                Ok(mut rest) => {
                                    let mut v: Vec<Expression> = Vec::new();
                                    v.push(e);
                                    proof {
                                        assert(view_exprs(Seq::<Expression>::empty()) =~= Seq::<
                                            ExprV,
                                        >::empty());
                                        lemma_view_exprs_push(Seq::<Expression>::empty(), e);
                                        lemma_view_exprs_concat(v@, rest@);
                                        assert(view_exprs(v@) + view_exprs(rest@) =~= seq![
                                            e@,
                                        ] + view_exprs(rest@));
                                    }
                                    v.append(&mut rest);
                                    Ok(v)
                                },
                                Err(e2) => Err(e2),
                            }
                        }
                    },
                    Some(other) => Err(ParserError::UnexpectedToken(other)),
                }
            },
        }
    }

    /// The session state as it renders in the debug dump.
    #[verifier::loop_isolation(false)]
    pub fn to_display_string(&self) -> (r: String)
        requires
            self@.wf(),
        ensures
            r@ == crate::render::parser_text(self@),
    {
        let ghost views = self@.tokens;
        let mut out = String::new();
        out.append("Parser {\nidx: ");
        crate::numeric::push_int_text(self.idx as i128, &mut out);
        out.append(",\ntokens: [\n");
        let ghost mid = out@;
        let mut i: usize = 0;
        proof {
            assert(views.subrange(0, 0) =~= Seq::<TokenV>::empty());
        }
        while i < self.tokens.len()
            invariant
                i <= self.tokens@.len(),
                out@ == mid + crate::render::tokens_list_text(views.subrange(0, i as int)),
            decreases self.tokens@.len() - i,
        {
            if i > 0 {
                out.append(",\n");
            }
            let t = self.tokens[i].to_display_string();
            out.append(t.as_str());
            i += 1;
            proof {
                assert(views.subrange(0, i as int).drop_last() =~= views.subrange(0, i - 1));
                assert(views.subrange(0, i as int).last() == views[i - 1]);
                assert(out@ =~= mid + crate::render::tokens_list_text(
                    views.subrange(0, i as int),
                ));
            }
        }
        out.append("\n]\n}");
        proof {
            assert(views.subrange(0, views.len() as int) =~= views);
            assert(out@ =~= crate::render::parser_text(self@));
        }
        out
    }

    /// Tokenize `src`, buffer the tokens, and parse a whole program from
    /// the cursor: exactly `spec_produce_ast`, result and state alike.
    pub fn produce_ast(&mut self, src: &str, keep_tokens: bool) -> (r: Result<
        Expression,
        ParserError,
    >)
        requires
            old(self)@.wf(),
        ensures
            final(self)@.wf(),
            ({
                let (res, st) = spec_produce_ast(old(self)@, src@, keep_tokens);
                final(self)@ == st && (match r {
                    Ok(e) => res == Ok::<ExprV, ParserErrorV>(e@),
                    Err(pe) => res == Err::<ExprV, ParserErrorV>(pe@),
                })
            }),
    {
        let mut new_tokens = match Lexer::tokenize(src) {
            Ok(ts) => ts,
            Err(le) => {
                self.clear(keep_tokens);
                return Err(ParserError::from(le));
            },
        };
        proof {
            lemma_tokens_view_concat(self.tokens@, new_tokens@);
        }
        self.tokens.append(&mut new_tokens);
        let res = self.parse_program_all();
        self.clear(keep_tokens);
        match res {
            Ok(es) => Ok(Expression::Program(es)),
            Err(e) => Err(e),
        }
    }
}

proof fn lemma_tokens_view_concat(a: Seq<Token>, b: Seq<Token>)
    ensures
        tokens_view(a + b) == tokens_view(a) + tokens_view(b),
{
    assert(tokens_view(a + b) =~= tokens_view(a) + tokens_view(b));
}

} // verus!
