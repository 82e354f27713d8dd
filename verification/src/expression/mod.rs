//! The expression tree produced by the parser.
//!
//! The tree is immutable once built; ownership is strictly parent to
//! child.  `ExprV` is its mathematical model, with identifier and string
//! texts as character sequences.

pub mod assignment;
pub mod binary;
pub mod declaration;
pub mod unary;

use vstd::prelude::*;

use crate::expression::assignment::AssignmentExpression;
use crate::expression::binary::{BinaryExpression, BinaryOp};
use crate::expression::declaration::DeclarationExpression;
use crate::expression::unary::{UnaryExpression, UnaryOp};
use crate::numeric::{Numeric, NumericV};

verus! {

/// The model of an expression tree.
pub enum ExprV {
    Program(Seq<ExprV>),
    LiteralNumber(NumericV),
    LiteralString(Seq<char>),
    Identifier(Seq<char>),
    Unary(UnaryOp, Box<ExprV>),
    Binary(Box<ExprV>, BinaryOp, Box<ExprV>),
    Unit,
    Assignment(Seq<char>, Box<ExprV>),
    Declaration(Seq<char>, Box<ExprV>, bool),
}

/// One node of the expression tree.
#[derive(Debug)]
pub enum Expression {
    Program(Vec<Expression>),
    LiteralNumber(Numeric),
    LiteralString(String),
    Identifier(String),
    Unary(UnaryExpression),
    Binary(BinaryExpression),
    Unit,
    Assignment(AssignmentExpression),
    Declaration(DeclarationExpression),
}

pub open spec fn view_expr(e: Expression) -> ExprV
    decreases e,
{
    match e {
        Expression::Program(es) => ExprV::Program(view_exprs(es@)),
        Expression::LiteralNumber(n) => ExprV::LiteralNumber(n@),
        Expression::LiteralString(s) => ExprV::LiteralString(s@),
        Expression::Identifier(s) => ExprV::Identifier(s@),
        Expression::Unary(u) => ExprV::Unary(u.operator, Box::new(view_expr(*u.right))),
        Expression::Binary(b) => ExprV::Binary(
            Box::new(view_expr(*b.left)),
            b.operator,
            Box::new(view_expr(*b.right)),
        ),
        Expression::Unit => ExprV::Unit,
        Expression::Assignment(a) => ExprV::Assignment(a.ident@, Box::new(view_expr(*a.value))),
        Expression::Declaration(d) => ExprV::Declaration(
            d.ident@,
            Box::new(view_expr(*d.value)),
            d.mutable,
        ),
    }
}

pub open spec fn view_exprs(es: Seq<Expression>) -> Seq<ExprV>
    decreases es,
{
    if es.len() == 0 {
        Seq::empty()
    } else {
        view_exprs(es.drop_last()).push(view_expr(es.last()))
    }
}

impl View for Expression {
    type V = ExprV;

    open spec fn view(&self) -> ExprV {
        view_expr(*self)
    }
}

pub proof fn lemma_view_exprs_len(es: Seq<Expression>)
    ensures
        view_exprs(es).len() == es.len(),
    decreases es,
{
    if es.len() > 0 {
        lemma_view_exprs_len(es.drop_last());
    }
}

pub proof fn lemma_view_exprs_index(es: Seq<Expression>, i: int)
    requires
        0 <= i < es.len(),
    ensures
        view_exprs(es).len() == es.len(),
        view_exprs(es)[i] == view_expr(es[i]),
    decreases es,
{
    lemma_view_exprs_len(es);
    if i < es.len() - 1 {
        lemma_view_exprs_index(es.drop_last(), i);
    } else {
        lemma_view_exprs_len(es.drop_last());
    }
}

pub proof fn lemma_view_exprs_concat(a: Seq<Expression>, b: Seq<Expression>)
    ensures
        view_exprs(a + b) == view_exprs(a) + view_exprs(b),
    decreases b,
{
    if b.len() == 0 {
        assert(a + b =~= a);
        assert(view_exprs(a) + view_exprs(b) =~= view_exprs(a));
    } else {
        lemma_view_exprs_concat(a, b.drop_last());
        assert((a + b).drop_last() =~= a + b.drop_last());
        assert((a + b).last() == b.last());
        assert(view_exprs(a) + view_exprs(b) =~= (view_exprs(a) + view_exprs(
            b.drop_last(),
        )).push(view_expr(b.last())));
    }
}

pub proof fn lemma_view_exprs_push(es: Seq<Expression>, e: Expression)
    ensures
        view_exprs(es.push(e)) == view_exprs(es).push(view_expr(e)),
{
    assert(es.push(e).drop_last() =~= es);
    assert(es.push(e).last() == e);
}

} // verus!
