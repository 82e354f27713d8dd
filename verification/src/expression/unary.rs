//! Prefix operators.

use vstd::prelude::*;

use crate::expression::Expression;

verus! {

#[derive(Clone, Copy, Debug, PartialEq, Eq, Structural)]
pub enum UnaryOp {
    Plus,
    Minus,
}

/// A prefix `+` or `-` applied to an operand.
#[derive(Debug)]
pub struct UnaryExpression {
    pub operator: UnaryOp,
    pub right: Box<Expression>,
}

} // verus!
