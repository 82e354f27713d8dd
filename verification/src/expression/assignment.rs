//! Assignment to an already declared variable.

use vstd::prelude::*;

use crate::expression::Expression;

verus! {

/// `name = value`: store a new value in an existing binding.
#[derive(Debug)]
pub struct AssignmentExpression {
    pub ident: String,
    pub value: Box<Expression>,
}

} // verus!
