//! Declaration of a new variable.

use vstd::prelude::*;

use crate::expression::Expression;

verus! {

/// `let [mutable] name = value`: create a binding in the current scope.
#[derive(Debug)]
pub struct DeclarationExpression {
    pub ident: String,
    pub value: Box<Expression>,
    pub mutable: bool,
}

} // verus!
