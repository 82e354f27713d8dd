//! Runtime errors.

use vstd::prelude::*;

use crate::expression::binary::BinaryOp;
use crate::expression::unary::UnaryOp;
use crate::runtime::value::{RuntimeValue, ValueV};

verus! {

/// The model of an operation that failed at runtime.
pub enum RuntimeOperationV {
    Unary(UnaryOp, ValueV),
    Binary(ValueV, BinaryOp, ValueV),
}

/// An operation that failed at runtime, with its operand values.
#[derive(Debug, PartialEq)]
pub enum RuntimeOperation {
    Unary(UnaryOp, RuntimeValue),
    Binary(RuntimeValue, BinaryOp, RuntimeValue),
}

impl View for RuntimeOperation {
    type V = RuntimeOperationV;

    open spec fn view(&self) -> RuntimeOperationV {
        match self {
            RuntimeOperation::Unary(op, v) => RuntimeOperationV::Unary(*op, v@),
            RuntimeOperation::Binary(l, op, r) => RuntimeOperationV::Binary(l@, *op, r@),
        }
    }
}

/// The model of a runtime error.
pub enum RuntimeErrorV {
    UnsupportedOperation(RuntimeOperationV),
    VariableNotDeclared(Seq<char>),
    VariableTypeDoesntMatch(Seq<char>),
    CannotMutateVariable(Seq<char>),
}

/// A runtime error: an operation undefined for its operands, or a
/// variable misuse (not declared, assigned a value of another type, or
/// not declared mutable).
#[derive(Debug, PartialEq)]
pub enum RuntimeError {
    UnsupportedOperation(RuntimeOperation),
    VariableNotDeclared(String),
    VariableTypeDoesntMatch(String),
    CannotMutateVariable(String),
}

impl View for RuntimeError {
    type V = RuntimeErrorV;

    open spec fn view(&self) -> RuntimeErrorV {
        match self {
            RuntimeError::UnsupportedOperation(op) => RuntimeErrorV::UnsupportedOperation(op@),
            RuntimeError::VariableNotDeclared(n) => RuntimeErrorV::VariableNotDeclared(n@),
            RuntimeError::VariableTypeDoesntMatch(n) => RuntimeErrorV::VariableTypeDoesntMatch(n@),
            RuntimeError::CannotMutateVariable(n) => RuntimeErrorV::CannotMutateVariable(n@),
        }
    }
}

} // verus!
