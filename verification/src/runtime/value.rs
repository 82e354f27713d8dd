//! Runtime values and the semantics of the operators on them.
//!
//! A value is the unit value, a number, or a string.  Each operator is an
//! exhaustive dispatch on the pair of value tags; every combination not
//! listed is an unsupported-operation error carrying the operands.
//! Exact integer arithmetic that cannot deliver (overflow, or a zero
//! divisor) is reported the same way.

use vstd::prelude::*;

use crate::expression::binary::BinaryOp;
use crate::expression::unary::UnaryOp;
use crate::float::{eq_bits, float_eq};
use crate::numeric::{
    Numeric, NumericV, opt_view, spec_add as num_add, spec_div as num_div, spec_mul as num_mul,
    spec_neg as num_neg, spec_rem as num_rem, spec_sub as num_sub,
};
use crate::runtime::error::{RuntimeError, RuntimeErrorV, RuntimeOperation, RuntimeOperationV};
use vstd::string::StringExecFns;

verus! {

/// The model of a runtime value.
pub enum ValueV {
    Unit,
    Number(NumericV),
    String(Seq<char>),
}

/// A runtime value: unit, a number, or a string.
#[derive(Debug, PartialEq)]
pub enum RuntimeValue {
    Unit,
    Number(Numeric),
    String(String),
}

impl View for RuntimeValue {
    type V = ValueV;

    open spec fn view(&self) -> ValueV {
        match self {
            RuntimeValue::Unit => ValueV::Unit,
            RuntimeValue::Number(n) => ValueV::Number(n@),
            RuntimeValue::String(s) => ValueV::String(s@),
        }
    }
}

/// The tag of a value: which of the three kinds it is.
pub open spec fn tag(v: ValueV) -> int {
    match v {
        ValueV::Unit => 0,
        ValueV::Number(_) => 1,
        ValueV::String(_) => 2,
    }
}

pub open spec fn same_tag(a: ValueV, b: ValueV) -> bool {
    tag(a) == tag(b)
}

/// Equality of two values of the same tag.  Numbers are compared by
/// representation: two integers by value, two floats by IEEE 754
/// equality, and an integer never equals a float.
pub open spec fn value_eq(a: ValueV, b: ValueV) -> bool {
    match (a, b) {
        (ValueV::Unit, ValueV::Unit) => true,
        (ValueV::Number(NumericV::Int(x)), ValueV::Number(NumericV::Int(y))) => x == y,
        (ValueV::Number(NumericV::Float(f)), ValueV::Number(NumericV::Float(g))) => float_eq(f, g),
        (ValueV::String(s), ValueV::String(t)) => s == t,
        _ => false,
    }
}

/// The string repeated `n` times.
pub open spec fn repeat_seq(s: Seq<char>, n: int) -> Seq<char>
    decreases n,
        when n >= 0
{
    if n <= 0 {
        Seq::empty()
    } else {
        repeat_seq(s, n - 1) + s
    }
}

pub open spec fn unsupported_unary(op: UnaryOp, v: ValueV) -> RuntimeErrorV {
    RuntimeErrorV::UnsupportedOperation(RuntimeOperationV::Unary(op, v))
}

pub open spec fn unsupported_binary(l: ValueV, op: BinaryOp, r: ValueV) -> RuntimeErrorV {
    RuntimeErrorV::UnsupportedOperation(RuntimeOperationV::Binary(l, op, r))
}

/// Unary plus: the identity on numbers, an error on anything else.
pub open spec fn spec_pos(v: ValueV) -> Result<ValueV, RuntimeErrorV> {
    match v {
        ValueV::Number(n) => Ok(ValueV::Number(n)),
        _ => Err(unsupported_unary(UnaryOp::Plus, v)),
    }
}

/// Unary minus: negation on numbers, an error on anything else or on
/// integer overflow.
pub open spec fn spec_neg(v: ValueV) -> Result<ValueV, RuntimeErrorV> {
    match v {
        ValueV::Number(n) => match num_neg(n) {
            Some(m) => Ok(ValueV::Number(m)),
            None => Err(unsupported_unary(UnaryOp::Minus, v)),
        },
        _ => Err(unsupported_unary(UnaryOp::Minus, v)),
    }
}

/// Addition: numeric addition, or string concatenation.
pub open spec fn spec_add(a: ValueV, b: ValueV) -> Result<ValueV, RuntimeErrorV> {
    match (a, b) {
        (ValueV::Number(l), ValueV::Number(r)) => match num_add(l, r) {
            Some(s) => Ok(ValueV::Number(s)),
            None => Err(unsupported_binary(a, BinaryOp::Add, b)),
        },
        (ValueV::String(l), ValueV::String(r)) => Ok(ValueV::String(l + r)),
        _ => Err(unsupported_binary(a, BinaryOp::Add, b)),
    }
}

/// Subtraction: numbers only.
pub open spec fn spec_sub(a: ValueV, b: ValueV) -> Result<ValueV, RuntimeErrorV> {
    match (a, b) {
        (ValueV::Number(l), ValueV::Number(r)) => match num_sub(l, r) {
            Some(s) => Ok(ValueV::Number(s)),
            None => Err(unsupported_binary(a, BinaryOp::Subtract, b)),
        },
        _ => Err(unsupported_binary(a, BinaryOp::Subtract, b)),
    }
}

/// Multiplication: numbers, or a string repeated by an integer in
/// `0 ..= usize::MAX`.
pub open spec fn spec_mul(a: ValueV, b: ValueV) -> Result<ValueV, RuntimeErrorV> {
    match (a, b) {
        (ValueV::Number(l), ValueV::Number(r)) => match num_mul(l, r) {
            Some(s) => Ok(ValueV::Number(s)),
            None => Err(unsupported_binary(a, BinaryOp::Multiply, b)),
        },
        (ValueV::String(s), ValueV::Number(NumericV::Int(i))) => if 0 <= i <= usize::MAX {
            Ok(ValueV::String(repeat_seq(s, i)))
        } else {
            Err(unsupported_binary(a, BinaryOp::Multiply, b))
        },
        _ => Err(unsupported_binary(a, BinaryOp::Multiply, b)),
    }
}

/// Division: numbers only.
pub open spec fn spec_div(a: ValueV, b: ValueV) -> Result<ValueV, RuntimeErrorV> {
    match (a, b) {
        (ValueV::Number(l), ValueV::Number(r)) => match num_div(l, r) {
            Some(s) => Ok(ValueV::Number(s)),
            None => Err(unsupported_binary(a, BinaryOp::Divide, b)),
        },
        _ => Err(unsupported_binary(a, BinaryOp::Divide, b)),
    }
}

/// Remainder: numbers only.
pub open spec fn spec_rem(a: ValueV, b: ValueV) -> Result<ValueV, RuntimeErrorV> {
    match (a, b) {
        (ValueV::Number(l), ValueV::Number(r)) => match num_rem(l, r) {
            Some(s) => Ok(ValueV::Number(s)),
            None => Err(unsupported_binary(a, BinaryOp::Modulo, b)),
        },
        _ => Err(unsupported_binary(a, BinaryOp::Modulo, b)),
    }
}

/// `==`: defined only between values of the same tag; one for equal,
/// zero for unequal.
pub open spec fn spec_equals(a: ValueV, b: ValueV) -> Result<ValueV, RuntimeErrorV> {
    if same_tag(a, b) {
        Ok(
            ValueV::Number(
                NumericV::Int(
                    if value_eq(a, b) {
                        1
                    } else {
                        0
                    },
                ),
            ),
        )
    } else {
        Err(unsupported_binary(a, BinaryOp::Equals, b))
    }
}

pub open spec fn value_result_view(r: Result<RuntimeValue, RuntimeError>) -> Result<
    ValueV,
    RuntimeErrorV,
> {
    match r {
        Ok(v) => Ok(v@),
        Err(e) => Err(e@),
    }
}

impl RuntimeValue {
    /// An owned copy of the value, equal at the level of the model.
    pub fn duplicate(&self) -> (r: Self)
        ensures
            r@ == self@,
    {
        match self {
            RuntimeValue::Unit => RuntimeValue::Unit,
            RuntimeValue::Number(n) => RuntimeValue::Number(*n),
            RuntimeValue::String(s) => RuntimeValue::String(s.clone()),
        }
    }

    /// A small integer code for the value's tag.
    pub fn discriminant(&self) -> (r: u8)
        ensures
            r as int == tag(self@),
    {
        match self {
            RuntimeValue::Unit => 0,
            RuntimeValue::Number(_) => 1,
            RuntimeValue::String(_) => 2,
        }
    }

    /// Are two values equal?  (Only meaningful between equal tags; total
    /// all the same.)
    pub fn equals(&self, other: &RuntimeValue) -> (r: bool)
        ensures
            r == value_eq(self@, other@),
    {
        match (self, other) {
            (RuntimeValue::Unit, RuntimeValue::Unit) => true,
            (RuntimeValue::Number(Numeric::Int(x)), RuntimeValue::Number(Numeric::Int(y))) => x
                == y,
            (
                RuntimeValue::Number(Numeric::Float(f)),
                RuntimeValue::Number(Numeric::Float(g)),
            ) => eq_bits(*f, *g),
            (RuntimeValue::String(s), RuntimeValue::String(t)) => *s == *t,
            _ => false,
        }
    }

    pub fn pos(&self) -> (r: Result<RuntimeValue, RuntimeError>)
        ensures
            value_result_view(r) == spec_pos(self@),
    {
        match self {
            RuntimeValue::Number(n) => Ok(RuntimeValue::Number(*n)),
            _ => Err(
                RuntimeError::UnsupportedOperation(
                    RuntimeOperation::Unary(UnaryOp::Plus, self.duplicate()),
                ),
            ),
        }
    }

    pub fn neg(&self) -> (r: Result<RuntimeValue, RuntimeError>)
        ensures
            value_result_view(r) == spec_neg(self@),
    {
        match self {
            RuntimeValue::Number(n) => match n.neg() {
                Some(m) => Ok(RuntimeValue::Number(m)),
                None => Err(
                    RuntimeError::UnsupportedOperation(
                        RuntimeOperation::Unary(UnaryOp::Minus, self.duplicate()),
                    ),
                ),
            },
            _ => Err(
                RuntimeError::UnsupportedOperation(
                    RuntimeOperation::Unary(UnaryOp::Minus, self.duplicate()),
                ),
            ),
        }
    }

    pub fn add(&self, rhs: &RuntimeValue) -> (r: Result<RuntimeValue, RuntimeError>)
        ensures
            value_result_view(r) == spec_add(self@, rhs@),
    {
        match (self, rhs) {
            (RuntimeValue::Number(l), RuntimeValue::Number(r)) => match l.add(*r) {
                Some(s) => Ok(RuntimeValue::Number(s)),
                None => Err(self.binary_error(BinaryOp::Add, rhs)),
            },
            (RuntimeValue::String(l), RuntimeValue::String(r)) => {
                let mut out = l.clone();
                out.append(r.as_str());
                Ok(RuntimeValue::String(out))
            },
            _ => Err(self.binary_error(BinaryOp::Add, rhs)),
        }
    }

    pub fn sub(&self, rhs: &RuntimeValue) -> (r: Result<RuntimeValue, RuntimeError>)
        ensures
            value_result_view(r) == spec_sub(self@, rhs@),
    {
        match (self, rhs) {
            (RuntimeValue::Number(l), RuntimeValue::Number(r)) => match l.sub(*r) {
                Some(s) => Ok(RuntimeValue::Number(s)),
                None => Err(self.binary_error(BinaryOp::Subtract, rhs)),
            },
            _ => Err(self.binary_error(BinaryOp::Subtract, rhs)),
        }
    }

    pub fn mul(&self, rhs: &RuntimeValue) -> (r: Result<RuntimeValue, RuntimeError>)
        ensures
            value_result_view(r) == spec_mul(self@, rhs@),
    {
        match (self, rhs) {
            (RuntimeValue::Number(l), RuntimeValue::Number(r)) => match l.mul(*r) {
                Some(s) => Ok(RuntimeValue::Number(s)),
                None => Err(self.binary_error(BinaryOp::Multiply, rhs)),
            },
            (RuntimeValue::String(s), RuntimeValue::Number(Numeric::Int(i))) => {
                if *i < 0 || *i > usize::MAX as i128 {
                    Err(self.binary_error(BinaryOp::Multiply, rhs))
                } else {
                    let count: usize = *i as usize;
                    let mut out = String::new();
                    let mut k: usize = 0;
                    proof {
                        assert(out@ =~= repeat_seq(s@, 0));
                    }
                    while k < count
                        invariant
                            k <= count,
                            out@ == repeat_seq(s@, k as int),
                        decreases count - k,
                    {
                        out.append(s.as_str());
                        k += 1;
                    }
                    Ok(RuntimeValue::String(out))
                }
            },
            _ => Err(self.binary_error(BinaryOp::Multiply, rhs)),
        }
    }

    pub fn div(&self, rhs: &RuntimeValue) -> (r: Result<RuntimeValue, RuntimeError>)
        ensures
            value_result_view(r) == spec_div(self@, rhs@),
    {
        match (self, rhs) {
            (RuntimeValue::Number(l), RuntimeValue::Number(r)) => match l.div(*r) {
                Some(s) => Ok(RuntimeValue::Number(s)),
                None => Err(self.binary_error(BinaryOp::Divide, rhs)),
            },
            _ => Err(self.binary_error(BinaryOp::Divide, rhs)),
        }
    }

    pub fn rem(&self, rhs: &RuntimeValue) -> (r: Result<RuntimeValue, RuntimeError>)
        ensures
            value_result_view(r) == spec_rem(self@, rhs@),
    {
        match (self, rhs) {
            (RuntimeValue::Number(l), RuntimeValue::Number(r)) => match l.rem(*r) {
                Some(s) => Ok(RuntimeValue::Number(s)),
                None => Err(self.binary_error(BinaryOp::Modulo, rhs)),
            },
            _ => Err(self.binary_error(BinaryOp::Modulo, rhs)),
        }
    }

    /// `==` between two values: one or zero, or an error on a tag
    /// mismatch.
    pub fn equals_value(&self, rhs: &RuntimeValue) -> (r: Result<RuntimeValue, RuntimeError>)
        ensures
            value_result_view(r) == spec_equals(self@, rhs@),
    {
        if self.discriminant() == rhs.discriminant() {
            let one_or_zero: i128 = if self.equals(rhs) {
                1
            } else {
                0
            };
            Ok(RuntimeValue::Number(Numeric::Int(one_or_zero)))
        } else {
            Err(self.binary_error(BinaryOp::Equals, rhs))
        }
    }

    fn binary_error(&self, op: BinaryOp, rhs: &RuntimeValue) -> (r: RuntimeError)
        ensures
            r@ == unsupported_binary(self@, op, rhs@),
    {
        RuntimeError::UnsupportedOperation(
            RuntimeOperation::Binary(self.duplicate(), op, rhs.duplicate()),
        )
    }
}

} // verus!
