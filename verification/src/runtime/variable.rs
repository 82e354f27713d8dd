//! A runtime value together with the mutability of its binding.
//!
//! The flag is a property of the binding, not of the bare value: a fresh
//! literal or operation result is never mutable; a value read out of a
//! variable carries that variable's declared mutability.

use vstd::prelude::*;

use crate::numeric::Numeric;
use crate::runtime::error::{RuntimeError, RuntimeErrorV};
use crate::runtime::value::{
    RuntimeValue, ValueV, same_tag, spec_add, spec_div, spec_equals, spec_mul, spec_neg, spec_pos,
    spec_rem, spec_sub, value_result_view,
};

verus! {

/// The model of a variable: a value and its binding's mutability.
pub struct VarV {
    pub value: ValueV,
    pub mutable: bool,
}

/// A runtime value with the mutability flag of its binding.
#[derive(Debug, PartialEq)]
pub struct RuntimeVariable {
    value: RuntimeValue,
    pub mutable: bool,
}

impl View for RuntimeVariable {
    type V = VarV;

    closed spec fn view(&self) -> VarV {
        VarV { value: self.value@, mutable: self.mutable }
    }
}

/// Lift an operation on bare values to one on variables: the result of
/// an operation is never mutable.
pub open spec fn lift_value_result(r: Result<ValueV, RuntimeErrorV>) -> Result<
    VarV,
    RuntimeErrorV,
> {
    match r {
        Ok(v) => Ok(VarV { value: v, mutable: false }),
        Err(e) => Err(e),
    }
}

pub open spec fn var_result_view(r: Result<RuntimeVariable, RuntimeError>) -> Result<
    VarV,
    RuntimeErrorV,
> {
    match r {
        Ok(v) => Ok(v@),
        Err(e) => Err(e@),
    }
}

/// Unary plus as an operator trait, the companion of `core::ops::Neg`.
pub trait Pos {
    type Output;

    fn pos(self) -> Self::Output;
}

impl Pos for RuntimeVariable {
    type Output = Result<RuntimeVariable, RuntimeError>;

    fn pos(self) -> Self::Output {
        RuntimeVariable::pos(&self)
    }
}

impl RuntimeVariable {
    fn new(inner: RuntimeValue) -> (r: Self)
        ensures
            r@ == (VarV { value: inner@, mutable: false }),
    {
        RuntimeVariable { value: inner, mutable: false }
    }

    /// Is the binding mutable?
    pub fn is_mutable(&self) -> (r: bool)
        ensures
            r == self@.mutable,
    {
        self.mutable
    }

    /// The bare value.
    pub fn inner(&self) -> (r: &RuntimeValue)
        ensures
            r@ == self@.value,
    {
        &self.value
    }

    /// An owned copy, equal at the level of the model.
    pub fn duplicate(&self) -> (r: Self)
        ensures
            r@ == self@,
    {
        RuntimeVariable { value: self.value.duplicate(), mutable: self.mutable }
    }

    /// The same value under a given mutability.
    pub fn with_mutable(self, mutable: bool) -> (r: Self)
        ensures
            r@.value == self@.value,
            r@.mutable == mutable,
    {
        RuntimeVariable { value: self.value, mutable }
    }

    /// Do the two variables hold values of the same tag?
    pub fn same_type(&self, other: &Self) -> (r: bool)
        ensures
            r == same_tag(self@.value, other@.value),
    {
        self.value.discriminant() == other.value.discriminant()
    }

    /// A fresh, non-mutable number.
    pub fn number(number: Numeric) -> (r: Self)
        ensures
            r@ == (VarV { value: ValueV::Number(number@), mutable: false }),
    {
        Self::new(RuntimeValue::Number(number))
    }

    /// A fresh, non-mutable string.
    pub fn string(string: String) -> (r: Self)
        ensures
            r@ == (VarV { value: ValueV::String(string@), mutable: false }),
    {
        Self::new(RuntimeValue::String(string))
    }

    /// The fresh, non-mutable unit value.
    pub fn unit() -> (r: Self)
        ensures
            r@ == (VarV { value: ValueV::Unit, mutable: false }),
    {
        Self::new(RuntimeValue::Unit)
    }

    pub fn pos(&self) -> (r: Result<RuntimeVariable, RuntimeError>)
        ensures
            var_result_view(r) == lift_value_result(spec_pos(self@.value)),
    {
        match self.value.pos() {
            Ok(v) => Ok(Self::new(v)),
            Err(e) => Err(e),
        }
    }

    pub fn neg(&self) -> (r: Result<RuntimeVariable, RuntimeError>)
        ensures
            var_result_view(r) == lift_value_result(spec_neg(self@.value)),
    {
        match self.value.neg() {
            Ok(v) => Ok(Self::new(v)),
            Err(e) => Err(e),
        }
    }

    pub fn add(&self, rhs: &RuntimeVariable) -> (r: Result<RuntimeVariable, RuntimeError>)
        ensures
            var_result_view(r) == lift_value_result(spec_add(self@.value, rhs@.value)),
    {
        match self.value.add(&rhs.value) {
            Ok(v) => Ok(Self::new(v)),
            Err(e) => Err(e),
        }
    }

    pub fn sub(&self, rhs: &RuntimeVariable) -> (r: Result<RuntimeVariable, RuntimeError>)
        ensures
            var_result_view(r) == lift_value_result(spec_sub(self@.value, rhs@.value)),
    {
        match self.value.sub(&rhs.value) {
            Ok(v) => Ok(Self::new(v)),
            Err(e) => Err(e),
        }
    }

    pub fn mul(&self, rhs: &RuntimeVariable) -> (r: Result<RuntimeVariable, RuntimeError>)
        ensures
            var_result_view(r) == lift_value_result(spec_mul(self@.value, rhs@.value)),
    {
        match self.value.mul(&rhs.value) {
            Ok(v) => Ok(Self::new(v)),
            Err(e) => Err(e),
        }
    }

    pub fn div(&self, rhs: &RuntimeVariable) -> (r: Result<RuntimeVariable, RuntimeError>)
        ensures
            var_result_view(r) == lift_value_result(spec_div(self@.value, rhs@.value)),
    {
        match self.value.div(&rhs.value) {
            Ok(v) => Ok(Self::new(v)),
            Err(e) => Err(e),
        }
    }

    pub fn rem(&self, rhs: &RuntimeVariable) -> (r: Result<RuntimeVariable, RuntimeError>)
        ensures
            var_result_view(r) == lift_value_result(spec_rem(self@.value, rhs@.value)),
    {
        match self.value.rem(&rhs.value) {
            Ok(v) => Ok(Self::new(v)),
            Err(e) => Err(e),
        }
    }

    /// `==` between the two held values.
    pub fn equals_variable(&self, rhs: &RuntimeVariable) -> (r: Result<
        RuntimeVariable,
        RuntimeError,
    >)
        ensures
            var_result_view(r) == lift_value_result(spec_equals(self@.value, rhs@.value)),
    {
        match self.value.equals_value(&rhs.value) {
            Ok(v) => Ok(Self::new(v)),
            Err(e) => Err(e),
        }
    }
}

} // verus!
