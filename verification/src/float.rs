//! Bit-level access to IEEE 754 double-precision arithmetic.
//!
//! The language's `Float` numbers are carried through the interpreter as
//! their 64-bit IEEE 754 encoding.  The operations on those encodings are
//! performed by the `rustc_apfloat` software implementation of IEEE 754
//! (`ieee::Double`, round to nearest, ties to even), which computes the
//! same results as hardware double arithmetic.  Each operation below is a
//! pure function of the operand bits, so its result is given a name that
//! the contracts of the numeric layer speak of.

use vstd::prelude::*;
use rustc_apfloat::Float;
use rustc_apfloat::ieee::Double;

verus! {

pub uninterp spec fn float_add(a: u64, b: u64) -> u64;

pub uninterp spec fn float_sub(a: u64, b: u64) -> u64;

pub uninterp spec fn float_mul(a: u64, b: u64) -> u64;

pub uninterp spec fn float_div(a: u64, b: u64) -> u64;

pub uninterp spec fn float_rem(a: u64, b: u64) -> u64;

pub uninterp spec fn float_neg(a: u64) -> u64;

pub uninterp spec fn float_of_int(i: int) -> u64;

pub uninterp spec fn float_of_text(s: Seq<char>) -> Option<u64>;

pub uninterp spec fn float_eq(a: u64, b: u64) -> bool;

pub uninterp spec fn float_text(a: u64) -> Seq<char>;

/// Relies on `rustc_apfloat::ieee::Double`'s `Add` (round to nearest, ties
/// to even): the sum of two doubles, a function of the operand bits alone.
#[verifier::external_body]
pub(crate) fn add_bits(a: u64, b: u64) -> (r: u64)
    ensures
        r == float_add(a, b),
{
    let x = Double::from_bits(a as u128);
    let y = Double::from_bits(b as u128);
    (x + y).value.to_bits() as u64
}

/// Relies on `rustc_apfloat::ieee::Double`'s `Sub` (round to nearest, ties
/// to even): the difference of two doubles, a function of the operand bits alone.
#[verifier::external_body]
pub(crate) fn sub_bits(a: u64, b: u64) -> (r: u64)
    ensures
        r == float_sub(a, b),
{
    let x = Double::from_bits(a as u128);
    let y = Double::from_bits(b as u128);
    (x - y).value.to_bits() as u64
}

/// Relies on `rustc_apfloat::ieee::Double`'s `Mul` (round to nearest, ties
/// to even): the product of two doubles, a function of the operand bits alone.
#[verifier::external_body]
pub(crate) fn mul_bits(a: u64, b: u64) -> (r: u64)
    ensures
        r == float_mul(a, b),
{
    let x = Double::from_bits(a as u128);
    let y = Double::from_bits(b as u128);
    (x * y).value.to_bits() as u64
}

/// Relies on `rustc_apfloat::ieee::Double`'s `Div` (round to nearest, ties
/// to even): the quotient of two doubles, a function of the operand bits alone.
#[verifier::external_body]
pub(crate) fn div_bits(a: u64, b: u64) -> (r: u64)
    ensures
        r == float_div(a, b),
{
    let x = Double::from_bits(a as u128);
    let y = Double::from_bits(b as u128);
    (x / y).value.to_bits() as u64
}

/// Relies on `rustc_apfloat::ieee::Double`'s `Rem` (`c_fmod`, the truncating
/// remainder of C and Rust): a function of the operand bits alone.
#[verifier::external_body]
pub(crate) fn rem_bits(a: u64, b: u64) -> (r: u64)
    ensures
        r == float_rem(a, b),
{
    let x = Double::from_bits(a as u128);
    let y = Double::from_bits(b as u128);
    (x % y).value.to_bits() as u64
}

/// Relies on `rustc_apfloat::ieee::Double`'s `Neg` (sign-bit flip):
/// a function of the operand bits alone.
#[verifier::external_body]
pub(crate) fn neg_bits(a: u64) -> (r: u64)
    ensures
        r == float_neg(a),
{
    (-Double::from_bits(a as u128)).to_bits() as u64
}

/// Relies on `rustc_apfloat::Float::from_i128` (round to nearest, ties to
/// even, like Rust's integer-to-double cast): a function of the integer alone.
#[verifier::external_body]
pub(crate) fn int_to_bits(i: i128) -> (r: u64)
    ensures
        r == float_of_int(i as int),
{
    Double::from_i128(i).value.to_bits() as u64
}

/// Relies on `rustc_apfloat::Float::from_str` (correctly rounded decimal
/// conversion, like Rust's string-to-double parsing): a function of the text
/// alone.  Its source rejects a significand without digits and accepts any
/// non-empty string of decimal digits with at most one point.
#[verifier::external_body]
pub(crate) fn text_to_bits(s: &str) -> (r: Option<u64>)
    ensures
        r == float_of_text(s@),
        (forall|i: int|
            0 <= i < s@.len() ==> (s@[i] == '.' || ('0' <= s@[i] && s@[i] <= '9')))
            && (exists|i: int| 0 <= i < s@.len() && '0' <= s@[i] && s@[i] <= '9')
            && (forall|i: int, j: int|
                0 <= i < j < s@.len() ==> !(s@[i] == '.' && s@[j] == '.'))
            ==> r is Some,
{
    match s.parse::<Double>() {
        Ok(d) => Some(d.to_bits() as u64),
        Err(_) => None,
    }
}

/// Relies on `rustc_apfloat::ieee::Double`'s `PartialEq` (IEEE 754 equality:
/// a NaN equals nothing, the two zeros are equal): a function of the operand
/// bits alone.
#[verifier::external_body]
pub(crate) fn eq_bits(a: u64, b: u64) -> (r: bool)
    ensures
        r == float_eq(a, b),
{
    Double::from_bits(a as u128) == Double::from_bits(b as u128)
}

/// Relies on `rustc_apfloat::ieee::Double`'s `Display` (a decimal rendering
/// of the value): a function of the bits alone.
#[verifier::external_body]
pub(crate) fn bits_to_text(a: u64) -> (r: String)
    ensures
        r@ == float_text(a),
{
    format!("{}", Double::from_bits(a as u128))
}

} // verus!
