//! The numeric tower of the language: exact integers and IEEE doubles.
//!
//! A `Numeric` is either a 128-bit signed integer or a double-precision
//! float carried as its 64-bit IEEE 754 encoding (see `crate::float`).
//! Arithmetic between two integers is exact integer arithmetic: division
//! truncates toward zero and the remainder takes the sign of the dividend.
//! As soon as one operand is a float the other is promoted and the
//! operation is done in double precision.  An integer operation whose
//! result does not fit in 128 bits, and an integer division or remainder
//! by zero, has no result: the operations below return `None` there and
//! the evaluator reports the offending operation.

use vstd::prelude::*;

use crate::float::{
    float_add, float_sub, float_mul, float_div, float_rem, float_neg, float_of_int,
    add_bits, sub_bits, mul_bits, div_bits, rem_bits, neg_bits, int_to_bits,
};
use crate::lexer::is_digit;
use crate::text::{chars_of, push_char};

verus! {

/// The mathematical model of a `Numeric`: an unbounded integer, or the
/// bits of a double.
pub enum NumericV {
    Int(int),
    Float(u64),
}

/// A number of the language: an exact integer or a double, the latter
/// carried as its IEEE 754 bit pattern.
#[derive(Clone, Copy, Debug, PartialEq)]
pub enum Numeric {
    Int(i128),
    Float(u64),
}

impl View for Numeric {
    type V = NumericV;

    open spec fn view(&self) -> NumericV {
        match *self {
            Numeric::Int(i) => NumericV::Int(i as int),
            Numeric::Float(b) => NumericV::Float(b),
        }
    }
}

/// Truncating integer division: the quotient rounded toward zero.
pub open spec fn div_trunc(a: int, b: int) -> int {
    if a == 0 {
        0
    } else if a > 0 && b > 0 {
        a / b
    } else if a < 0 && b < 0 {
        (a * -1) / (b * -1)
    } else if a < 0 {
        ((a * -1) / b) * -1
    } else {
        (a / (b * -1)) * -1
    }
}

/// Remainder of truncating division: takes the sign of the dividend.
pub open spec fn rem_trunc(a: int, b: int) -> int {
    if a == 0 {
        0
    } else if a > 0 && b > 0 {
        a % b
    } else if a < 0 && b < 0 {
        ((a * -1) % (b * -1)) * -1
    } else if a < 0 {
        ((a * -1) % b) * -1
    } else {
        a % (b * -1)
    }
}

pub open spec fn in_i128(i: int) -> bool {
    i128::MIN <= i <= i128::MAX
}

/// The sum of two numbers, or `None` on integer overflow.
pub open spec fn spec_add(a: NumericV, b: NumericV) -> Option<NumericV> {
    match (a, b) {
        (NumericV::Int(x), NumericV::Int(y)) => if in_i128(x + y) {
            Some(NumericV::Int(x + y))
        } else {
            None
        },
        (NumericV::Int(x), NumericV::Float(g)) => Some(
            NumericV::Float(float_add(float_of_int(x), g)),
        ),
        (NumericV::Float(f), NumericV::Int(y)) => Some(
            NumericV::Float(float_add(f, float_of_int(y))),
        ),
        (NumericV::Float(f), NumericV::Float(g)) => Some(NumericV::Float(float_add(f, g))),
    }
}

/// The difference of two numbers, or `None` on integer overflow.
pub open spec fn spec_sub(a: NumericV, b: NumericV) -> Option<NumericV> {
    match (a, b) {
        (NumericV::Int(x), NumericV::Int(y)) => if in_i128(x - y) {
            Some(NumericV::Int(x - y))
        } else {
            None
        },
        (NumericV::Int(x), NumericV::Float(g)) => Some(
            NumericV::Float(float_sub(float_of_int(x), g)),
        ),
        (NumericV::Float(f), NumericV::Int(y)) => Some(
            NumericV::Float(float_sub(f, float_of_int(y))),
        ),
        (NumericV::Float(f), NumericV::Float(g)) => Some(NumericV::Float(float_sub(f, g))),
    }
}

/// The product of two numbers, or `None` on integer overflow.
pub open spec fn spec_mul(a: NumericV, b: NumericV) -> Option<NumericV> {
    match (a, b) {
        (NumericV::Int(x), NumericV::Int(y)) => if in_i128(x * y) {
            Some(NumericV::Int(x * y))
        } else {
            None
        },
        (NumericV::Int(x), NumericV::Float(g)) => Some(
            NumericV::Float(float_mul(float_of_int(x), g)),
        ),
        (NumericV::Float(f), NumericV::Int(y)) => Some(
            NumericV::Float(float_mul(f, float_of_int(y))),
        ),
        (NumericV::Float(f), NumericV::Float(g)) => Some(NumericV::Float(float_mul(f, g))),
    }
}

/// The quotient of two numbers; `None` on integer division by zero or
/// overflow.  Integer division truncates toward zero; float division is
/// IEEE division, defined for every operand pair.
pub open spec fn spec_div(a: NumericV, b: NumericV) -> Option<NumericV> {
    match (a, b) {
        (NumericV::Int(x), NumericV::Int(y)) => if y == 0 || !in_i128(div_trunc(x, y)) {
            None
        } else {
            Some(NumericV::Int(div_trunc(x, y)))
        },
        (NumericV::Int(x), NumericV::Float(g)) => Some(
            NumericV::Float(float_div(float_of_int(x), g)),
        ),
        (NumericV::Float(f), NumericV::Int(y)) => Some(
            NumericV::Float(float_div(f, float_of_int(y))),
        ),
        (NumericV::Float(f), NumericV::Float(g)) => Some(NumericV::Float(float_div(f, g))),
    }
}

/// The remainder of two numbers; `None` on integer remainder by zero or
/// overflow.  The integer remainder follows truncating division.
pub open spec fn spec_rem(a: NumericV, b: NumericV) -> Option<NumericV> {
    match (a, b) {
        (NumericV::Int(x), NumericV::Int(y)) => if y == 0 || (x == i128::MIN && y == -1) {
            None
        } else {
            Some(NumericV::Int(rem_trunc(x, y)))
        },
        (NumericV::Int(x), NumericV::Float(g)) => Some(
            NumericV::Float(float_rem(float_of_int(x), g)),
        ),
        (NumericV::Float(f), NumericV::Int(y)) => Some(
            NumericV::Float(float_rem(f, float_of_int(y))),
        ),
        (NumericV::Float(f), NumericV::Float(g)) => Some(NumericV::Float(float_rem(f, g))),
    }
}

/// The negation of a number, or `None` on integer overflow.
pub open spec fn spec_neg(a: NumericV) -> Option<NumericV> {
    match a {
        NumericV::Int(x) => if in_i128(-x) {
            Some(NumericV::Int(-x))
        } else {
            None
        },
        NumericV::Float(f) => Some(NumericV::Float(float_neg(f))),
    }
}

pub open spec fn digit_val(c: char) -> int {
    c as int - '0' as int
}

pub open spec fn all_digits(s: Seq<char>) -> bool {
    forall|i: int| 0 <= i < s.len() ==> is_digit(#[trigger] s[i])
}

/// The value of a sequence of decimal digits.
pub open spec fn dec_value(s: Seq<char>) -> int
    decreases s.len(),
{
    if s.len() == 0 {
        0
    } else {
        dec_value(s.drop_last()) * 10 + digit_val(s.last())
    }
}

/// The integer that a number-literal text denotes: defined exactly when
/// the text is a non-empty run of digits whose value fits in 128 bits.
pub open spec fn spec_parse_int(s: Seq<char>) -> Option<int> {
    if s.len() > 0 && all_digits(s) && dec_value(s) <= i128::MAX {
        Some(dec_value(s))
    } else {
        None
    }
}

proof fn lemma_dec_value_nonneg(s: Seq<char>)
    requires
        all_digits(s),
    ensures
        dec_value(s) >= 0,
    decreases s.len(),
{
    if s.len() > 0 {
        assert(all_digits(s.drop_last())) by {
            assert(forall|i: int|
                0 <= i < s.len() - 1 ==> is_digit(#[trigger] s.drop_last()[i]) == is_digit(s[i]));
        }
        lemma_dec_value_nonneg(s.drop_last());
        assert(is_digit(s.last()));
    }
}

proof fn lemma_dec_value_prefix(s: Seq<char>, j: int)
    requires
        all_digits(s),
        0 <= j <= s.len(),
    ensures
        dec_value(s) >= dec_value(s.subrange(0, j)),
    decreases s.len() - j,
{
    if j == s.len() {
        assert(s.subrange(0, j) =~= s);
    } else {
        lemma_dec_value_prefix(s, j + 1);
        let p = s.subrange(0, j + 1);
        assert(p.drop_last() =~= s.subrange(0, j));
        assert(p.last() == s[j]);
        assert(all_digits(s.subrange(0, j))) by {
            assert(forall|i: int|
                0 <= i < j ==> is_digit(#[trigger] s.subrange(0, j)[i]) == is_digit(s[i]));
        }
        lemma_dec_value_nonneg(s.subrange(0, j));
        assert(is_digit(s[j]));
        assert(dec_value(p) >= dec_value(s.subrange(0, j)));
    }
}

/// Parse a run of decimal digits as a 128-bit signed integer; `None` on a
/// malformed text or on overflow.
pub(crate) fn parse_int_literal(text: &str) -> (r: Option<i128>)
    ensures
        match r {
            Some(n) => spec_parse_int(text@) == Some(n as int),
            None => spec_parse_int(text@) is None,
        },
{
    let cs = chars_of(text);
    if cs.len() == 0 {
        return None;
    }
    let mut acc: i128 = 0;
    let mut i: usize = 0;
    while i < cs.len()
        invariant
            0 < cs@.len(),
            cs@ == text@,
            0 <= i <= cs@.len(),
            all_digits(cs@.subrange(0, i as int)),
            acc == dec_value(cs@.subrange(0, i as int)),
            acc >= 0,
        decreases cs@.len() - i,
    {
        let c = cs[i];
        if !('0' <= c && c <= '9') {
            assert(!all_digits(cs@));
            return None;
        }
        let d: i128 = (c as u32 as i128) - ('0' as u32 as i128);
        assert(d == digit_val(c));
        let ghost pre = cs@.subrange(0, i as int);
        let ghost ext = cs@.subrange(0, i + 1);
        proof {
            assert(ext.drop_last() =~= pre);
            assert(ext.last() == cs@[i as int]);
            assert(all_digits(ext));
        }
        let step = match acc.checked_mul(10) {
            Some(m) => m.checked_add(d),
            None => None,
        };
        match step {
            Some(v) => {
                acc = v;
            },
            None => {
                proof {
                    assert(dec_value(ext) > i128::MAX);
                    if all_digits(cs@) {
                        lemma_dec_value_prefix(cs@, i + 1);
                        assert(dec_value(cs@) > i128::MAX);
                    }
                }
                return None;
            },
        }
        i += 1;
    }
    proof {
        assert(cs@.subrange(0, cs@.len() as int) =~= cs@);
    }
    Some(acc)
}

pub open spec fn digit_char(d: int) -> char {
    if d == 0 {
        '0'
    } else if d == 1 {
        '1'
    } else if d == 2 {
        '2'
    } else if d == 3 {
        '3'
    } else if d == 4 {
        '4'
    } else if d == 5 {
        '5'
    } else if d == 6 {
        '6'
    } else if d == 7 {
        '7'
    } else if d == 8 {
        '8'
    } else {
        '9'
    }
}

/// The decimal digits of the magnitude of a non-positive number (the
/// argument is carried non-positive so that the smallest 128-bit integer
/// needs no negation).
pub open spec fn dec_digits_mag(m: int) -> Seq<char>
    decreases -m,
        when m <= 0
{
    if m >= -9 {
        seq![digit_char(-m)]
    } else {
        dec_digits_mag(div_trunc(m, 10)).push(digit_char(-rem_trunc(m, 10)))
    }
}

/// The decimal rendering of an integer, with a leading minus sign when
/// it is negative.
pub open spec fn int_text(n: int) -> Seq<char> {
    if n >= 0 {
        dec_digits_mag(-n)
    } else {
        seq!['-'] + dec_digits_mag(n)
    }
}

fn digit_char_exec(d: i128) -> (r: char)
    requires
        0 <= d <= 9,
    ensures
        r == digit_char(d as int),
{
    if d == 0 {
        '0'
    } else if d == 1 {
        '1'
    } else if d == 2 {
        '2'
    } else if d == 3 {
        '3'
    } else if d == 4 {
        '4'
    } else if d == 5 {
        '5'
    } else if d == 6 {
        '6'
    } else if d == 7 {
        '7'
    } else if d == 8 {
        '8'
    } else {
        '9'
    }
}

/// Append the decimal digits of the magnitude of a non-positive number.
pub(crate) fn push_digits_mag(m: i128, out: &mut String)
    requires
        m <= 0,
    ensures
        final(out)@ == old(out)@ + dec_digits_mag(m as int),
    decreases -(m as int),
{
    if m >= -9 {
        push_char(out, digit_char_exec(-m));
        proof {
            assert(old(out)@.push(digit_char(-(m as int))) =~= old(out)@ + dec_digits_mag(
                m as int,
            ));
        }
    } else {
        let q = match m.checked_div(10) {
            Some(q) => q,
            None => {
                proof {
                    assert(false);
                }
                0
            },
        };
        let r = match m.checked_rem(10) {
            Some(r) => r,
            None => {
                proof {
                    assert(false);
                }
                0
            },
        };
        proof {
            assert(q == div_trunc(m as int, 10));
            assert(r == rem_trunc(m as int, 10));
            assert(-9 <= r <= 0);
        }
        push_digits_mag(q, out);
        push_char(out, digit_char_exec(0 - r));
        proof {
            assert((old(out)@ + dec_digits_mag(q as int)).push(digit_char(-(r as int)))
                =~= old(out)@ + dec_digits_mag(q as int).push(digit_char(-(r as int))));
        }
    }
}

/// Append the decimal rendering of an integer.
pub(crate) fn push_int_text(n: i128, out: &mut String)
    ensures
        final(out)@ == old(out)@ + int_text(n as int),
{
    if n >= 0 {
        push_digits_mag(0 - n, out);
    } else {
        push_char(out, '-');
        push_digits_mag(n, out);
        proof {
            assert(old(out)@.push('-') + dec_digits_mag(n as int) =~= old(out)@ + (seq!['-']
                + dec_digits_mag(n as int)));
        }
    }
}

pub open spec fn opt_view(r: Option<Numeric>) -> Option<NumericV> {
    match r {
        Some(n) => Some(n@),
        None => None,
    }
}

impl Numeric {
    /// Promote an integer operand to a double.
    fn to_float_bits(self) -> (r: u64)
        ensures
            r == match self@ {
                NumericV::Int(x) => float_of_int(x),
                NumericV::Float(f) => f,
            },
    {
        match self {
            Numeric::Int(i) => int_to_bits(i),
            Numeric::Float(b) => b,
        }
    }

    pub fn add(self, rhs: Numeric) -> (r: Option<Numeric>)
        ensures
            opt_view(r) == spec_add(self@, rhs@),
    {
        match (self, rhs) {
            (Numeric::Int(x), Numeric::Int(y)) => match x.checked_add(y) {
                Some(z) => Some(Numeric::Int(z)),
                None => None,
            },
            (a, b) => Some(Numeric::Float(add_bits(a.to_float_bits(), b.to_float_bits()))),
        }
    }

    pub fn sub(self, rhs: Numeric) -> (r: Option<Numeric>)
        ensures
            opt_view(r) == spec_sub(self@, rhs@),
    {
        match (self, rhs) {
            (Numeric::Int(x), Numeric::Int(y)) => match x.checked_sub(y) {
                Some(z) => Some(Numeric::Int(z)),
                None => None,
            },
            (a, b) => Some(Numeric::Float(sub_bits(a.to_float_bits(), b.to_float_bits()))),
        }
    }

    pub fn mul(self, rhs: Numeric) -> (r: Option<Numeric>)
        ensures
            opt_view(r) == spec_mul(self@, rhs@),
    {
        match (self, rhs) {
            (Numeric::Int(x), Numeric::Int(y)) => match x.checked_mul(y) {
                Some(z) => Some(Numeric::Int(z)),
                None => None,
            },
            (a, b) => Some(Numeric::Float(mul_bits(a.to_float_bits(), b.to_float_bits()))),
        }
    }

    pub fn div(self, rhs: Numeric) -> (r: Option<Numeric>)
        ensures
            opt_view(r) == spec_div(self@, rhs@),
    {
        match (self, rhs) {
            (Numeric::Int(x), Numeric::Int(y)) => match x.checked_div(y) {
                Some(z) => Some(Numeric::Int(z)),
                None => None,
            },
            (a, b) => Some(Numeric::Float(div_bits(a.to_float_bits(), b.to_float_bits()))),
        }
    }

    pub fn rem(self, rhs: Numeric) -> (r: Option<Numeric>)
        ensures
            opt_view(r) == spec_rem(self@, rhs@),
    {
        match (self, rhs) {
            (Numeric::Int(x), Numeric::Int(y)) => match x.checked_rem(y) {
                Some(z) => Some(Numeric::Int(z)),
                None => None,
            },
            (a, b) => Some(Numeric::Float(rem_bits(a.to_float_bits(), b.to_float_bits()))),
        }
    }

    pub fn neg(self) -> (r: Option<Numeric>)
        ensures
            opt_view(r) == spec_neg(self@),
    {
        match self {
            Numeric::Int(x) => match 0i128.checked_sub(x) {
                Some(z) => Some(Numeric::Int(z)),
                None => None,
            },
            Numeric::Float(b) => Some(Numeric::Float(neg_bits(b))),
        }
    }
}

} // verus!
