//! Constants of imported interfaces: the literal text of the value, which is
//! then cast to the constant's declared type (`const NAME: T = value as T;`),
//! placed in an `impl` of the class when the constant belongs to one.
//! Floating-point values are classified by their bits; a finite one is
//! rendered by the token library, while infinities and NaN are written as
//! divisions, which need no suffix and let the declared type be inferred.

use vstd::prelude::*;
use crate::model::{Const, ConstValue};
use crate::text::{decimal, decimal_string, signed_decimal};

verus! {

/// The biased exponent field of an IEEE 754 double.
pub open spec fn float_exponent(bits: u64) -> nat {
    ((bits / 4503599627370496) % 2048) as nat
}

/// The fraction field of an IEEE 754 double.
pub open spec fn float_fraction(bits: u64) -> nat {
    (bits % 4503599627370496) as nat
}

/// The sign bit of an IEEE 754 double is set.
pub open spec fn float_sign_negative(bits: u64) -> bool {
    bits >= 9223372036854775808
}

/// The double is an infinity.
pub open spec fn float_is_infinite(bits: u64) -> bool {
    float_exponent(bits) == 2047 && float_fraction(bits) == 0
}

/// The double is a NaN.
pub open spec fn float_is_nan(bits: u64) -> bool {
    float_exponent(bits) == 2047 && float_fraction(bits) != 0
}

/// The literal text of a constant's value; none for a finite float, whose
/// text the token library writes.
pub open spec fn const_value_text(v: ConstValue) -> Option<Seq<char>> {
    match v {
        ConstValue::Boolean(b) => Some(if b { "true"@ } else { "false"@ }),
        ConstValue::Float { bits } => if float_is_infinite(bits) && !float_sign_negative(bits) {
            Some("1.0 / 0.0"@)
        } else if float_is_infinite(bits) && float_sign_negative(bits) {
            Some("-1.0 / 0.0"@)
        } else if float_is_nan(bits) {
            Some("0.0 / 0.0"@)
        } else {
            None
        },
        ConstValue::Signed(i) => Some(signed_decimal(i as int) + "i64"@),
        ConstValue::Unsigned(u) => Some(decimal(u as nat) + "u64"@),
        ConstValue::Null => None,
    }
}

/// The value of a constant as generated.
#[derive(Debug)]
pub enum ConstValuePlan {
    /// Literal text.
    Text(String),
    /// A finite double, written by the token library with an `f64` suffix.
    FiniteFloat { bits: u64 },
}

/// What the declaration of a constant is made of.
#[derive(Debug)]
pub struct ConstPlan {
    pub value: ConstValuePlan,
    /// The declaration goes inside `impl Class { .. }`.
    pub in_impl: bool,
}

/// The plan of a constant's declaration: placed in the class's `impl` when
/// it has one; its value as literal text, or a finite float left to the
/// token library.
pub open spec fn const_plan_ok(c: Const, r: ConstPlan) -> bool {
    &&& r.in_impl == c.class is Some
    &&& (const_value_text(c.value) matches Some(t) ==> (r.value matches ConstValuePlan::Text(s)
        && s@ == t))
    &&& (const_value_text(c.value) is None ==> (c.value matches ConstValue::Float { bits } && r.value
        == (ConstValuePlan::FiniteFloat { bits })))
}

fn signed_text(i: i64) -> (r: String)
    ensures
        r@ == signed_decimal(i as int),
{
    if i < 0 {
        let magnitude: u64 = ((-(i + 1)) as u64) + 1;
        let digits = decimal_string(magnitude);
        let mut r = String::from_str("-");
        r.append(digits.as_str());
        proof {
            reveal_strlit("-");
        }
        r
    } else {
        decimal_string(i as u64)
    }
}

/// Plans the declaration of a constant. A constant whose value is `null` is
/// not supported.
pub fn plan_const(c: &Const) -> (r: ConstPlan)
    requires
        !(c.value is Null),
    ensures
        const_plan_ok(*c, r),
{
    let value = match &c.value {
        ConstValue::Boolean(b) => {
            if *b {
                ConstValuePlan::Text(String::from_str("true"))
            } else {
                ConstValuePlan::Text(String::from_str("false"))
            }
        },
        ConstValue::Float { bits } => {
            let bits = *bits;
            let exponent = (bits / 4503599627370496) % 2048;
            let fraction = bits % 4503599627370496;
            let negative = bits >= 9223372036854775808;
            if exponent == 2047 && fraction == 0 && !negative {
                ConstValuePlan::Text(String::from_str("1.0 / 0.0"))
            } else if exponent == 2047 && fraction == 0 && negative {
                ConstValuePlan::Text(String::from_str("-1.0 / 0.0"))
            } else if exponent == 2047 && fraction != 0 {
                ConstValuePlan::Text(String::from_str("0.0 / 0.0"))
            } else {
                ConstValuePlan::FiniteFloat { bits }
            }
        },
        ConstValue::Signed(i) => {
            let mut t = signed_text(*i);
            t.append("i64");
            ConstValuePlan::Text(t)
        },
        ConstValue::Unsigned(u) => {
            let mut t = decimal_string(*u);
            t.append("u64");
            ConstValuePlan::Text(t)
        },
        ConstValue::Null => ConstValuePlan::Text(String::new()),
    };
    ConstPlan { value, in_impl: c.class.is_some() }
}

} // verus!
