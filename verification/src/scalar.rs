//! Real numbers as 64-bit keys.
//!
//! The caller computes with IEEE 754 binary64 numbers and hands each one
//! over as its bit pattern: one sign bit, eleven bits of exponent, fifty-two
//! of fraction. Every test that the renderer makes on such a number is a
//! test on where its key lies among the integers:
//!
//! - the keys of the numbers from zero up to infinity run from `0` to
//!   `INFINITY`, in the numbers' own order;
//! - the keys from `SIGN` to `NEGATIVE_INFINITY` are those of negative
//!   zero and the negative numbers, in reverse order;
//! - every other key is not a number, and no comparison holds of it.
use vstd::prelude::*;

verus! {

/// Key of 2 to the power -52, the smallest distance at which a hit counts
/// and the bound below which a ray counts as parallel to a plane.
pub const EPSILON: u64 = 0x3CB0_0000_0000_0000;

/// Key of the number one.
pub const ONE: u64 = 0x3FF0_0000_0000_0000;

/// Key of positive infinity, above the key of every positive number.
pub const INFINITY: u64 = 0x7FF0_0000_0000_0000;

/// Key of negative zero: the sign bit alone.
pub const SIGN: u64 = 0x8000_0000_0000_0000;

/// Key of minus `EPSILON`.
pub const NEGATIVE_EPSILON: u64 = 0xBCB0_0000_0000_0000;

/// Key of negative infinity.
pub const NEGATIVE_INFINITY: u64 = 0xFFF0_0000_0000_0000;

/// The key is that of a number, finite or infinite.
pub open spec fn spec_is_number(x: u64) -> bool {
    x <= INFINITY || SIGN <= x <= NEGATIVE_INFINITY
}

/// The first number is below the second. The two zeros are equal, and
/// nothing is below or above what is not a number.
pub open spec fn spec_lt(a: u64, b: u64) -> bool {
    spec_is_number(a) && spec_is_number(b) && if a < SIGN {
        b < SIGN && a < b
    } else if b < SIGN {
        !(a == SIGN && b == 0)
    } else {
        b < a
    }
}

/// The number is below zero.
pub open spec fn spec_is_negative(x: u64) -> bool {
    SIGN < x <= NEGATIVE_INFINITY
}

/// The number's magnitude is below `EPSILON`.
pub open spec fn spec_is_negligible(x: u64) -> bool {
    x < EPSILON || SIGN <= x < NEGATIVE_EPSILON
}

/// The number is zero or more, and below one.
pub open spec fn spec_in_unit(x: u64) -> bool {
    x < ONE || x == SIGN
}

/// Whether `x` is the key of a number.
#[verifier::when_used_as_spec(spec_is_number)]
pub fn is_number(x: u64) -> (r: bool)
    ensures
        r == spec_is_number(x),
{
    x <= INFINITY || (SIGN <= x && x <= NEGATIVE_INFINITY)
}

/// Whether the number with key `a` is below the number with key `b`.
#[verifier::when_used_as_spec(spec_lt)]
pub fn lt(a: u64, b: u64) -> (r: bool)
    ensures
        r == spec_lt(a, b),
{
    if !is_number(a) || !is_number(b) {
        false
    } else if a < SIGN {
        b < SIGN && a < b
    } else if b < SIGN {
        !(a == SIGN && b == 0)
    } else {
        b < a
    }
}

/// Whether the number with key `x` is below zero. Neither zero is, and
/// nothing that is not a number.
#[verifier::when_used_as_spec(spec_is_negative)]
pub fn is_negative(x: u64) -> (r: bool)
    ensures
        r == spec_is_negative(x),
{
    SIGN < x && x <= NEGATIVE_INFINITY
}

/// Whether the magnitude of the number with key `x` is below `EPSILON`.
#[verifier::when_used_as_spec(spec_is_negligible)]
pub fn is_negligible(x: u64) -> (r: bool)
    ensures
        r == spec_is_negligible(x),
{
    x < EPSILON || (SIGN <= x && x < NEGATIVE_EPSILON)
}

/// Whether the number with key `x` lies in the half-open unit interval:
/// zero, of either sign, belongs to it, one does not.
#[verifier::when_used_as_spec(spec_in_unit)]
pub fn in_unit(x: u64) -> (r: bool)
    ensures
        r == spec_in_unit(x),
{
    x < ONE || x == SIGN
}

/// Being below is a strict order: nothing is below itself, and the
/// relation carries over a number in between.
pub proof fn lt_is_a_strict_order(a: u64, b: u64, c: u64)
    ensures
        !spec_lt(a, a),
        spec_lt(a, b) ==> !spec_lt(b, a),
        spec_lt(a, b) && spec_lt(b, c) ==> spec_lt(a, c),
{
}

/// Among the numbers from zero up to infinity, which are those that a
/// distance can be, the order of the keys is the order of the numbers.
pub proof fn keys_order_as_distances(a: u64, b: u64)
    requires
        a <= INFINITY,
        b <= INFINITY,
    ensures
        spec_lt(a, b) <==> a < b,
{
}

/// The three tests on one number are comparisons with zero, one and
/// `EPSILON`.
pub proof fn tests_are_comparisons(x: u64)
    ensures
        spec_is_negative(x) <==> spec_lt(x, 0),
        spec_in_unit(x) <==> !spec_lt(x, 0) && spec_lt(x, ONE),
        spec_is_negligible(x) <==> spec_lt(x, EPSILON) && spec_lt(NEGATIVE_EPSILON, x),
{
}

} // verus!
