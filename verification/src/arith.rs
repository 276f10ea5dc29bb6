//! Checked integer conversions and arithmetic.
//!
//! The functions here hand their arguments to `clippy_utilities`, whose
//! operations panic where the result does not fit. Each contract leaves out the
//! arguments on which the outside function panics, and states the result on the
//! rest. Verus takes these contracts on trust.

use vstd::prelude::*;
use clippy_utilities::Cast;
use clippy_utilities::OverflowArithmetic;

verus! {

/// `clippy_utilities::Cast::cast` from `i64` to `u64`: the same number. The
/// outside function converts with `TryFrom` and panics on a negative number.
#[verifier::external_body]
pub(crate) fn cast_i64_to_u64(x: i64) -> (r: u64)
    requires
        x >= 0,
    ensures
        r == x,
{
    x.cast()
}

/// `clippy_utilities::Cast::cast` from `u32` to `u64`: the same number. The
/// conversion cannot fail.
#[verifier::external_body]
pub(crate) fn cast_u32_to_u64(x: u32) -> (r: u64)
    ensures
        r == x,
{
    x.cast()
}

/// `clippy_utilities::Cast::cast` from `usize` to `i64`: the same number. The
/// outside function converts with `TryFrom` and panics on a number above
/// `i64::MAX`.
#[verifier::external_body]
pub(crate) fn cast_usize_to_i64(x: usize) -> (r: i64)
    requires
        x <= i64::MAX,
    ensures
        r == x,
{
    x.cast()
}

/// `clippy_utilities::Cast::cast` from `i64` to `usize`: the same number. The
/// outside function converts with `TryFrom` and panics on a number that is
/// negative or above `usize::MAX`.
#[verifier::external_body]
pub(crate) fn cast_i64_to_usize(x: i64) -> (r: usize)
    requires
        0 <= x <= usize::MAX,
    ensures
        r == x,
{
    x.cast()
}

/// `clippy_utilities::OverflowArithmetic::overflow_add` on `u64`: the sum. The
/// outside function panics where the sum does not fit.
#[verifier::external_body]
pub(crate) fn overflow_add_u64(a: u64, b: u64) -> (r: u64)
    requires
        a + b <= u64::MAX,
    ensures
        r == a + b,
{
    a.overflow_add(b)
}

/// `clippy_utilities::OverflowArithmetic::overflow_sub` on `u64`: the
/// difference. The outside function panics where it would be negative.
#[verifier::external_body]
pub(crate) fn overflow_sub_u64(a: u64, b: u64) -> (r: u64)
    requires
        a >= b,
    ensures
        r == a - b,
{
    a.overflow_sub(b)
}

/// `clippy_utilities::OverflowArithmetic::overflow_add` on `i64`: the sum. The
/// outside function panics where the sum does not fit.
#[verifier::external_body]
pub(crate) fn overflow_add_i64(a: i64, b: i64) -> (r: i64)
    requires
        i64::MIN <= a + b <= i64::MAX,
    ensures
        r == a + b,
{
    a.overflow_add(b)
}

/// `clippy_utilities::OverflowArithmetic::overflow_sub` on `i64`: the
/// difference. The outside function panics where the difference does not fit.
#[verifier::external_body]
pub(crate) fn overflow_sub_i64(a: i64, b: i64) -> (r: i64)
    requires
        i64::MIN <= a - b <= i64::MAX,
    ensures
        r == a - b,
{
    a.overflow_sub(b)
}

/// `clippy_utilities::OverflowArithmetic::overflow_div` on `i64`, for a
/// dividend that is not negative and a positive divisor: the quotient, rounded
/// down. The outside function panics on a zero divisor and on `i64::MIN / -1`.
#[verifier::external_body]
pub(crate) fn overflow_div_i64(a: i64, b: i64) -> (r: i64)
    requires
        a >= 0,
        b > 0,
    ensures
        r == a / b,
{
    a.overflow_div(b)
}

} // verus!
