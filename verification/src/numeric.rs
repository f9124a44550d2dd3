//! Bounded integer arithmetic shared by the geometry and memory code.
use vstd::prelude::*;

verus! {

/// The smaller of two numbers.
pub open spec fn smaller(a: int, b: int) -> int {
    if a <= b {
        a
    } else {
        b
    }
}

/// The larger of two numbers.
pub open spec fn larger(a: int, b: int) -> int {
    if a >= b {
        a
    } else {
        b
    }
}

/// A number capped at the largest `u64`.
pub open spec fn saturated(value: int) -> int {
    smaller(value, u64::MAX as int)
}

/// The quotient rounded up.
pub open spec fn ceiling(value: int, divisor: int) -> int {
    (value + divisor - 1) / divisor
}

/// The smaller of two `u32` values.
pub fn min_u32(a: u32, b: u32) -> (r: u32)
    ensures
        r == smaller(a as int, b as int),
{
    if a <= b {
        a
    } else {
        b
    }
}

/// The larger of two `u32` values.
pub fn max_u32(a: u32, b: u32) -> (r: u32)
    ensures
        r == larger(a as int, b as int),
{
    if a >= b {
        a
    } else {
        b
    }
}

/// The smaller of two `u64` values.
pub fn min_u64(a: u64, b: u64) -> (r: u64)
    ensures
        r == smaller(a as int, b as int),
{
    if a <= b {
        a
    } else {
        b
    }
}

/// The larger of two `u64` values.
pub fn max_u64(a: u64, b: u64) -> (r: u64)
    ensures
        r == larger(a as int, b as int),
{
    if a >= b {
        a
    } else {
        b
    }
}

/// The smaller of two `usize` values.
pub fn min_usize(a: usize, b: usize) -> (r: usize)
    ensures
        r == smaller(a as int, b as int),
{
    if a <= b {
        a
    } else {
        b
    }
}

/// The larger of two `usize` values.
pub fn max_usize(a: usize, b: usize) -> (r: usize)
    ensures
        r == larger(a as int, b as int),
{
    if a >= b {
        a
    } else {
        b
    }
}

/// The product, capped at the largest `u64`.
pub fn saturating_mul_u64(a: u64, b: u64) -> (r: u64)
    ensures
        r == saturated(a * b),
{
    match a.checked_mul(b) {
        Some(product) => product,
        None => u64::MAX,
    }
}

/// The product, capped at the largest `u32`.
pub fn saturating_mul_u32(a: u32, b: u32) -> (r: u32)
    ensures
        r == smaller(a * b, u32::MAX as int),
{
    match a.checked_mul(b) {
        Some(product) => product,
        None => u32::MAX,
    }
}

/// The product, capped at the largest `usize`.
pub fn saturating_mul_usize(a: usize, b: usize) -> (r: usize)
    ensures
        r == smaller(a * b, usize::MAX as int),
{
    match a.checked_mul(b) {
        Some(product) => product,
        None => usize::MAX,
    }
}

/// The sum, capped at the largest `u64`.
pub fn saturating_add_u64(a: u64, b: u64) -> (r: u64)
    ensures
        r == saturated(a + b),
{
    a.saturating_add(b)
}

/// The quotient of two `u64` values, rounded up.
pub fn div_ceil_u64(value: u64, divisor: u64) -> (r: u64)
    requires
        divisor > 0,
    ensures
        r == ceiling(value as int, divisor as int),
{
    let quotient: u64 = value / divisor;
    let remainder: u64 = value % divisor;
    proof {
        lemma_ceiling(value as int, divisor as int);
        vstd::arithmetic::div_mod::lemma_fundamental_div_mod(value as int, divisor as int);
        assert(remainder != 0 ==> quotient < u64::MAX) by (nonlinear_arith)
            requires
                value == divisor * quotient + remainder,
                divisor > 0,
                value <= u64::MAX,
        ;
    }
    if remainder == 0 {
        quotient
    } else {
        quotient + 1
    }
}

/// The quotient of two `u32` values, rounded up.
pub fn div_ceil_u32(value: u32, divisor: u32) -> (r: u32)
    requires
        divisor > 0,
    ensures
        r == ceiling(value as int, divisor as int),
{
    let quotient: u32 = value / divisor;
    let remainder: u32 = value % divisor;
    proof {
        lemma_ceiling(value as int, divisor as int);
        vstd::arithmetic::div_mod::lemma_fundamental_div_mod(value as int, divisor as int);
        assert(remainder != 0 ==> quotient < u32::MAX) by (nonlinear_arith)
            requires
                value == divisor * quotient + remainder,
                divisor > 0,
                value <= u32::MAX,
        ;
    }
    if remainder == 0 {
        quotient
    } else {
        quotient + 1
    }
}

/// Rounding up adds one to the quotient exactly where the division leaves a
/// remainder.
pub proof fn lemma_ceiling(value: int, divisor: int)
    requires
        divisor > 0,
        value >= 0,
    ensures
        ceiling(value, divisor) == value / divisor + (if value % divisor == 0 {
            0int
        } else {
            1int
        }),
        ceiling(value, divisor) * divisor >= value,
        ceiling(value, divisor) * divisor < value + divisor,
{
    vstd::arithmetic::div_mod::lemma_fundamental_div_mod(value, divisor);
    let quotient = value / divisor;
    let remainder = value % divisor;
    if remainder == 0 {
        assert((value + divisor - 1) / divisor == quotient) by (nonlinear_arith)
            requires
                value == divisor * quotient,
                divisor > 0,
        ;
        assert(quotient * divisor == value) by (nonlinear_arith)
            requires
                value == divisor * quotient,
        ;
    } else {
        assert((value + divisor - 1) / divisor == quotient + 1) by (nonlinear_arith)
            requires
                value == divisor * quotient + remainder,
                0 < remainder < divisor,
        ;
        assert((quotient + 1) * divisor == divisor * quotient + divisor) by (nonlinear_arith);
    }
}

/// The smaller and the larger of two numbers are these numbers, in order, and a
/// capped number is itself where it fits.
pub proof fn the_smaller_and_the_larger_are_both(a: int, b: int)
    ensures
        smaller(a, b) <= a && smaller(a, b) <= b,
        larger(a, b) >= a && larger(a, b) >= b,
        smaller(a, b) == a || smaller(a, b) == b,
        smaller(a, b) + larger(a, b) == a + b,
        a <= u64::MAX ==> saturated(a) == a,
        a > u64::MAX ==> saturated(a) == 0xffff_ffff_ffff_ffff,
{
}

} // verus!
