//! An `f64` is carried here as its IEEE 754 bit pattern (what `f64::to_bits` gives), since the
//! verified code holds no floating-point value. These functions compare such patterns as the
//! floating-point operators compare the numbers.
use vstd::prelude::*;

verus! {

pub open spec fn sign_bit(b: u64) -> bool {
    b >= 0x8000_0000_0000_0000
}

pub open spec fn exponent(b: u64) -> int {
    (b as int / 0x10_0000_0000_0000) % 2048
}

pub open spec fn fraction(b: u64) -> int {
    b as int % 0x10_0000_0000_0000
}

/// `f64::is_nan`.
pub open spec fn is_nan(b: u64) -> bool {
    exponent(b) == 2047 && fraction(b) != 0
}

/// `f64::is_finite`.
pub open spec fn is_finite(b: u64) -> bool {
    exponent(b) != 2047
}

/// The place of a non-NaN value in the numeric order: both zeros at 0, positive values by
/// their pattern, negative values below 0 by their magnitude.
pub open spec fn order_key(b: u64) -> int {
    if sign_bit(b) {
        -(b - 0x8000_0000_0000_0000)
    } else {
        b as int
    }
}

/// `a < b` on the numbers; false when either is NaN.
pub open spec fn less(a: u64, b: u64) -> bool {
    !is_nan(a) && !is_nan(b) && order_key(a) < order_key(b)
}

/// `a <= b` on the numbers; false when either is NaN.
pub open spec fn less_eq(a: u64, b: u64) -> bool {
    !is_nan(a) && !is_nan(b) && order_key(a) <= order_key(b)
}

/// The pattern of `0.0`.
pub open spec fn zero() -> u64 {
    0
}

pub fn nan(b: u64) -> (r: bool)
    ensures
        r == is_nan(b),
{
    (b / 0x10_0000_0000_0000) % 2048 == 2047 && b % 0x10_0000_0000_0000 != 0
}

pub fn finite(b: u64) -> (r: bool)
    ensures
        r == is_finite(b),
{
    (b / 0x10_0000_0000_0000) % 2048 != 2047
}

fn key(b: u64) -> (r: i64)
    ensures
        r == order_key(b),
{
    if b >= 0x8000_0000_0000_0000 {
        -((b - 0x8000_0000_0000_0000) as i64)
    } else {
        b as i64
    }
}

/// `a < b` for the numbers with these patterns.
pub fn lt(a: u64, b: u64) -> (r: bool)
    ensures
        r == less(a, b),
{
    !nan(a) && !nan(b) && key(a) < key(b)
}

/// `a <= b` for the numbers with these patterns.
pub fn le(a: u64, b: u64) -> (r: bool)
    ensures
        r == less_eq(a, b),
{
    !nan(a) && !nan(b) && key(a) <= key(b)
}

/// `value.max(0.0)`: NaN and values below zero become `0.0`; `-0.0`, which compares equal to
/// `0.0`, becomes `0.0` too.
pub fn at_least_zero(value: u64) -> (r: u64)
    ensures
        r == (if is_nan(value) || sign_bit(value) {
            zero()
        } else {
            value
        }),
{
    if nan(value) || value >= 0x8000_0000_0000_0000 {
        0
    } else {
        value
    }
}

/// The patterns of NaN are those whose magnitude (all bits but the sign) lies above that of
/// infinity, `0x7FF0_0000_0000_0000`.
pub proof fn nan_patterns(b: u64)
    ensures
        is_nan(b) <==> b % 0x8000_0000_0000_0000 > 0x7FF0_0000_0000_0000,
        is_finite(b) <==> b % 0x8000_0000_0000_0000 < 0x7FF0_0000_0000_0000,
{
    let m = b as int % 0x8000_0000_0000_0000;
    assert(b as int == (b as int / 0x8000_0000_0000_0000) * 0x8000_0000_0000_0000 + m);
    assert(exponent(b) == m / 0x10_0000_0000_0000) by {
        assert(b as int / 0x10_0000_0000_0000 == (b as int / 0x8000_0000_0000_0000) * 2048 + m
            / 0x10_0000_0000_0000);
    }
    assert(fraction(b) == m % 0x10_0000_0000_0000);
}

/// `x <= 0.0` holds exactly of the two zeros and of the negative numbers, `-inf` included:
/// the pattern `0`, and the patterns from `0x8000_0000_0000_0000` (`-0.0`) to
/// `0xFFF0_0000_0000_0000` (`-inf`).
pub proof fn at_most_zero_patterns(b: u64)
    ensures
        less_eq(b, zero()) <==> (b == 0 || 0x8000_0000_0000_0000 <= b <= 0xFFF0_0000_0000_0000),
{
    nan_patterns(b);
}

/// `x < 0.0` holds exactly of the negative numbers, `-inf` included: the patterns from
/// `0x8000_0000_0000_0001` to `0xFFF0_0000_0000_0000`.
pub proof fn below_zero_patterns(b: u64)
    ensures
        less(b, zero()) <==> 0x8000_0000_0000_0001 <= b <= 0xFFF0_0000_0000_0000,
{
    nan_patterns(b);
}

/// A finite number above `0.0` has a pattern strictly between `0` and that of `+inf`,
/// `0x7FF0_0000_0000_0000`.
pub proof fn positive_finite_patterns(b: u64)
    ensures
        (is_finite(b) && !less_eq(b, zero())) <==> 0 < b < 0x7FF0_0000_0000_0000,
{
    nan_patterns(b);
}

} // verus!
