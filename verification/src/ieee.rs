//! IEEE 754 binary64 values, held as their 64-bit patterns.
//!
//! Order, sign and NaN-ness of a pattern are plain integer facts and are
//! defined and proved here. Rounded arithmetic is taken from `rustc_apfloat`,
//! whose results are named, not described.
use rustc_apfloat::ieee::Double;
use rustc_apfloat::{Float, Round};
use vstd::prelude::*;

verus! {

/// The sign bit of a pattern.
pub const SIGN_BIT: u64 = 0x8000_0000_0000_0000;

/// The pattern of positive infinity; every larger magnitude is a NaN.
pub const INFINITY_BITS: u64 = 0x7FF0_0000_0000_0000;

/// The pattern of the largest finite value.
pub const LARGEST_BITS: u64 = 0x7FEF_FFFF_FFFF_FFFF;

/// The pattern of the smallest (most negative) finite value.
pub const SMALLEST_BITS: u64 = 0xFFEF_FFFF_FFFF_FFFF;

/// The pattern of `1.0`.
pub const ONE_BITS: u64 = 0x3FF0_0000_0000_0000;

/// The pattern without its sign bit: exponent and fraction read as one integer.
pub open spec fn magnitude(bits: u64) -> int {
    if bits >= SIGN_BIT {
        bits - SIGN_BIT
    } else {
        bits as int
    }
}

/// Whether the sign bit is set.
pub open spec fn sign_set(bits: u64) -> bool {
    bits >= SIGN_BIT
}

/// Whether the pattern is a NaN: all exponent bits set and a non-zero fraction.
pub open spec fn is_nan(bits: u64) -> bool {
    magnitude(bits) > INFINITY_BITS
}

/// Whether the pattern is neither a NaN nor an infinity.
pub open spec fn is_finite(bits: u64) -> bool {
    magnitude(bits) < INFINITY_BITS
}

/// The place of a pattern in the numeric order: its magnitude, negated where
/// the sign is set. For two patterns that are not NaN, the IEEE 754 order of
/// the values is the order of their ranks, and the values are equal exactly
/// when the ranks are (both zeros have rank 0).
pub open spec fn rank(bits: u64) -> int {
    if sign_set(bits) {
        -magnitude(bits)
    } else {
        magnitude(bits)
    }
}

/// IEEE 754 `<`: false whenever a NaN is involved.
pub open spec fn less(a: u64, b: u64) -> bool {
    !is_nan(a) && !is_nan(b) && rank(a) < rank(b)
}

/// A key that orders every pattern, NaNs included, and tells any two
/// different patterns apart. On patterns that are not NaN it refines the
/// numeric order: `-0.0` comes directly before `+0.0`. NaNs with the sign set
/// come before negative infinity, the others after positive infinity.
pub open spec fn total_key(bits: u64) -> int {
    if sign_set(bits) {
        -magnitude(bits) - 1
    } else {
        magnitude(bits)
    }
}

/// The sum of two values, rounded to nearest, ties to even.
pub uninterp spec fn sum(a: u64, b: u64) -> u64;

/// The product of two values, rounded to nearest, ties to even.
pub uninterp spec fn product(a: u64, b: u64) -> u64;

/// The value nearest to an unsigned integer, ties to even.
pub uninterp spec fn of_uint(n: u64) -> u64;

/// The least integer not below a value, held to the range of `u64`.
pub uninterp spec fn ceiling(bits: u64) -> u64;

/// Calls `rustc_apfloat`'s `Double::from_bits`, `+` (which is `add_r` with
/// `Round::NearestTiesToEven`) and `to_bits`. The result is the pattern of the
/// rounded sum of the two values; it depends on the two patterns alone.
#[verifier::external_body]
pub(crate) fn rounded_sum(a: u64, b: u64) -> (r: u64)
    ensures
        r == sum(a, b),
{
    let total = Double::from_bits(u128::from(a)) + Double::from_bits(u128::from(b));
    total.value.to_bits() as u64
}

/// Calls `rustc_apfloat`'s `Double::from_bits`, `*` (which is `mul_r` with
/// `Round::NearestTiesToEven`) and `to_bits`. The result is the pattern of the
/// rounded product of the two values; it depends on the two patterns alone.
#[verifier::external_body]
pub(crate) fn rounded_product(a: u64, b: u64) -> (r: u64)
    ensures
        r == product(a, b),
{
    let scaled = Double::from_bits(u128::from(a)) * Double::from_bits(u128::from(b));
    scaled.value.to_bits() as u64
}

/// Calls `rustc_apfloat`'s `Double::from_u128` and `to_bits`. The result is
/// the pattern of the value nearest to `n`; it depends on `n` alone.
#[verifier::external_body]
pub(crate) fn nearest(n: u64) -> (r: u64)
    ensures
        r == of_uint(n),
{
    Double::from_u128(u128::from(n)).value.to_bits() as u64
}

/// Calls `rustc_apfloat`'s `Double::from_bits` and `to_u128_r` with a width of
/// 64 bits and `Round::TowardPositive`. The result is the value rounded up to
/// an integer, where that integer fits in 64 bits; the crate returns 0 for a
/// NaN or a negative value and `u64::MAX` for one that is too large. It
/// depends on the pattern alone.
#[verifier::external_body]
pub(crate) fn round_up(bits: u64) -> (r: u64)
    ensures
        r == ceiling(bits),
{
    let mut exact = false;
    let rounded = Double::from_bits(u128::from(bits)).to_u128_r(64, Round::TowardPositive, &mut exact);
    rounded.value as u64
}

/// Whether a pattern is a NaN.
pub fn nan(bits: u64) -> (r: bool)
    ensures
        r == is_nan(bits),
{
    let m: u64 = if bits >= SIGN_BIT { bits - SIGN_BIT } else { bits };
    m > INFINITY_BITS
}

/// Whether the first value is below the second in the IEEE 754 order.
pub fn lt(a: u64, b: u64) -> (r: bool)
    ensures
        r == less(a, b),
{
    if nan(a) || nan(b) {
        return false;
    }
    let a_neg = a >= SIGN_BIT;
    let b_neg = b >= SIGN_BIT;
    let a_mag: u64 = if a_neg { a - SIGN_BIT } else { a };
    let b_mag: u64 = if b_neg { b - SIGN_BIT } else { b };
    if a_neg && b_neg {
        a_mag > b_mag
    } else if a_neg {
        a_mag != 0 || b_mag != 0
    } else if b_neg {
        false
    } else {
        a_mag < b_mag
    }
}

/// Whether the first pattern comes before the second under `total_key`.
pub fn key_lt(a: u64, b: u64) -> (r: bool)
    ensures
        r == (total_key(a) < total_key(b)),
{
    let a_neg = a >= SIGN_BIT;
    let b_neg = b >= SIGN_BIT;
    if a_neg && b_neg {
        a > b
    } else if a_neg {
        true
    } else if b_neg {
        false
    } else {
        a < b
    }
}

/// Two patterns with the same key are the same pattern.
pub proof fn total_key_is_injective(a: u64, b: u64)
    requires
        total_key(a) == total_key(b),
    ensures
        a == b,
{
}

} // verus!
