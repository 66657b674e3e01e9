//! Numbers in this language are IEEE-754 binary64 values. The library stores
//! each number as its 64-bit pattern (`u64`) and delegates every floating-point
//! operation to the `rustc_apfloat` software implementation of IEEE-754, which
//! works on bit patterns directly. The results of those operations are named
//! by uninterpreted spec functions; predicates that are pure bit tests
//! (zero test, NaN test, ordering against a fixed positive constant) are
//! defined and verified here without trust.
use vstd::prelude::*;

use rustc_apfloat::Float;
use rustc_apfloat::ieee::Double;

verus! {

/// Mask of the non-sign bits of a binary64 pattern.
pub const F64_ABS_MASK: u64 = 0x7FFF_FFFF_FFFF_FFFF;

/// Mask of the exponent bits of a binary64 pattern.
pub const F64_EXP_MASK: u64 = 0x7FF0_0000_0000_0000;

/// Mask of the significand bits of a binary64 pattern.
pub const F64_MANTISSA_MASK: u64 = 0x000F_FFFF_FFFF_FFFF;

/// Mask of the sign bit of a binary64 pattern.
pub const F64_SIGN_MASK: u64 = 0x8000_0000_0000_0000;

/// The bit pattern of 1.0.
pub const F64_ONE_BITS: u64 = 0x3FF0_0000_0000_0000;

/// The bit pattern of 255.0.
pub const F64_255_BITS: u64 = 0x406F_E000_0000_0000;

/// A binary64 value compares equal to 0.0 exactly when all bits besides the
/// sign are clear (both zeroes compare equal to 0.0).
pub open spec fn is_zero_bits(bits: u64) -> bool {
    bits & F64_ABS_MASK == 0
}

/// A binary64 value compares equal to 1.0 exactly when it is the unique
/// pattern of 1.0.
pub open spec fn is_one_bits(bits: u64) -> bool {
    bits == F64_ONE_BITS
}

/// A binary64 pattern is a NaN when the exponent is all ones and the
/// significand is not zero.
pub open spec fn is_nan_bits(bits: u64) -> bool {
    bits & F64_EXP_MASK == F64_EXP_MASK && bits & F64_MANTISSA_MASK != 0
}

/// The sign bit of a binary64 pattern.
pub open spec fn is_negative_bits(bits: u64) -> bool {
    bits & F64_SIGN_MASK != 0
}

/// IEEE `>= 255.0`. A NaN compares false; a negative value is below 255.0;
/// the ordering of nonnegative binary64 values (infinity included) agrees
/// with the unsigned order of their bit patterns.
pub open spec fn ge_255_bits(bits: u64) -> bool {
    !is_nan_bits(bits) && !is_negative_bits(bits) && bits >= F64_255_BITS
}

pub fn check_zero_bits(bits: u64) -> (r: bool)
    ensures
        r == is_zero_bits(bits),
{
    bits & F64_ABS_MASK == 0
}

pub fn check_one_bits(bits: u64) -> (r: bool)
    ensures
        r == is_one_bits(bits),
{
    bits == F64_ONE_BITS
}

pub fn check_ge_255_bits(bits: u64) -> (r: bool)
    ensures
        r == ge_255_bits(bits),
{
    let nan = (bits & F64_EXP_MASK) == F64_EXP_MASK && (bits & F64_MANTISSA_MASK) != 0;
    let negative = (bits & F64_SIGN_MASK) != 0;
    !nan && !negative && bits >= F64_255_BITS
}

/// The bit pattern of the IEEE sum (round to nearest, ties to even) of the
/// two binary64 values with the given patterns.
pub uninterp spec fn add_bits_of(lhs: u64, rhs: u64) -> u64;

/// The bit pattern of the IEEE difference of the two binary64 values.
pub uninterp spec fn sub_bits_of(lhs: u64, rhs: u64) -> u64;

/// The bit pattern of the IEEE product of the two binary64 values.
pub uninterp spec fn mul_bits_of(lhs: u64, rhs: u64) -> u64;

/// The bit pattern of the IEEE quotient of the two binary64 values.
pub uninterp spec fn div_bits_of(lhs: u64, rhs: u64) -> u64;

/// The binary64 pattern nearest to the given unsigned integer.
pub uninterp spec fn from_u64_bits_of(value: u64) -> u64;

/// The value of the binary64 number with the given pattern, rounded toward
/// zero and saturated to the range of `u64` (zero for NaN and for negative
/// values, `u64::MAX` for values beyond the range).
pub uninterp spec fn trunc_u64_of(bits: u64) -> u64;

/// The binary64 pattern denoted by a decimal numeral, rounded to nearest,
/// or nothing when the text is not a decimal numeral.
pub uninterp spec fn decimal_bits_of(text: Seq<char>) -> Option<u64>;

/// The decimal rendering of the binary64 number with the given pattern.
pub uninterp spec fn decimal_text_of(bits: u64) -> Seq<char>;

/// Relies on `rustc_apfloat`'s `Double` addition: IEEE-754 binary64 addition,
/// round to nearest, ties to even, on bit patterns.
#[verifier::external_body]
pub(crate) fn f64_bits_add(lhs: u64, rhs: u64) -> (r: u64)
    ensures
        r == add_bits_of(lhs, rhs),
{
    (Double::from_bits(lhs as u128) + Double::from_bits(rhs as u128)).value.to_bits() as u64
}

/// Relies on `rustc_apfloat`'s `Double` subtraction.
#[verifier::external_body]
pub(crate) fn f64_bits_sub(lhs: u64, rhs: u64) -> (r: u64)
    ensures
        r == sub_bits_of(lhs, rhs),
{
    (Double::from_bits(lhs as u128) - Double::from_bits(rhs as u128)).value.to_bits() as u64
}

/// Relies on `rustc_apfloat`'s `Double` multiplication.
#[verifier::external_body]
pub(crate) fn f64_bits_mul(lhs: u64, rhs: u64) -> (r: u64)
    ensures
        r == mul_bits_of(lhs, rhs),
{
    (Double::from_bits(lhs as u128) * Double::from_bits(rhs as u128)).value.to_bits() as u64
}

/// Relies on `rustc_apfloat`'s `Double` division.
#[verifier::external_body]
pub(crate) fn f64_bits_div(lhs: u64, rhs: u64) -> (r: u64)
    ensures
        r == div_bits_of(lhs, rhs),
{
    (Double::from_bits(lhs as u128) / Double::from_bits(rhs as u128)).value.to_bits() as u64
}

/// Relies on `rustc_apfloat`'s `Double::from_u128`: integer to binary64,
/// round to nearest, ties to even.
#[verifier::external_body]
pub(crate) fn f64_bits_from_u64(value: u64) -> (r: u64)
    ensures
        r == from_u64_bits_of(value),
{
    Double::from_u128(value as u128).value.to_bits() as u64
}

/// Relies on `rustc_apfloat`'s `Double::to_u128`: conversion toward zero
/// that returns zero for NaN and saturates out-of-range values, matching
/// Rust's saturating float-to-integer cast.
#[verifier::external_body]
pub(crate) fn f64_bits_trunc_u64(bits: u64) -> (r: u64)
    ensures
        r == trunc_u64_of(bits),
{
    Double::from_bits(bits as u128).to_u128(64).value as u64
}

/// Relies on `rustc_apfloat`'s `Double::from_str`: correctly rounded decimal
/// to binary64 conversion; an empty result reports a malformed numeral.
#[verifier::external_body]
pub(crate) fn f64_bits_parse_decimal(text: &str) -> (r: Option<u64>)
    ensures
        r == decimal_bits_of(text@),
{
    match text.parse::<Double>() {
        Ok(value) => Some(value.to_bits() as u64),
        Err(_) => None,
    }
}

/// Relies on `rustc_apfloat`'s `Double` display: a decimal rendering of the
/// binary64 value, a function of the bit pattern alone.
#[verifier::external_body]
pub(crate) fn f64_bits_format_decimal(bits: u64) -> (r: String)
    ensures
        r@ == decimal_text_of(bits),
{
    Double::from_bits(bits as u128).to_string()
}

/// Rust's saturating cast of a binary64 value to `u8`: truncation toward
/// zero, clamped to the byte range, zero for NaN and negative values.
pub open spec fn as_u8_of(bits: u64) -> u8 {
    if trunc_u64_of(bits) > 255 {
        255u8
    } else {
        trunc_u64_of(bits) as u8
    }
}

pub fn f64_bits_as_u8(bits: u64) -> (r: u8)
    ensures
        r == as_u8_of(bits),
{
    let t = f64_bits_trunc_u64(bits);
    if t > 255 {
        255u8
    } else {
        t as u8
    }
}

} // verus!
