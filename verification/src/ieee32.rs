use vstd::prelude::*;

use const_soft_float::soft_f32::SoftF32;
use rustc_apfloat::Float;

verus! {

// Bit layout of a single-precision value: 1 sign bit, 8 exponent bits,
// 23 significand bits.  The predicates below read the fields directly, so
// classification and ordering of such values is verified code, not trust.

/// The exponent field of a single-precision bit pattern.
pub open spec fn exp_field32(b: u32) -> u32 {
    (b >> 23) & 0xff
}

/// The bit pattern with the sign bit cleared.
pub open spec fn magnitude32(b: u32) -> u32 {
    b & 0x7fff_ffff
}

/// Whether the sign bit is set.
pub open spec fn sign32(b: u32) -> bool {
    (b & 0x8000_0000) != 0
}

/// A finite value: the exponent field is not all ones.
pub open spec fn is_finite32(b: u32) -> bool {
    exp_field32(b) != 0xff
}

/// Not a number: all-ones exponent with a nonzero significand.
pub open spec fn is_nan32(b: u32) -> bool {
    exp_field32(b) == 0xff && (b & 0x007f_ffff) != 0
}

/// A zero of either sign.
pub open spec fn is_zero32(b: u32) -> bool {
    magnitude32(b) == 0
}

/// The pattern with the sign bit flipped: negation of the encoded value.
pub open spec fn neg32(b: u32) -> u32 {
    b ^ 0x8000_0000
}

/// The encoded value on the number line, folded onto the integers:
/// magnitude, negated when the sign bit is set.  Every value except a NaN
/// orders by this measure, and both zeros share the measure zero.
pub open spec fn ordval32(b: u32) -> int {
    if sign32(b) {
        -(magnitude32(b) as int)
    } else {
        magnitude32(b) as int
    }
}

/// Equality of the encoded values: false for a NaN, and the two zeros are
/// equal to each other.
pub open spec fn float_eq32(a: u32, b: u32) -> bool {
    !is_nan32(a) && !is_nan32(b) && (a == b || (is_zero32(a) && is_zero32(b)))
}

/// Strict order of the encoded values: false whenever a NaN takes part.
pub open spec fn float_lt32(a: u32, b: u32) -> bool {
    !is_nan32(a) && !is_nan32(b) && ordval32(a) < ordval32(b)
}

/// Whether the pattern encodes a finite value.
pub fn finite_32(b: u32) -> (r: bool)
    ensures
        r == is_finite32(b),
{
    ((b >> 23) & 0xff) != 0xff
}

/// Whether the pattern is a NaN.
pub fn nan_32(b: u32) -> (r: bool)
    ensures
        r == is_nan32(b),
{
    ((b >> 23) & 0xff) == 0xff && (b & 0x007f_ffff) != 0
}

/// The larger of two encoded values; a NaN loses to anything.
pub open spec fn fmax32(a: u32, b: u32) -> u32 {
    if is_nan32(a) {
        b
    } else if is_nan32(b) {
        a
    } else if float_lt32(a, b) {
        b
    } else {
        a
    }
}

/// The smaller of two encoded values; a NaN loses to anything.
pub open spec fn fmin32(a: u32, b: u32) -> u32 {
    if is_nan32(a) {
        b
    } else if is_nan32(b) {
        a
    } else if float_lt32(b, a) {
        b
    } else {
        a
    }
}

/// The larger of two encoded values.
pub fn max_32(a: u32, b: u32) -> (r: u32)
    ensures
        r == fmax32(a, b),
{
    if nan_32(a) {
        b
    } else if nan_32(b) {
        a
    } else if lt_32(a, b) {
        b
    } else {
        a
    }
}

/// The smaller of two encoded values.
pub fn min_32(a: u32, b: u32) -> (r: u32)
    ensures
        r == fmin32(a, b),
{
    if nan_32(a) {
        b
    } else if nan_32(b) {
        a
    } else if lt_32(b, a) {
        b
    } else {
        a
    }
}

/// Whether two patterns encode equal values.
pub fn eq_32(a: u32, b: u32) -> (r: bool)
    ensures
        r == float_eq32(a, b),
{
    if nan_32(a) || nan_32(b) {
        false
    } else {
        a == b || ((a & 0x7fff_ffff) == 0 && (b & 0x7fff_ffff) == 0)
    }
}

/// Whether the first pattern encodes the strictly smaller value.
pub fn lt_32(a: u32, b: u32) -> (r: bool)
    ensures
        r == float_lt32(a, b),
{
    if nan_32(a) || nan_32(b) {
        false
    } else {
        let sa = (a & 0x8000_0000) != 0;
        let sb = (b & 0x8000_0000) != 0;
        let ma = a & 0x7fff_ffff;
        let mb = b & 0x7fff_ffff;
        if sa {
            if sb {
                mb < ma
            } else {
                ma != 0 || mb != 0
            }
        } else {
            if sb {
                false
            } else {
                ma < mb
            }
        }
    }
}

/// The single-precision sum of the two encoded values.
pub uninterp spec fn add_bits32(a: u32, b: u32) -> u32;

/// The single-precision difference of the two encoded values; subtraction
/// is addition of the sign-flipped operand.
pub open spec fn sub_bits32(a: u32, b: u32) -> u32 {
    add_bits32(a, neg32(b))
}

/// The single-precision product of the two encoded values.
pub uninterp spec fn mul_bits32(a: u32, b: u32) -> u32;

/// The single-precision quotient of the two encoded values.
pub uninterp spec fn div_bits32(a: u32, b: u32) -> u32;

/// The single-precision square root of the encoded value.
pub uninterp spec fn sqrt_bits32(a: u32) -> u32;

/// The single-precision value nearest to the given count; the conversion is
/// exact below 2^24, which covers every history length that arises here.
pub uninterp spec fn of_count_bits32(n: nat) -> u32;

/// Relies on const_soft_float's SoftF32::add: IEEE 754 single-precision
/// addition, round to nearest with ties to even, determined by the operand
/// bits alone.
#[verifier::external_body]
pub(crate) fn add_32(a: u32, b: u32) -> (r: u32)
    ensures
        r == add_bits32(a, b),
{
    SoftF32::from_bits(a).add(SoftF32::from_bits(b)).to_bits()
}

/// Subtraction, carried out as addition of the negated operand, which is how
/// IEEE 754 defines it; the negation itself is one verified bit flip.
pub(crate) fn sub_32(a: u32, b: u32) -> (r: u32)
    ensures
        r == sub_bits32(a, b),
{
    add_32(a, b ^ 0x8000_0000)
}

/// Relies on const_soft_float's SoftF32::mul: IEEE 754 single-precision
/// multiplication, determined by the operand bits alone.
#[verifier::external_body]
pub(crate) fn mul_32(a: u32, b: u32) -> (r: u32)
    ensures
        r == mul_bits32(a, b),
{
    SoftF32::from_bits(a).mul(SoftF32::from_bits(b)).to_bits()
}

/// Relies on const_soft_float's SoftF32::div: IEEE 754 single-precision
/// division, determined by the operand bits alone.
#[verifier::external_body]
pub(crate) fn div_32(a: u32, b: u32) -> (r: u32)
    ensures
        r == div_bits32(a, b),
{
    SoftF32::from_bits(a).div(SoftF32::from_bits(b)).to_bits()
}

/// Relies on const_soft_float's SoftF32::sqrt: IEEE 754 single-precision
/// square root, determined by the operand bits alone.
#[verifier::external_body]
pub(crate) fn sqrt_32(a: u32) -> (r: u32)
    ensures
        r == sqrt_bits32(a),
{
    SoftF32::from_bits(a).sqrt().to_bits()
}

/// The encoded value as a machine integer, truncated toward zero, clamped
/// to the type's range, and zero for a NaN -- the saturating cast.
pub uninterp spec fn usize_of_bits32(a: u32) -> usize;

/// Relies on rustc_apfloat's Single::to_u128: truncation toward zero that
/// saturates out-of-range values and sends a NaN to zero, exactly the
/// saturating cast, determined by the operand bits alone.
#[verifier::external_body]
pub(crate) fn to_usize_32(a: u32) -> (r: usize)
    ensures
        r == usize_of_bits32(a),
{
    rustc_apfloat::ieee::Single::from_bits(a as u128).to_u128(usize::BITS as usize).value as usize
}

/// Relies on rustc_apfloat's Single::from_u128: conversion of an unsigned
/// count to the nearest single-precision value, determined by the count
/// alone; zero converts to the all-zero pattern.
#[verifier::external_body]
pub(crate) fn of_count_32(n: usize) -> (r: u32)
    ensures
        r == of_count_bits32(n as nat),
        n == 0 ==> r == 0,
{
    rustc_apfloat::ieee::Single::from_u128(n as u128).value.to_bits() as u32
}

} // verus!
