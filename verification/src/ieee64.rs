use vstd::prelude::*;

use const_soft_float::soft_f64::SoftF64;
use rustc_apfloat::Float;

verus! {

// Bit layout of a double-precision value: 1 sign bit, 11 exponent bits,
// 52 significand bits.  The predicates below read the fields directly, so
// classification and ordering of such values is verified code, not trust.

/// The exponent field of a double-precision bit pattern.
pub open spec fn exp_field64(b: u64) -> u64 {
    (b >> 52) & 0x7ff
}

/// The bit pattern with the sign bit cleared.
pub open spec fn magnitude64(b: u64) -> u64 {
    b & 0x7fff_ffff_ffff_ffff
}

/// Whether the sign bit is set.
pub open spec fn sign64(b: u64) -> bool {
    (b & 0x8000_0000_0000_0000) != 0
}

/// A finite value: the exponent field is not all ones.
pub open spec fn is_finite64(b: u64) -> bool {
    exp_field64(b) != 0x7ff
}

/// Not a number: all-ones exponent with a nonzero significand.
pub open spec fn is_nan64(b: u64) -> bool {
    exp_field64(b) == 0x7ff && (b & 0x000f_ffff_ffff_ffff) != 0
}

/// A zero of either sign.
pub open spec fn is_zero64(b: u64) -> bool {
    magnitude64(b) == 0
}

/// The pattern with the sign bit flipped: negation of the encoded value.
pub open spec fn neg64(b: u64) -> u64 {
    b ^ 0x8000_0000_0000_0000
}

/// The encoded value on the number line, folded onto the integers:
/// magnitude, negated when the sign bit is set.  Every value except a NaN
/// orders by this measure, and both zeros share the measure zero.
pub open spec fn ordval64(b: u64) -> int {
    if sign64(b) {
        -(magnitude64(b) as int)
    } else {
        magnitude64(b) as int
    }
}

/// Equality of the encoded values: false for a NaN, and the two zeros are
/// equal to each other.
pub open spec fn float_eq64(a: u64, b: u64) -> bool {
    !is_nan64(a) && !is_nan64(b) && (a == b || (is_zero64(a) && is_zero64(b)))
}

/// Strict order of the encoded values: false whenever a NaN takes part.
pub open spec fn float_lt64(a: u64, b: u64) -> bool {
    !is_nan64(a) && !is_nan64(b) && ordval64(a) < ordval64(b)
}

/// Whether the pattern encodes a finite value.
pub fn finite_64(b: u64) -> (r: bool)
    ensures
        r == is_finite64(b),
{
    ((b >> 52) & 0x7ff) != 0x7ff
}

fn nan_64(b: u64) -> (r: bool)
    ensures
        r == is_nan64(b),
{
    ((b >> 52) & 0x7ff) == 0x7ff && (b & 0x000f_ffff_ffff_ffff) != 0
}

/// Whether two patterns encode equal values.
pub fn eq_64(a: u64, b: u64) -> (r: bool)
    ensures
        r == float_eq64(a, b),
{
    if nan_64(a) || nan_64(b) {
        false
    } else {
        a == b || ((a & 0x7fff_ffff_ffff_ffff) == 0 && (b & 0x7fff_ffff_ffff_ffff) == 0)
    }
}

/// Whether the first pattern encodes the strictly smaller value.
pub fn lt_64(a: u64, b: u64) -> (r: bool)
    ensures
        r == float_lt64(a, b),
{
    if nan_64(a) || nan_64(b) {
        false
    } else {
        let sa = (a & 0x8000_0000_0000_0000) != 0;
        let sb = (b & 0x8000_0000_0000_0000) != 0;
        let ma = a & 0x7fff_ffff_ffff_ffff;
        let mb = b & 0x7fff_ffff_ffff_ffff;
        if sa {
            if sb {
                mb < ma
            } else {
                ma != 0 || mb != 0
            }
        } else {
            if sb {
                false
            } else {
                ma < mb
            }
        }
    }
}

/// The double-precision sum of the two encoded values.
pub uninterp spec fn add_bits64(a: u64, b: u64) -> u64;

/// The double-precision difference of the two encoded values; subtraction
/// is addition of the sign-flipped operand.
pub open spec fn sub_bits64(a: u64, b: u64) -> u64 {
    add_bits64(a, neg64(b))
}

/// The double-precision product of the two encoded values.
pub uninterp spec fn mul_bits64(a: u64, b: u64) -> u64;

/// The double-precision quotient of the two encoded values.
pub uninterp spec fn div_bits64(a: u64, b: u64) -> u64;

/// The double-precision square root of the encoded value.
pub uninterp spec fn sqrt_bits64(a: u64) -> u64;

/// The double-precision value nearest to the given count; the conversion is
/// exact below 2^53, which covers every history length that arises here.
pub uninterp spec fn of_count_bits64(n: nat) -> u64;

/// Relies on const_soft_float's SoftF64::add: IEEE 754 double-precision
/// addition, round to nearest with ties to even, determined by the operand
/// bits alone.
#[verifier::external_body]
pub(crate) fn add_64(a: u64, b: u64) -> (r: u64)
    ensures
        r == add_bits64(a, b),
{
    SoftF64::from_bits(a).add(SoftF64::from_bits(b)).to_bits()
}

/// Subtraction, carried out as addition of the negated operand, which is how
/// IEEE 754 defines it; the negation itself is one verified bit flip.
pub(crate) fn sub_64(a: u64, b: u64) -> (r: u64)
    ensures
        r == sub_bits64(a, b),
{
    add_64(a, b ^ 0x8000_0000_0000_0000)
}

/// Relies on const_soft_float's SoftF64::mul: IEEE 754 double-precision
/// multiplication, determined by the operand bits alone.
#[verifier::external_body]
pub(crate) fn mul_64(a: u64, b: u64) -> (r: u64)
    ensures
        r == mul_bits64(a, b),
{
    SoftF64::from_bits(a).mul(SoftF64::from_bits(b)).to_bits()
}

/// Relies on const_soft_float's SoftF64::div: IEEE 754 double-precision
/// division, determined by the operand bits alone.
#[verifier::external_body]
pub(crate) fn div_64(a: u64, b: u64) -> (r: u64)
    ensures
        r == div_bits64(a, b),
{
    SoftF64::from_bits(a).div(SoftF64::from_bits(b)).to_bits()
}

/// Relies on const_soft_float's SoftF64::sqrt: IEEE 754 double-precision
/// square root, determined by the operand bits alone.
#[verifier::external_body]
pub(crate) fn sqrt_64(a: u64) -> (r: u64)
    ensures
        r == sqrt_bits64(a),
{
    SoftF64::from_bits(a).sqrt().to_bits()
}

/// Relies on rustc_apfloat's Double::from_u128: conversion of an unsigned
/// count to the nearest double-precision value, determined by the count
/// alone; zero converts to the all-zero pattern.
#[verifier::external_body]
pub(crate) fn of_count_64(n: usize) -> (r: u64)
    ensures
        r == of_count_bits64(n as nat),
        n == 0 ==> r == 0,
{
    rustc_apfloat::ieee::Double::from_u128(n as u128).value.to_bits() as u64
}

} // verus!
