//! Double-precision numbers travel through the interpreter as their 64-bit
//! IEEE-754 bit patterns; the arithmetic on them is done in software by
//! `rustc_apfloat`, behind the trusted wrappers of this module.

use vstd::prelude::*;
use rustc_apfloat::Float as ApFloat;
use rustc_apfloat::ieee::Double;

verus! {

/// The bit that holds the sign of an IEEE-754 double.
pub const SIGN_MASK: u64 = 0x8000_0000_0000_0000;

/// A bit pattern encodes zero exactly when all bits but the sign are clear;
/// both positive and negative zero count as a zero divisor.
pub open spec fn float_is_zero(b: u64) -> bool {
    b == 0 || b == SIGN_MASK
}

/// Bit pattern of the IEEE-754 double sum of the doubles `a` and `b` encode.
pub uninterp spec fn float_add(a: u64, b: u64) -> u64;

/// Bit pattern of the IEEE-754 double difference of the doubles `a` and `b` encode.
pub uninterp spec fn float_sub(a: u64, b: u64) -> u64;

/// Bit pattern of the IEEE-754 double product of the doubles `a` and `b` encode.
pub uninterp spec fn float_mul(a: u64, b: u64) -> u64;

/// Bit pattern of the IEEE-754 double quotient of the doubles `a` and `b` encode.
pub uninterp spec fn float_div(a: u64, b: u64) -> u64;

/// Whether the double `a` encodes is strictly below the one `b` encodes.
pub uninterp spec fn float_lt(a: u64, b: u64) -> bool;

/// Whether the double `a` encodes is below or equal to the one `b` encodes.
pub uninterp spec fn float_le(a: u64, b: u64) -> bool;

/// Whether the doubles `a` and `b` encode compare equal under IEEE-754.
pub uninterp spec fn float_eq(a: u64, b: u64) -> bool;

/// Bit pattern of the IEEE-754 double nearest to the integer `i`.
pub uninterp spec fn float_of_int(i: i64) -> u64;

/// Bit pattern of the IEEE-754 double nearest to the decimal literal `s`.
pub uninterp spec fn float_of_dec(s: Seq<char>) -> u64;

/// Decimal rendering of the double the bit pattern `b` encodes.
pub uninterp spec fn float_text(b: u64) -> Seq<char>;

/// Relies on rustc_apfloat::ieee::Double: IEEE-754 double addition, rounding
/// to nearest even, on values given and returned as bit patterns.
#[verifier::external_body]
pub(crate) fn f64_add(a: u64, b: u64) -> (r: u64)
    ensures
        r == float_add(a, b),
{
    let x = Double::from_bits(a as u128);
    let y = Double::from_bits(b as u128);
    (x + y).value.to_bits() as u64
}

/// Relies on rustc_apfloat::ieee::Double: IEEE-754 double subtraction,
/// rounding to nearest even, on bit patterns.
#[verifier::external_body]
pub(crate) fn f64_sub(a: u64, b: u64) -> (r: u64)
    ensures
        r == float_sub(a, b),
{
    let x = Double::from_bits(a as u128);
    let y = Double::from_bits(b as u128);
    (x - y).value.to_bits() as u64
}

/// Relies on rustc_apfloat::ieee::Double: IEEE-754 double multiplication,
/// rounding to nearest even, on bit patterns.
#[verifier::external_body]
pub(crate) fn f64_mul(a: u64, b: u64) -> (r: u64)
    ensures
        r == float_mul(a, b),
{
    let x = Double::from_bits(a as u128);
    let y = Double::from_bits(b as u128);
    (x * y).value.to_bits() as u64
}

/// Relies on rustc_apfloat::ieee::Double: IEEE-754 double division, rounding
/// to nearest even, on bit patterns; a zero divisor yields an infinity or NaN,
/// never a panic.
#[verifier::external_body]
pub(crate) fn f64_div(a: u64, b: u64) -> (r: u64)
    ensures
        r == float_div(a, b),
{
    let x = Double::from_bits(a as u128);
    let y = Double::from_bits(b as u128);
    (x / y).value.to_bits() as u64
}

/// Relies on rustc_apfloat::ieee::Double: the IEEE-754 `<` comparison
/// (false whenever either operand is a NaN).
#[verifier::external_body]
pub(crate) fn f64_lt(a: u64, b: u64) -> (r: bool)
    ensures
        r == float_lt(a, b),
{
    Double::from_bits(a as u128) < Double::from_bits(b as u128)
}

/// Relies on rustc_apfloat::ieee::Double: the IEEE-754 `<=` comparison
/// (false whenever either operand is a NaN).
#[verifier::external_body]
pub(crate) fn f64_le(a: u64, b: u64) -> (r: bool)
    ensures
        r == float_le(a, b),
{
    Double::from_bits(a as u128) <= Double::from_bits(b as u128)
}

/// Relies on rustc_apfloat::ieee::Double: the IEEE-754 `==` comparison
/// (negative and positive zero compare equal; a NaN equals nothing).
#[verifier::external_body]
pub(crate) fn f64_eq(a: u64, b: u64) -> (r: bool)
    ensures
        r == float_eq(a, b),
{
    Double::from_bits(a as u128) == Double::from_bits(b as u128)
}

/// Relies on rustc_apfloat::ieee::Double: conversion of a signed integer to
/// the nearest double, rounding to nearest even.
#[verifier::external_body]
pub(crate) fn f64_of_int(i: i64) -> (r: u64)
    ensures
        r == float_of_int(i),
{
    Double::from_i128(i as i128).value.to_bits() as u64
}

/// Relies on rustc_apfloat::ieee::Double: parsing a decimal literal to the
/// nearest double, rounding to nearest even; an unparsable text maps to the
/// zero pattern.
#[verifier::external_body]
pub(crate) fn f64_of_dec(s: &str) -> (r: u64)
    ensures
        r == float_of_dec(s@),
{
    match s.parse::<Double>() {
        Ok(d) => d.to_bits() as u64,
        Err(_) => 0,
    }
}

/// Relies on rustc_apfloat::ieee::Double: its decimal rendering of the double
/// a bit pattern encodes.
#[verifier::external_body]
pub(crate) fn f64_text(b: u64) -> (r: String)
    ensures
        r@ == float_text(b),
{
    format!("{}", Double::from_bits(b as u128))
}

} // verus!
