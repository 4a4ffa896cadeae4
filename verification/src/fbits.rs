//! Trusted interface to IEEE-754 double-precision arithmetic.
//!
//! Every double value is represented in verified code by its bit pattern, a
//! `u64`. Each primitive operation gets an uninterpreted name for its
//! result; the operations themselves are performed by tiny trusted wrappers
//! around `rustc_apfloat`'s software implementation of the IEEE-754 binary64
//! format. IEEE-754 requires the basic operations to be correctly rounded,
//! so each result is a function of the argument bit patterns alone, the same
//! on every machine.

use rustc_apfloat::Float;
use vstd::prelude::*;

verus! {

/// Bit pattern of the IEEE-754 double 0.0.
pub const F64_ZERO: u64 = 0;

/// Bit pattern of the IEEE-754 double 1.0.
pub const F64_ONE: u64 = 0x3FF0_0000_0000_0000;

/// Bit pattern of the IEEE-754 double 1.5.
pub const F64_ONE_POINT_FIVE: u64 = 0x3FF8_0000_0000_0000;

/// Bit pattern of the IEEE-754 double 2.0.
pub const F64_TWO: u64 = 0x4000_0000_0000_0000;

/// Bit pattern of the IEEE-754 double 4.0, the squared-magnitude bailout.
pub const F64_FOUR: u64 = 0x4010_0000_0000_0000;

/// The bit pattern of the double `a + b`, where `a` and `b` are bit patterns.
pub uninterp spec fn add_bits(a: u64, b: u64) -> u64;

/// The bit pattern of the double `a - b`, where `a` and `b` are bit patterns.
pub uninterp spec fn sub_bits(a: u64, b: u64) -> u64;

/// The bit pattern of the double `a * b`, where `a` and `b` are bit patterns.
pub uninterp spec fn mul_bits(a: u64, b: u64) -> u64;

/// The bit pattern of the double `a / b`, where `a` and `b` are bit patterns.
pub uninterp spec fn div_bits(a: u64, b: u64) -> u64;

/// Whether the double with bit pattern `a` is greater than the one with `b`.
pub uninterp spec fn gt_bits(a: u64, b: u64) -> bool;

/// Whether the double with bit pattern `a` is at most the one with `b`.
pub uninterp spec fn le_bits(a: u64, b: u64) -> bool;

/// The bit pattern of `i` converted to the nearest double.
pub uninterp spec fn usize_to_f64_bits(i: usize) -> u64;

/// Relies on rustc_apfloat's IEEE-754 binary64 addition (round to nearest
/// even): a pure function of the two bit patterns; total, never panics.
#[verifier::external_body]
pub(crate) fn f64_add(a: u64, b: u64) -> (r: u64)
    ensures
        r == add_bits(a, b),
{
    let x = rustc_apfloat::ieee::Double::from_bits(a as u128);
    let y = rustc_apfloat::ieee::Double::from_bits(b as u128);
    (x + y).value.to_bits() as u64
}

/// Relies on rustc_apfloat's IEEE-754 binary64 subtraction (round to nearest
/// even): a pure function of the two bit patterns; total, never panics.
#[verifier::external_body]
pub(crate) fn f64_sub(a: u64, b: u64) -> (r: u64)
    ensures
        r == sub_bits(a, b),
{
    let x = rustc_apfloat::ieee::Double::from_bits(a as u128);
    let y = rustc_apfloat::ieee::Double::from_bits(b as u128);
    (x - y).value.to_bits() as u64
}

/// Relies on rustc_apfloat's IEEE-754 binary64 multiplication (round to
/// nearest even): a pure function of the two bit patterns; total, never
/// panics.
#[verifier::external_body]
pub(crate) fn f64_mul(a: u64, b: u64) -> (r: u64)
    ensures
        r == mul_bits(a, b),
{
    let x = rustc_apfloat::ieee::Double::from_bits(a as u128);
    let y = rustc_apfloat::ieee::Double::from_bits(b as u128);
    (x * y).value.to_bits() as u64
}

/// Relies on rustc_apfloat's IEEE-754 binary64 division (round to nearest
/// even): a pure function of the two bit patterns; total (division by zero
/// yields an infinity or NaN), never panics.
#[verifier::external_body]
pub(crate) fn f64_div(a: u64, b: u64) -> (r: u64)
    ensures
        r == div_bits(a, b),
{
    let x = rustc_apfloat::ieee::Double::from_bits(a as u128);
    let y = rustc_apfloat::ieee::Double::from_bits(b as u128);
    (x / y).value.to_bits() as u64
}

/// Relies on rustc_apfloat's IEEE-754 ordered comparison `>`: a pure
/// function of the two bit patterns (false when either is NaN); never
/// panics.
#[verifier::external_body]
pub(crate) fn f64_gt(a: u64, b: u64) -> (r: bool)
    ensures
        r == gt_bits(a, b),
{
    let x = rustc_apfloat::ieee::Double::from_bits(a as u128);
    let y = rustc_apfloat::ieee::Double::from_bits(b as u128);
    x > y
}

/// Relies on rustc_apfloat's IEEE-754 ordered comparison `<=`: a pure
/// function of the two bit patterns (false when either is NaN); never
/// panics.
#[verifier::external_body]
pub(crate) fn f64_le(a: u64, b: u64) -> (r: bool)
    ensures
        r == le_bits(a, b),
{
    let x = rustc_apfloat::ieee::Double::from_bits(a as u128);
    let y = rustc_apfloat::ieee::Double::from_bits(b as u128);
    x <= y
}

/// Relies on rustc_apfloat's integer-to-double conversion (round to nearest
/// even), the same rounding as Rust's integer-to-double cast: a pure
/// function of the integer value; total, never panics.
#[verifier::external_body]
pub(crate) fn usize_to_f64(i: usize) -> (r: u64)
    ensures
        r == usize_to_f64_bits(i),
{
    let x = rustc_apfloat::Float::from_u128(i as u128).value;
    rustc_apfloat::ieee::Double::to_bits(x) as u64
}

} // verus!
