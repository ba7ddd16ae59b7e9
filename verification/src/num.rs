//! IEEE-754 binary64 arithmetic on bit patterns.
//!
//! The language's numbers are 64-bit floats, carried everywhere as their
//! `u64` bit patterns. The operations below delegate to `rustc_apfloat`'s
//! software implementation of IEEE-754 binary64 (`Double`), rounding to
//! nearest-even exactly as hardware doubles do. Each operation's result is
//! a pure function of its argument bits, named by an uninterpreted spec
//! function; the rest of the crate reasons in terms of those names.

use vstd::prelude::*;

use core::str::FromStr;
use rustc_apfloat::ieee::Double;
use rustc_apfloat::Float;

verus! {

/// The bit pattern of the IEEE-754 binary64 sum of the numbers `a` and `b` encode.
pub uninterp spec fn add_bits(a: u64, b: u64) -> u64;

/// The bit pattern of the IEEE-754 binary64 difference of `a` and `b`.
pub uninterp spec fn sub_bits(a: u64, b: u64) -> u64;

/// The bit pattern of the IEEE-754 binary64 product of `a` and `b`.
pub uninterp spec fn mul_bits(a: u64, b: u64) -> u64;

/// The bit pattern of the IEEE-754 binary64 quotient of `a` and `b`
/// (division by zero yields an infinity or NaN, never an error).
pub uninterp spec fn div_bits(a: u64, b: u64) -> u64;

/// The IEEE-754 partial order of the numbers `a` and `b` encode:
/// 0 for less, 1 for equal, 2 for greater, 3 for unordered (a NaN operand).
pub uninterp spec fn cmp_bits(a: u64, b: u64) -> u8;

/// The bit pattern of the IEEE-754 binary64 number a decimal literal denotes,
/// correctly rounded to nearest-even (0 for a malformed literal).
pub uninterp spec fn bits_of_str(s: Seq<char>) -> u64;

/// The bit pattern of positive zero.
pub open spec fn zero_bits() -> u64 {
    0u64
}

/// IEEE-754 negation is exactly a flip of the sign bit.
pub open spec fn neg_bits(a: u64) -> u64 {
    a ^ 0x8000_0000_0000_0000u64
}

/// Whether the number `a` encodes is strictly greater than zero:
/// the truthiness test the language applies to numbers.
pub open spec fn num_gt_zero(a: u64) -> bool {
    cmp_bits(a, zero_bits()) == 2
}

/// Relies on `rustc_apfloat::ieee::Double`'s `Add` (round to nearest-even):
/// the IEEE-754 binary64 sum of the two bit patterns.
#[verifier::external_body]
pub(crate) fn num_add(a: u64, b: u64) -> (r: u64)
    ensures
        r == add_bits(a, b),
{
    (Double::from_bits(a as u128) + Double::from_bits(b as u128)).value.to_bits() as u64
}

/// Relies on `rustc_apfloat::ieee::Double`'s `Sub` (round to nearest-even):
/// the IEEE-754 binary64 difference of the two bit patterns.
#[verifier::external_body]
pub(crate) fn num_sub(a: u64, b: u64) -> (r: u64)
    ensures
        r == sub_bits(a, b),
{
    (Double::from_bits(a as u128) - Double::from_bits(b as u128)).value.to_bits() as u64
}

/// Relies on `rustc_apfloat::ieee::Double`'s `Mul` (round to nearest-even):
/// the IEEE-754 binary64 product of the two bit patterns.
#[verifier::external_body]
pub(crate) fn num_mul(a: u64, b: u64) -> (r: u64)
    ensures
        r == mul_bits(a, b),
{
    (Double::from_bits(a as u128) * Double::from_bits(b as u128)).value.to_bits() as u64
}

/// Relies on `rustc_apfloat::ieee::Double`'s `Div` (round to nearest-even):
/// the IEEE-754 binary64 quotient of the two bit patterns.
#[verifier::external_body]
pub(crate) fn num_div(a: u64, b: u64) -> (r: u64)
    ensures
        r == div_bits(a, b),
{
    (Double::from_bits(a as u128) / Double::from_bits(b as u128)).value.to_bits() as u64
}

/// Relies on `rustc_apfloat::ieee::Double`'s `partial_cmp`, the IEEE-754
/// comparison (`None` exactly when an operand is NaN), encoded as
/// 0 less, 1 equal, 2 greater, 3 unordered.
#[verifier::external_body]
pub(crate) fn num_cmp(a: u64, b: u64) -> (r: u8)
    ensures
        r == cmp_bits(a, b),
        r <= 3,
{
    match Double::from_bits(a as u128).partial_cmp(&Double::from_bits(b as u128)) {
        Some(core::cmp::Ordering::Less) => 0,
        Some(core::cmp::Ordering::Equal) => 1,
        Some(core::cmp::Ordering::Greater) => 2,
        None => 3,
    }
}

/// Relies on `rustc_apfloat::ieee::Double`'s `FromStr` (round to
/// nearest-even): the binary64 value of a decimal literal, 0 if the
/// text is not a literal the float parser accepts.
#[verifier::external_body]
pub(crate) fn num_parse(s: &str) -> (r: u64)
    requires
        s@.len() <= 0x7fff_ffff,
    ensures
        r == bits_of_str(s@),
{
    match Double::from_str(s) {
        Ok(v) => v.to_bits() as u64,
        Err(_) => 0,
    }
}

/// IEEE-754 negation of the bit pattern `a`: the sign bit flips and
/// nothing else changes, also on NaN and infinities.
pub(crate) fn num_neg(a: u64) -> (r: u64)
    ensures
        r == neg_bits(a),
{
    a ^ 0x8000_0000_0000_0000u64
}

} // verus!
