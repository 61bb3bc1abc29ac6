//! Classification of IEEE 754 binary64 bit patterns.

use vstd::prelude::*;

verus! {

/// Bit pattern of positive zero.
pub const ZERO: u64 = 0;

/// Bit pattern of the gravitational constant in SI units.
pub const GRAVITATIONAL_CONSTANT: u64 = 0x3dd2_589e_ffed_8acc;

/// The sign bit of a pattern: 1 for a negative value.
pub open spec fn sign(bits: u64) -> u64 {
    bits >> 63
}

/// The eleven bits of the biased exponent.
pub open spec fn exponent(bits: u64) -> u64 {
    (bits >> 52) & 0x7ff
}

/// The fifty-two bits of the fraction.
pub open spec fn fraction(bits: u64) -> u64 {
    bits & 0x000f_ffff_ffff_ffff
}

/// The pattern is a NaN: all exponent bits set and a non-zero fraction.
pub open spec fn nan(bits: u64) -> bool {
    exponent(bits) == 0x7ff && fraction(bits) != 0
}

/// The pattern is a zero of either sign.
pub open spec fn zero(bits: u64) -> bool {
    exponent(bits) == 0 && fraction(bits) == 0
}

/// The value compares less than or equal to zero: it is no NaN, and it is
/// negative or a zero.
pub open spec fn nonpositive(bits: u64) -> bool {
    !nan(bits) && (sign(bits) == 1 || zero(bits))
}

/// Tells whether `bits` is a NaN.
pub fn is_nan(bits: u64) -> (r: bool)
    ensures
        r == nan(bits),
{
    (bits >> 52) & 0x7ff == 0x7ff && bits & 0x000f_ffff_ffff_ffff != 0
}

/// Tells whether `bits` is positive or negative zero.
pub fn is_zero(bits: u64) -> (r: bool)
    ensures
        r == zero(bits),
{
    (bits >> 52) & 0x7ff == 0 && bits & 0x000f_ffff_ffff_ffff == 0
}

/// Tells whether the value of `bits` is less than or equal to zero.
pub fn is_nonpositive(bits: u64) -> (r: bool)
    ensures
        r == nonpositive(bits),
{
    !is_nan(bits) && (bits >> 63 == 1 || is_zero(bits))
}

} // verus!
