//! Bit-level operations on IEEE 754 double-precision values.
//!
//! The language's numbers are doubles, carried as their 64-bit patterns.
//! Negation and the comparisons are plain functions of the bit patterns —
//! flip the sign bit; order by sign and magnitude with the two zeros equal
//! and any NaN unordered — so they are implemented and verified here.
//! Addition, subtraction, multiplication and division are the embedder's
//! floating-point work and reach the evaluator as supplied results.
use vstd::prelude::*;

verus! {

/// The sign bit of a double.
pub const SIGN_BIT: u64 = 0x8000_0000_0000_0000;

/// Everything but the sign bit.
pub const MAGNITUDE_MASK: u64 = 0x7fff_ffff_ffff_ffff;

/// The magnitude of an infinity; a larger magnitude is a NaN.
pub const INFINITY_MAGNITUDE: u64 = 0x7ff0_0000_0000_0000;

/// True when the bit pattern is a NaN: maximal exponent and a non-zero
/// mantissa.
pub open spec fn is_nan_bits(b: u64) -> bool {
    (b & MAGNITUDE_MASK) > INFINITY_MAGNITUDE
}

/// The bit pattern of the negated double: the sign bit flipped.
pub open spec fn negated_bits(b: u64) -> u64 {
    b ^ SIGN_BIT
}

/// The place of a non-NaN double on the number line, as an integer key:
/// magnitude, negated for a negative sign. Both zeros map to zero.
pub open spec fn float_key(b: u64) -> int {
    if b >= SIGN_BIT {
        -((b & MAGNITUDE_MASK) as int)
    } else {
        (b & MAGNITUDE_MASK) as int
    }
}

/// `a < b` on doubles: false when either is NaN, else by the number line.
pub open spec fn num_lt(a: u64, b: u64) -> bool {
    !is_nan_bits(a) && !is_nan_bits(b) && float_key(a) < float_key(b)
}

/// `a <= b` on doubles: false when either is NaN, else by the number line.
pub open spec fn num_le(a: u64, b: u64) -> bool {
    !is_nan_bits(a) && !is_nan_bits(b) && float_key(a) <= float_key(b)
}

/// `a == b` on doubles: false when either is NaN; the two zeros are equal.
pub open spec fn num_eq(a: u64, b: u64) -> bool {
    !is_nan_bits(a) && !is_nan_bits(b) && float_key(a) == float_key(b)
}

/// Flips the sign bit: IEEE 754 negation, also of zeros, infinities and
/// NaNs.
pub fn negate_bits(b: u64) -> (r: u64)
    ensures
        r == negated_bits(b),
{
    b ^ SIGN_BIT
}

/// True when the bit pattern is a NaN.
pub fn nan_bits(b: u64) -> (r: bool)
    ensures
        r == is_nan_bits(b),
{
    (b & MAGNITUDE_MASK) > INFINITY_MAGNITUDE
}

/// Compares two doubles by their bit patterns: `a < b`.
pub fn lt_bits(a: u64, b: u64) -> (r: bool)
    ensures
        r == num_lt(a, b),
{
    if nan_bits(a) || nan_bits(b) {
        return false;
    }
    let mag_a = a & MAGNITUDE_MASK;
    let mag_b = b & MAGNITUDE_MASK;
    let neg_a = a >= SIGN_BIT;
    let neg_b = b >= SIGN_BIT;
    if neg_a && neg_b {
        mag_b < mag_a
    } else if neg_a {
        // A negative stands left of a non-negative unless both are zeros.
        !(mag_a == 0 && mag_b == 0)
    } else if neg_b {
        false
    } else {
        mag_a < mag_b
    }
}

/// Compares two doubles by their bit patterns: `a <= b`.
pub fn le_bits(a: u64, b: u64) -> (r: bool)
    ensures
        r == num_le(a, b),
{
    if nan_bits(a) || nan_bits(b) {
        return false;
    }
    let mag_a = a & MAGNITUDE_MASK;
    let mag_b = b & MAGNITUDE_MASK;
    let neg_a = a >= SIGN_BIT;
    let neg_b = b >= SIGN_BIT;
    if neg_a && neg_b {
        mag_b <= mag_a
    } else if neg_a {
        true
    } else if neg_b {
        mag_a == 0 && mag_b == 0
    } else {
        mag_a <= mag_b
    }
}

/// Compares two doubles by their bit patterns: `a == b`. NaN equals
/// nothing; the two zeros are equal.
pub fn eq_bits(a: u64, b: u64) -> (r: bool)
    ensures
        r == num_eq(a, b),
{
    if nan_bits(a) || nan_bits(b) {
        return false;
    }
    let mag_a = a & MAGNITUDE_MASK;
    let mag_b = b & MAGNITUDE_MASK;
    let neg_a = a >= SIGN_BIT;
    let neg_b = b >= SIGN_BIT;
    if neg_a == neg_b {
        mag_a == mag_b
    } else {
        mag_a == 0 && mag_b == 0
    }
}

} // verus!
