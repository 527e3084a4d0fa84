//! The unit interval `[0, 1]` on IEEE-754 binary64 bit patterns.
//!
//! A sample is a `u64` holding the bits of a binary64 number. For numbers
//! with a clear sign bit the order of the bit patterns is the order of the
//! numbers, which is all that clamping to `[0, 1]` needs.

use vstd::arithmetic::power2::{lemma2_to64, lemma2_to64_rest, lemma_pow2_unfold, pow2};
use vstd::prelude::*;

verus! {

/// The bits of `0.0`.
pub const ZERO_BITS: u64 = 0;

/// The bits of `1.0`.
pub const ONE_BITS: u64 = 0x3FF0_0000_0000_0000;

/// The bits of positive infinity; every larger magnitude is a NaN.
pub const INFINITY_BITS: u64 = 0x7FF0_0000_0000_0000;

/// The bits of `-0.0`: the sign bit alone.
pub const SIGN_BIT: u64 = 0x8000_0000_0000_0000;

/// The pattern with its sign bit cleared.
pub open spec fn magnitude(bits: u64) -> int {
    if bits >= SIGN_BIT {
        bits - SIGN_BIT
    } else {
        bits as int
    }
}

/// The pattern encodes a NaN.
pub open spec fn is_nan(bits: u64) -> bool {
    magnitude(bits) > INFINITY_BITS
}

/// The pattern encodes a number strictly below zero.
pub open spec fn is_below_zero(bits: u64) -> bool {
    bits > SIGN_BIT && !is_nan(bits)
}

/// The pattern encodes a number strictly above one.
pub open spec fn is_above_one(bits: u64) -> bool {
    ONE_BITS < bits <= INFINITY_BITS
}

/// The pattern encodes a number `v` with `0 <= v <= 1` (`-0.0` included).
pub open spec fn in_unit_interval(bits: u64) -> bool {
    bits <= ONE_BITS || bits == SIGN_BIT
}

/// The number clamped to `[0, 1]`: numbers below zero become `0.0`, numbers
/// above one become `1.0`, everything else (NaN and `-0.0` too) is kept.
pub open spec fn clamped(bits: u64) -> u64 {
    if is_below_zero(bits) {
        ZERO_BITS
    } else if is_above_one(bits) {
        ONE_BITS
    } else {
        bits
    }
}

/// A sampling parameter brought into `[0, 1]`: NaN counts as `0.0`.
pub open spec fn parameter(bits: u64) -> u64 {
    if is_nan(bits) {
        ZERO_BITS
    } else {
        clamped(bits)
    }
}

/// Clamps a sample to the unit interval.
pub fn clamp_unit(bits: u64) -> (r: u64)
    ensures
        r == clamped(bits),
{
    if bits > SIGN_BIT {
        if bits - SIGN_BIT > INFINITY_BITS {
            bits
        } else {
            ZERO_BITS
        }
    } else if bits > ONE_BITS && bits <= INFINITY_BITS {
        ONE_BITS
    } else {
        bits
    }
}

/// Tells whether a sample is a NaN.
pub fn sample_is_nan(bits: u64) -> (r: bool)
    ensures
        r == is_nan(bits),
{
    if bits >= SIGN_BIT {
        bits - SIGN_BIT > INFINITY_BITS
    } else {
        bits > INFINITY_BITS
    }
}

/// Brings a sampling parameter into the unit interval, reading NaN as zero.
pub fn clamp_parameter(bits: u64) -> (r: u64)
    ensures
        r == parameter(bits),
        in_unit_interval(r),
{
    if sample_is_nan(bits) {
        ZERO_BITS
    } else {
        clamp_unit(bits)
    }
}

/// Clamping a number always lands in the unit interval; only a NaN escapes.
pub proof fn lemma_clamped_in_unit_interval(bits: u64)
    requires
        !is_nan(bits),
    ensures
        in_unit_interval(clamped(bits)),
{
}

/// Clamping leaves what is already in the unit interval alone, so clamping
/// twice is clamping once.
pub proof fn lemma_clamped_idempotent(bits: u64)
    ensures
        in_unit_interval(bits) ==> clamped(bits) == bits,
        clamped(clamped(bits)) == clamped(bits),
{
}

/// Two to the power 52: the weight of the lowest exponent bit, and the
/// implied top bit of a full significand.
pub const EXPONENT_UNIT: u64 = 0x0010_0000_0000_0000;

/// Two to the power 53: one more than the largest numerator of a fraction.
pub const FRACTION_LIMIT: u64 = 0x0020_0000_0000_0000;

/// How far a numerator is from being a full significand.
pub open spec fn slack(numerator: int) -> int {
    if numerator < EXPONENT_UNIT {
        EXPONENT_UNIT - numerator
    } else {
        0
    }
}

/// The bits of the number `numerator * 2^(exponent - 1075)`. A numerator of
/// at least `2^52` is a full significand: its top bit is implied and the
/// rest stands below the exponent. A smaller one is doubled, at one exponent
/// less, until it is.
pub open spec fn normalized(numerator: int, exponent: int) -> int
    decreases slack(numerator),
{
    if 0 < numerator < EXPONENT_UNIT {
        normalized(2 * numerator, exponent - 1)
    } else {
        exponent * EXPONENT_UNIT + numerator - EXPONENT_UNIT
    }
}

/// The bits of the number `numerator / 2^53`, which is exact for a
/// numerator below `2^53`: such a numerator fits the significand.
pub open spec fn unit_fraction(numerator: u64) -> int {
    if numerator == 0 {
        0
    } else {
        normalized(numerator as int, 1022)
    }
}

/// Normalizing a numerator below `2^53` gives a number below two to the
/// power `exponent - 1022`: the exponent field never exceeds `exponent`.
pub proof fn lemma_normalized_below(numerator: int, exponent: int)
    requires
        0 < numerator < FRACTION_LIMIT,
    ensures
        normalized(numerator, exponent) < (exponent + 1) * EXPONENT_UNIT,
    decreases slack(numerator),
{
    if numerator < EXPONENT_UNIT {
        lemma_normalized_below(2 * numerator, exponent - 1);
        assert((exponent - 1 + 1) * EXPONENT_UNIT <= (exponent + 1) * EXPONENT_UNIT)
            by (nonlinear_arith);
    } else {
        assert((exponent + 1) * EXPONENT_UNIT == exponent * EXPONENT_UNIT + EXPONENT_UNIT)
            by (nonlinear_arith);
    }
}

/// A fraction lies in `[0, 1)`.
pub proof fn lemma_unit_fraction_below_one(numerator: u64)
    requires
        numerator < FRACTION_LIMIT,
    ensures
        unit_fraction(numerator) < ONE_BITS,
{
    if numerator > 0 {
        lemma_normalized_below(numerator as int, 1022);
    }
}

/// The bits of the number `numerator / 2^53`, a number in `[0, 1)`.
pub fn fraction(numerator: u64) -> (bits: u64)
    requires
        numerator < FRACTION_LIMIT,
    ensures
        bits == unit_fraction(numerator),
        bits < ONE_BITS,
        in_unit_interval(bits),
{
    if numerator == 0 {
        return ZERO_BITS;
    }
    let mut significand: u64 = numerator;
    let mut exponent: u64 = 1022;
    proof {
        lemma_unit_fraction_below_one(numerator);
        lemma2_to64();
    }
    for i in 0..52u64
        invariant
            0 < significand < FRACTION_LIMIT,
            1022 - i <= exponent <= 1022,
            significand >= EXPONENT_UNIT || significand >= pow2(i as nat),
            normalized(significand as int, exponent as int) == normalized(numerator as int, 1022),
    {
        proof {
            lemma_pow2_unfold((i + 1) as nat);
        }
        if significand < EXPONENT_UNIT {
            significand = 2 * significand;
            exponent = exponent - 1;
        }
    }
    proof {
        lemma2_to64_rest();
        assert(exponent * EXPONENT_UNIT <= 1022 * EXPONENT_UNIT) by (nonlinear_arith)
            requires
                exponent <= 1022,
        ;
    }
    exponent * EXPONENT_UNIT + (significand - EXPONENT_UNIT)
}

} // verus!
