//! Single-precision numbers held by their IEEE-754 bit patterns.
//!
//! A `Scalar` is the 32-bit pattern of a binary32 number: one sign bit, eight
//! exponent bits, twenty-three fraction bits. The library stores, forwards and
//! compares such patterns; the only arithmetic it performs on them is exact
//! halving.

use vstd::prelude::*;

verus! {

/// The bit pattern of a single-precision number.
pub type Scalar = u32;

/// Positive zero.
pub const ZERO: Scalar = 0;

/// The number one.
pub const ONE: Scalar = 0x3F80_0000;

/// Weight of the sign bit.
pub const SIGN: u32 = 0x8000_0000;

/// Weight of the lowest exponent bit.
pub const EXPONENT_UNIT: u32 = 0x0080_0000;

/// Magnitude of the infinities; larger magnitudes are NaNs.
pub const INFINITY_MAGNITUDE: u32 = 0x7F80_0000;

/// The pattern with its sign bit cleared.
pub open spec fn spec_magnitude(x: Scalar) -> int {
    x as int % 0x8000_0000
}

/// Whether the pattern encodes no number at all.
pub open spec fn spec_is_nan(x: Scalar) -> bool {
    spec_magnitude(x) > 0x7F80_0000
}

/// Whether the pattern encodes zero of either sign.
pub open spec fn spec_is_zero(x: Scalar) -> bool {
    spec_magnitude(x) == 0
}

/// Numeric equality of two patterns: NaN equals nothing, the two zeros equal
/// each other, everything else is equal exactly when the patterns are.
pub open spec fn spec_same_number(a: Scalar, b: Scalar) -> bool {
    &&& !spec_is_nan(a)
    &&& !spec_is_nan(b)
    &&& (a == b || (spec_is_zero(a) && spec_is_zero(b)))
}

/// Where a pattern that is no NaN stands on the number line: its magnitude,
/// taken negative if the sign bit is set. Both zeros stand at zero.
pub open spec fn spec_rank(x: Scalar) -> int {
    if x >= 0x8000_0000 {
        -spec_magnitude(x)
    } else {
        spec_magnitude(x)
    }
}

/// Whether the first pattern encodes a smaller number than the second. A NaN
/// is neither smaller nor larger than anything.
pub open spec fn spec_less_than(a: Scalar, b: Scalar) -> bool {
    &&& !spec_is_nan(a)
    &&& !spec_is_nan(b)
    &&& spec_rank(a) < spec_rank(b)
}

/// Half of a magnitude below the infinities, rounded to the nearest
/// representable magnitude with ties going to the even one.
///
/// With a biased exponent of two or more the exponent drops by one and the
/// fraction stays. Below that the result is subnormal: the significand moves
/// one place to the right and the bit that falls off decides the rounding.
pub open spec fn spec_half_magnitude(m: int) -> int {
    if m >= 0x0100_0000 {
        m - 0x0080_0000
    } else if m % 4 == 3 {
        m / 2 + 1
    } else {
        m / 2
    }
}

/// Half of the number a pattern encodes. Infinities and NaNs are returned
/// unchanged; the sign is kept.
pub open spec fn spec_halved(x: Scalar) -> Scalar {
    if spec_magnitude(x) >= 0x7F80_0000 {
        x
    } else {
        (x - spec_magnitude(x) + spec_half_magnitude(spec_magnitude(x))) as u32
    }
}

/// The pattern with its sign bit cleared.
pub fn magnitude(x: Scalar) -> (m: u32)
    ensures
        m == spec_magnitude(x),
        m < 0x8000_0000,
        x == m || x == m + 0x8000_0000,
{
    x % SIGN
}

/// Whether the pattern encodes no number at all.
pub fn is_nan(x: Scalar) -> (r: bool)
    ensures
        r == spec_is_nan(x),
{
    magnitude(x) > INFINITY_MAGNITUDE
}

/// Whether the pattern encodes zero of either sign.
pub fn is_zero(x: Scalar) -> (r: bool)
    ensures
        r == spec_is_zero(x),
{
    magnitude(x) == 0
}

/// Whether two patterns encode the same number.
pub fn same_number(a: Scalar, b: Scalar) -> (r: bool)
    ensures
        r == spec_same_number(a, b),
{
    !is_nan(a) && !is_nan(b) && (a == b || (is_zero(a) && is_zero(b)))
}

/// Whether two patterns differ as numbers. A NaN differs from everything,
/// itself included.
pub fn differs(a: Scalar, b: Scalar) -> (r: bool)
    ensures
        r == !spec_same_number(a, b),
{
    !same_number(a, b)
}

/// Whether the first pattern encodes a smaller number than the second.
pub fn less_than(a: Scalar, b: Scalar) -> (r: bool)
    ensures
        r == spec_less_than(a, b),
{
    if is_nan(a) || is_nan(b) {
        return false;
    }
    let a_magnitude: u32 = magnitude(a);
    let b_magnitude: u32 = magnitude(b);
    if a >= SIGN {
        if b >= SIGN {
            a_magnitude > b_magnitude
        } else {
            a_magnitude > 0 || b_magnitude > 0
        }
    } else {
        b < SIGN && a_magnitude < b_magnitude
    }
}

/// Half of the number a pattern encodes.
pub fn halved(x: Scalar) -> (r: Scalar)
    ensures
        r == spec_halved(x),
        spec_is_nan(r) == spec_is_nan(x),
        spec_is_zero(x) ==> r == x,
        spec_magnitude(r) <= spec_magnitude(x),
{
    let m: u32 = magnitude(x);
    if m >= INFINITY_MAGNITUDE {
        return x;
    }
    let sign: u32 = x - m;
    let half: u32 = if m >= 2 * EXPONENT_UNIT {
        m - EXPONENT_UNIT
    } else if m % 4 == 3 {
        m / 2 + 1
    } else {
        m / 2
    };
    sign + half
}

/// Weight of the implicit leading bit of a significand: two to the power 23.
pub const HIDDEN_BIT: u32 = 0x0080_0000;

/// The largest magnitude of a whole number that `whole` takes: every whole
/// number up to two to the power 24 has a pattern of its own.
pub const WHOLE_LIMIT: i32 = 0x0100_0000;

/// Two to the power `exponent`.
pub open spec fn spec_pow2(exponent: nat) -> nat
    decreases exponent,
{
    if exponent == 0 {
        1
    } else {
        2 * spec_pow2((exponent - 1) as nat)
    }
}

/// The position of the leading bit of a positive whole number.
pub open spec fn spec_log2(magnitude: nat) -> nat
    decreases magnitude,
{
    if magnitude < 2 {
        0
    } else {
        1 + spec_log2(magnitude / 2)
    }
}

/// The pattern of a whole number of magnitude below two to the power 24.
///
/// For a number other than zero whose leading bit is at position `e`, the
/// exponent field is `127 + e` and the significand is the magnitude moved
/// up until its leading bit is the hidden bit.
pub open spec fn spec_whole(number: int) -> Scalar {
    if number == 0 {
        0
    } else {
        let magnitude = if number < 0 { -number } else { number };
        let sign = if number < 0 { 0x8000_0000int } else { 0int };
        let exponent = spec_log2(magnitude as nat);
        (sign + (127 + exponent) * 0x0080_0000 + magnitude * spec_pow2((23 - exponent) as nat)
            - 0x0080_0000) as u32
    }
}

/// A number lies between the power of two at its leading bit and the next.
pub proof fn lemma_log2_bounds(magnitude: nat)
    requires
        magnitude >= 1,
    ensures
        spec_pow2(spec_log2(magnitude)) <= magnitude < 2 * spec_pow2(spec_log2(magnitude)),
    decreases magnitude,
{
    if magnitude >= 2 {
        lemma_log2_bounds(magnitude / 2);
    }
}

/// Powers of two grow with the exponent.
pub proof fn lemma_pow2_monotonic(low: nat, high: nat)
    requires
        low <= high,
    ensures
        spec_pow2(low) <= spec_pow2(high),
        spec_pow2(low) >= 1,
    decreases high,
{
    if low < high {
        lemma_pow2_monotonic(low, (high - 1) as nat);
    } else if low > 0 {
        lemma_pow2_monotonic((low - 1) as nat, (low - 1) as nat);
    }
}

/// The powers of two that bound a significand.
pub proof fn lemma_pow2_values()
    ensures
        spec_pow2(23) == 0x0080_0000,
        spec_pow2(24) == 0x0100_0000,
{
    reveal_with_fuel(spec_pow2, 25);
}

/// The pattern of a whole number.
pub fn whole(number: i32) -> (bits: Scalar)
    requires
        -WHOLE_LIMIT < number < WHOLE_LIMIT,
    ensures
        bits == spec_whole(number as int),
{
    if number == 0 {
        return 0;
    }
    let magnitude: u32 = if number < 0 {
        (0 - number) as u32
    } else {
        number as u32
    };
    let sign: u32 = if number < 0 {
        SIGN
    } else {
        0
    };
    let mut rest: u32 = magnitude;
    let mut exponent: u32 = 0;
    proof {
        assert(spec_pow2(0) == 1);
        assert(rest * spec_pow2(0) == magnitude);
    }
    while rest >= 2
        invariant
            1 <= rest <= magnitude,
            magnitude < 0x0100_0000,
            exponent <= 23,
            spec_log2(magnitude as nat) == exponent + spec_log2(rest as nat),
            rest * spec_pow2(exponent as nat) <= magnitude,
        decreases rest,
    {
        proof {
            let unit = spec_pow2(exponent as nat);
            lemma_pow2_monotonic(0, exponent as nat);
            assert((rest / 2) * (2 * unit) <= rest * unit) by (nonlinear_arith)
                requires
                    unit >= 1,
                    rest >= 2,
            ;
            if exponent == 23 {
                lemma_pow2_values();
                assert(rest * unit >= 2 * unit) by (nonlinear_arith)
                    requires
                        unit >= 1,
                        rest >= 2,
                ;
            }
        }
        rest = rest / 2;
        exponent = exponent + 1;
    }
    proof {
        lemma_log2_bounds(magnitude as nat);
        lemma_pow2_values();
        lemma_pow2_monotonic(exponent as nat, 23);
        assert(spec_pow2(0) == 1);
        assert(magnitude * spec_pow2(0) == magnitude);
    }
    let mut significand: u32 = magnitude;
    let mut moved: u32 = exponent;
    while moved < 23
        invariant
            exponent <= moved <= 23,
            significand == magnitude * spec_pow2((moved - exponent) as nat),
            spec_pow2(moved as nat) <= significand < 2 * spec_pow2(moved as nat),
            spec_pow2(moved as nat) <= spec_pow2(23),
            spec_pow2(23) == 0x0080_0000,
        decreases 23 - moved,
    {
        proof {
            let factor = spec_pow2((moved - exponent) as nat);
            lemma_pow2_monotonic((moved + 1) as nat, 23);
            assert(spec_pow2((moved + 1) as nat) == 2 * spec_pow2(moved as nat));
            assert(spec_pow2((moved + 1 - exponent) as nat) == 2 * factor);
            assert(magnitude * (2 * factor) == 2 * (magnitude * factor)) by (nonlinear_arith);
        }
        significand = significand * 2;
        moved = moved + 1;
    }
    sign + (127 + exponent) * EXPONENT_UNIT + (significand - HIDDEN_BIT)
}

} // verus!
