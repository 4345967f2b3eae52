//! Sine and cosine over micro-degree angles, in micro-unit fixed point.
//!
//! The half-wave uses Bhaskara's rational approximation, which is exact at
//! 0, 30, 90, 150 and 180 degrees and within about 0.2% elsewhere. The
//! computation is pure integer arithmetic, so it is deterministic on every
//! machine.

use vstd::prelude::*;
use crate::fixed::iabs;

verus! {

/// Micro-degrees in a full turn.
pub const TURN_MICRO: i64 = 360_000_000;

/// Micro-degrees in a half turn.
pub const HALF_TURN_MICRO: i64 = 180_000_000;

/// Micro-degrees in a quarter turn.
pub const QUARTER_TURN_MICRO: i64 = 90_000_000;

/// Normalize an angle in micro-degrees into `[0, 360_000_000)`.
pub open spec fn norm360(a: int) -> int {
    let m: int = iabs(a) % (TURN_MICRO as int);
    if a >= 0 {
        m
    } else if m == 0 {
        0
    } else {
        TURN_MICRO as int - m
    }
}

/// Bhaskara's half-wave: the scaled sine of `d` micro-degrees, `d` in
/// `[0, 180_000_000]`.
pub open spec fn half_sine(d: int) -> int {
    let t: int = d * (HALF_TURN_MICRO as int - d);
    (4 * t * 1_000_000) / (40_500_000_000_000_000 - t)
}

/// Sine of a normalized angle.
pub open spec fn sine_of_norm(m: int) -> int {
    if m <= HALF_TURN_MICRO as int {
        half_sine(m)
    } else {
        -half_sine(m - HALF_TURN_MICRO as int)
    }
}

/// A quarter turn ahead, kept in `[0, 360_000_000)`.
pub open spec fn quarter_ahead(m: int) -> int {
    if m + (QUARTER_TURN_MICRO as int) < (TURN_MICRO as int) {
        m + QUARTER_TURN_MICRO as int
    } else {
        m + QUARTER_TURN_MICRO as int - TURN_MICRO as int
    }
}

/// Scaled sine of an angle in micro-degrees.
pub open spec fn spec_sin(a: int) -> int {
    sine_of_norm(norm360(a))
}

/// Scaled cosine of an angle in micro-degrees.
pub open spec fn spec_cos(a: int) -> int {
    sine_of_norm(quarter_ahead(norm360(a)))
}

/// Normalize an angle in micro-degrees into `[0, 360_000_000)`.
pub fn norm360_exec(a: i64) -> (m: u64)
    ensures
        m as int == norm360(a as int),
        m < 360_000_000,
{
    let aa: u128 = crate::fixed::abs_u128(a);
    let m0: u128 = aa % 360_000_000;
    if a < 0 && m0 != 0 {
        (360_000_000 - m0) as u64
    } else {
        m0 as u64
    }
}

/// Bhaskara's half-wave on `[0, 180_000_000]` micro-degrees.
pub fn half_sine_exec(d: u64) -> (r: i64)
    requires
        d <= 180_000_000,
    ensures
        r as int == half_sine(d as int),
        0 <= r,
{
    proof {
        assert((d as int) * (180_000_000 - d as int) <= 32_400_000_000_000_000
            && (d as int) * (180_000_000 - d as int) >= 0) by (nonlinear_arith)
            requires
                0 <= d as int <= 180_000_000,
        ;
    }
    let t: u128 = (d as u128) * ((180_000_000 - d) as u128);
    let num: u128 = 4 * t * 1_000_000;
    let den: u128 = 40_500_000_000_000_000 - t;
    let q: u128 = num / den;
    proof {
        vstd::arithmetic::div_mod::lemma_div_is_ordered_by_denominator(
            num as int,
            8_100_000_000_000_000,
            den as int,
        );
        vstd::arithmetic::div_mod::lemma_div_is_ordered(
            num as int,
            129_600_000_000_000_000_000_000,
            8_100_000_000_000_000,
        );
        assert(q as int <= 129_600_000_000_000_000_000_000int / 8_100_000_000_000_000);
    }
    q as i64
}

/// Scaled sine of an angle in micro-degrees.
pub fn sin_micro(a: i64) -> (r: i64)
    ensures
        r as int == spec_sin(a as int),
{
    let m: u64 = norm360_exec(a);
    if m <= 180_000_000 {
        half_sine_exec(m)
    } else {
        -(half_sine_exec(m - 180_000_000))
    }
}

/// Scaled cosine of an angle in micro-degrees.
pub fn cos_micro(a: i64) -> (r: i64)
    ensures
        r as int == spec_cos(a as int),
{
    let m: u64 = norm360_exec(a);
    let m2: u64 = if m + 90_000_000 < 360_000_000 {
        m + 90_000_000
    } else {
        m + 90_000_000 - 360_000_000
    };
    if m2 <= 180_000_000 {
        half_sine_exec(m2)
    } else {
        -(half_sine_exec(m2 - 180_000_000))
    }
}

} // verus!
