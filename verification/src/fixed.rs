//! Saturating, truncating fixed-point arithmetic on `i64` micro-units.

use vstd::prelude::*;

verus! {

/// Number of micro-units per geometric unit.
pub const SCALE: i64 = 1_000_000;

/// Absolute value over the mathematical integers.
pub open spec fn iabs(a: int) -> int {
    if a < 0 {
        -a
    } else {
        a
    }
}

/// Clamp a mathematical integer into the range of `i64`.
pub open spec fn sat64(v: int) -> int {
    if v < i64::MIN as int {
        i64::MIN as int
    } else if v > i64::MAX as int {
        i64::MAX as int
    } else {
        v
    }
}

/// Division truncated toward zero, as Rust's `/` behaves on signed integers.
pub open spec fn div_trunc(a: int, b: int) -> int
    recommends
        b != 0,
{
    let q: int = iabs(a) / iabs(b);
    if (a < 0) != (b < 0) {
        -q
    } else {
        q
    }
}

/// Product of two micro-unit values, rescaled back to micro-units.
pub open spec fn spec_fx_mul(a: int, b: int) -> int {
    sat64(div_trunc(a * b, SCALE as int))
}

/// Quotient of two micro-unit values, rescaled to micro-units.
pub open spec fn spec_fx_div(a: int, b: int) -> int
    recommends
        b != 0,
{
    sat64(div_trunc(a * SCALE as int, b))
}

/// Magnitude of an `i64` as a `u128`.
pub fn abs_u128(a: i64) -> (r: u128)
    ensures
        r as int == iabs(a as int),
{
    if a < 0 {
        (-(a as i128)) as u128
    } else {
        a as u128
    }
}

/// Saturating addition.
pub fn fx_add(a: i64, b: i64) -> (r: i64)
    ensures
        r as int == sat64(a as int + b as int),
{
    let s: i128 = a as i128 + b as i128;
    if s < i64::MIN as i128 {
        i64::MIN
    } else if s > i64::MAX as i128 {
        i64::MAX
    } else {
        s as i64
    }
}

/// Saturating subtraction.
pub fn fx_sub(a: i64, b: i64) -> (r: i64)
    ensures
        r as int == sat64(a as int - b as int),
{
    let s: i128 = a as i128 - b as i128;
    if s < i64::MIN as i128 {
        i64::MIN
    } else if s > i64::MAX as i128 {
        i64::MAX
    } else {
        s as i64
    }
}

/// `a * b / c` with truncation toward zero and saturation into `i64`.
pub fn fx_mul_div(a: i64, b: i64, c: i64) -> (r: i64)
    requires
        c != 0,
    ensures
        r as int == sat64(div_trunc(a as int * b as int, c as int)),
{
    let pa: u128 = abs_u128(a);
    let pb: u128 = abs_u128(b);
    let pc: u128 = abs_u128(c);
    proof {
        assert(pa <= 0x8000_0000_0000_0000u128 && pb <= 0x8000_0000_0000_0000u128);
        assert(pa * pb <= 0x8000_0000_0000_0000u128 * 0x8000_0000_0000_0000u128)
            by (nonlinear_arith)
            requires
                pa <= 0x8000_0000_0000_0000u128,
                pb <= 0x8000_0000_0000_0000u128,
        ;
        assert(iabs(a as int * b as int) == iabs(a as int) * iabs(b as int)) by (nonlinear_arith);
    }
    let q: u128 = (pa * pb) / pc;
    let neg: bool = ((a < 0) != (b < 0)) != (c < 0);
    proof {
        let ab: int = a as int * b as int;
        let cc: int = c as int;
        assert(pa * pb == iabs(ab));
        assert(q == iabs(ab) / iabs(cc));
        if ab == 0 {
            assert(iabs(ab) == 0);
            assert(q == 0);
            assert(div_trunc(ab, cc) == 0);
        } else {
            assert((ab < 0) == ((a < 0) != (b < 0))) by (nonlinear_arith)
                requires
                    ab == a as int * b as int,
                    ab != 0,
            ;
            assert(div_trunc(ab, cc) == if neg {
                -(q as int)
            } else {
                q as int
            });
        }
    }
    if neg {
        if q >= 0x8000_0000_0000_0000u128 {
            i64::MIN
        } else {
            -(q as i64)
        }
    } else {
        if q > i64::MAX as u128 {
            i64::MAX
        } else {
            q as i64
        }
    }
}

/// Product of two micro-unit values, rescaled back to micro-units.
pub fn fx_mul(a: i64, b: i64) -> (r: i64)
    ensures
        r as int == spec_fx_mul(a as int, b as int),
{
    fx_mul_div(a, b, SCALE)
}

/// Quotient of two micro-unit values, rescaled to micro-units.
pub fn fx_div(a: i64, b: i64) -> (r: i64)
    requires
        b != 0,
    ensures
        r as int == spec_fx_div(a as int, b as int),
{
    fx_mul_div(a, SCALE, b)
}

} // verus!
