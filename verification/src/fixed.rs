//! Fixed-point scalar arithmetic for world-space coordinates.
//!
//! A coordinate is an `i64` counting thousandths of a world unit, kept in
//! the range `[-FX_MAX, FX_MAX]`.  Every operation clamps its result back
//! into that range (saturation), so the arithmetic is total and closed:
//! a well-formed scene can never overflow, however deep its hierarchy.
//! Products and quotients round toward zero.

use vstd::prelude::*;

verus! {

/// One world unit, in raw fixed-point steps.
pub const FX_ONE: i64 = 1000;

/// Largest representable raw coordinate (ten million world units).
pub const FX_MAX: i64 = 10_000_000_000;

/// A raw value lies in the representable coordinate range.
pub open spec fn fx_in_range(a: int) -> bool {
    -(FX_MAX as int) <= a <= FX_MAX as int
}

/// Clamp an unbounded value into the representable range.
pub open spec fn spec_fx_clamp(a: int) -> int {
    if a > FX_MAX as int {
        FX_MAX as int
    } else if a < -(FX_MAX as int) {
        -(FX_MAX as int)
    } else {
        a
    }
}

/// Division by a positive divisor, rounding toward zero.
pub open spec fn spec_div_trunc(a: int, d: int) -> int {
    if a >= 0 {
        a / d
    } else {
        -((-a) / d)
    }
}

/// Saturating fixed-point addition.
pub open spec fn spec_fx_add(a: int, b: int) -> int {
    spec_fx_clamp(a + b)
}

/// Saturating fixed-point subtraction.
pub open spec fn spec_fx_sub(a: int, b: int) -> int {
    spec_fx_clamp(a - b)
}

/// Saturating fixed-point multiplication (the product of two scaled
/// values is rescaled by `FX_ONE`, rounding toward zero).
pub open spec fn spec_fx_mul(a: int, b: int) -> int {
    spec_fx_clamp(spec_div_trunc(a * b, FX_ONE as int))
}

/// Saturating fixed-point division; zero when the divisor is not positive.
pub open spec fn spec_fx_div(a: int, b: int) -> int {
    if b > 0 {
        spec_fx_clamp(spec_div_trunc(a * (FX_ONE as int), b))
    } else {
        0
    }
}

/// Halve a value, rounding toward zero.
pub open spec fn spec_fx_half(a: int) -> int {
    spec_div_trunc(a, 2)
}

/// Minimum of two values.
pub open spec fn spec_min(a: int, b: int) -> int {
    if a <= b {
        a
    } else {
        b
    }
}

/// Maximum of two values.
pub open spec fn spec_max(a: int, b: int) -> int {
    if a >= b {
        a
    } else {
        b
    }
}

/// Clamp a wide intermediate value back to a representable `i64`.
fn fx_clamp_wide(v: i128) -> (r: i64)
    ensures
        r as int == spec_fx_clamp(v as int),
        fx_in_range(r as int),
{
    if v > FX_MAX as i128 {
        FX_MAX
    } else if v < -(FX_MAX as i128) {
        -FX_MAX
    } else {
        v as i64
    }
}

/// Divide a wide value by a positive divisor, rounding toward zero.
fn div_trunc_wide(a: i128, d: i128) -> (r: i128)
    requires
        0 < d,
        -(i128::MAX as int) <= a <= i128::MAX as int,
    ensures
        r as int == spec_div_trunc(a as int, d as int),
{
    if a >= 0 {
        ((a as u128) / (d as u128)) as i128
    } else {
        let m: u128 = (-a) as u128;
        let q: u128 = m / (d as u128);
        assert(q <= m) by {
            vstd::arithmetic::div_mod::lemma_div_nonincreasing(m as int, d as int);
        }
        -(q as i128)
    }
}

pub fn fx_add(a: i64, b: i64) -> (r: i64)
    requires
        fx_in_range(a as int),
        fx_in_range(b as int),
    ensures
        r as int == spec_fx_add(a as int, b as int),
        fx_in_range(r as int),
{
    fx_clamp_wide(a as i128 + b as i128)
}

pub fn fx_sub(a: i64, b: i64) -> (r: i64)
    requires
        fx_in_range(a as int),
        fx_in_range(b as int),
    ensures
        r as int == spec_fx_sub(a as int, b as int),
        fx_in_range(r as int),
{
    fx_clamp_wide(a as i128 - b as i128)
}

pub fn fx_mul(a: i64, b: i64) -> (r: i64)
    requires
        fx_in_range(a as int),
        fx_in_range(b as int),
    ensures
        r as int == spec_fx_mul(a as int, b as int),
        fx_in_range(r as int),
{
    proof {
        let m = FX_MAX as int;
        assert(-(m * m) <= (a as int) * (b as int) <= m * m) by (nonlinear_arith)
            requires
                -m <= a as int <= m,
                -m <= b as int <= m,
        ;
    }
    let p: i128 = (a as i128) * (b as i128);
    let q: i128 = div_trunc_wide(p, FX_ONE as i128);
    fx_clamp_wide(q)
}

pub fn fx_div(a: i64, b: i64) -> (r: i64)
    requires
        fx_in_range(a as int),
        fx_in_range(b as int),
    ensures
        r as int == spec_fx_div(a as int, b as int),
        fx_in_range(r as int),
{
    if b <= 0 {
        0
    } else {
        let p: i128 = (a as i128) * (FX_ONE as i128);
        let q: i128 = div_trunc_wide(p, b as i128);
        fx_clamp_wide(q)
    }
}

pub fn fx_half(a: i64) -> (r: i64)
    requires
        fx_in_range(a as int),
    ensures
        r as int == spec_fx_half(a as int),
        fx_in_range(r as int),
{
    let q: i128 = div_trunc_wide(a as i128, 2);
    assert(fx_in_range(q as int)) by {
        if a >= 0 {
            vstd::arithmetic::div_mod::lemma_div_nonincreasing(a as int, 2);
        } else {
            vstd::arithmetic::div_mod::lemma_div_nonincreasing(-(a as int), 2);
        }
    }
    q as i64
}

pub fn fx_min(a: i64, b: i64) -> (r: i64)
    ensures
        r as int == spec_min(a as int, b as int),
{
    if a <= b {
        a
    } else {
        b
    }
}

pub fn fx_max(a: i64, b: i64) -> (r: i64)
    ensures
        r as int == spec_max(a as int, b as int),
{
    if a >= b {
        a
    } else {
        b
    }
}

} // verus!
