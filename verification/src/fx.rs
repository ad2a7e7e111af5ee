//! Fixed-point scalar arithmetic.
//!
//! Every physical quantity of the simulation (positions, sizes, velocities,
//! masses, friction coefficients, time steps) is an `i64` holding a real
//! number scaled by [`FX_SCALE`].  The scale is chosen so that the tick
//! length 1/60 s, the contact margin 0.01 and every constant of the scene
//! are represented exactly.
//!
//! The operations are total: results are clipped to `[-FX_LIMIT, FX_LIMIT]`,
//! products and quotients round toward zero, and a division by zero yields
//! zero.  Each executable operation is specified exactly by the spec
//! function of the same name.

use vstd::prelude::*;

verus! {

/// Number of fixed-point units in 1.0.
pub const FX_SCALE: i64 = 3600;

/// Largest representable magnitude; the range is kept symmetric so that
/// negation is total.
pub const FX_LIMIT: i64 = i64::MAX;

/// Magnitude of an integer.
pub open spec fn spec_abs(x: int) -> int {
    if x >= 0 {
        x
    } else {
        -x
    }
}

/// Clip an unbounded result into the representable range.
pub open spec fn spec_clip(x: int) -> int {
    if x > FX_LIMIT {
        FX_LIMIT as int
    } else if x < -(FX_LIMIT as int) {
        -(FX_LIMIT as int)
    } else {
        x
    }
}

/// A clipped value, as a fixed-point scalar.
pub open spec fn fx_of(x: int) -> i64 {
    spec_clip(x) as i64
}

/// Division truncating toward zero (the divisor must not be zero).
pub open spec fn spec_tdiv(a: int, b: int) -> int {
    let q = spec_abs(a) / spec_abs(b);
    if (a >= 0) == (b >= 0) {
        q
    } else {
        -q
    }
}

pub open spec fn spec_fx_add(a: i64, b: i64) -> i64 {
    fx_of(a + b)
}

pub open spec fn spec_fx_sub(a: i64, b: i64) -> i64 {
    fx_of(a - b)
}

pub open spec fn spec_fx_neg(a: i64) -> i64 {
    fx_of(-a)
}

pub open spec fn spec_fx_abs(a: i64) -> i64 {
    fx_of(spec_abs(a as int))
}

/// Fixed-point product: the integer product rescaled, rounded toward zero.
pub open spec fn spec_fx_mul(a: i64, b: i64) -> i64 {
    fx_of(spec_tdiv(a * b, FX_SCALE as int))
}

/// Fixed-point quotient, rounded toward zero; zero when the divisor is zero.
pub open spec fn spec_fx_div(a: i64, b: i64) -> i64 {
    if b == 0 {
        0
    } else {
        fx_of(spec_tdiv(a * FX_SCALE, b as int))
    }
}

/// The product of two scalar-range factors stays strictly inside the wide
/// intermediate range.
proof fn lemma_product_in_wide_range(a: int, b: int)
    requires
        -0x8000_0000_0000_0000 <= a <= 0x7fff_ffff_ffff_ffff,
        -0x8000_0000_0000_0000 <= b <= 0x7fff_ffff_ffff_ffff,
    ensures
        -0x8000_0000_0000_0000_0000_0000_0000_0000 < a * b,
        a * b < 0x8000_0000_0000_0000_0000_0000_0000_0000,
{
    assert(-0x8000_0000_0000_0000_0000_0000_0000_0000 < a * b
        < 0x8000_0000_0000_0000_0000_0000_0000_0000) by (nonlinear_arith)
        requires
            -0x8000_0000_0000_0000 <= a <= 0x7fff_ffff_ffff_ffff,
            -0x8000_0000_0000_0000 <= b <= 0x7fff_ffff_ffff_ffff,
    ;
}

/// Clip a wide intermediate result back to a scalar.
pub(crate) fn clip128(x: i128) -> (r: i64)
    ensures
        r == fx_of(x as int),
{
    if x > FX_LIMIT as i128 {
        FX_LIMIT
    } else if x < -(FX_LIMIT as i128) {
        -FX_LIMIT
    } else {
        x as i64
    }
}

/// Division of wide intermediates truncating toward zero.
fn tdiv128(a: i128, b: i128) -> (r: i128)
    requires
        b != 0,
        a > i128::MIN,
        b > i128::MIN,
    ensures
        r == spec_tdiv(a as int, b as int),
        spec_abs(r as int) <= spec_abs(a as int),
{
    let ua: u128 = if a >= 0 {
        a as u128
    } else {
        (-a) as u128
    };
    let ub: u128 = if b >= 0 {
        b as u128
    } else {
        (-b) as u128
    };
    let q: u128 = ua / ub;
    assert(q <= ua) by {
        assert(ub >= 1);
        vstd::arithmetic::div_mod::lemma_div_is_ordered_by_denominator(ua as int, 1, ub as int);
    }
    if (a >= 0) == (b >= 0) {
        q as i128
    } else {
        -(q as i128)
    }
}

#[verifier::when_used_as_spec(spec_fx_add)]
pub fn fx_add(a: i64, b: i64) -> (r: i64)
    ensures
        r == spec_fx_add(a, b),
{
    clip128(a as i128 + b as i128)
}

#[verifier::when_used_as_spec(spec_fx_sub)]
pub fn fx_sub(a: i64, b: i64) -> (r: i64)
    ensures
        r == spec_fx_sub(a, b),
{
    clip128(a as i128 - b as i128)
}

#[verifier::when_used_as_spec(spec_fx_neg)]
pub fn fx_neg(a: i64) -> (r: i64)
    ensures
        r == spec_fx_neg(a),
{
    clip128(-(a as i128))
}

#[verifier::when_used_as_spec(spec_fx_abs)]
pub fn fx_abs(a: i64) -> (r: i64)
    ensures
        r == spec_fx_abs(a),
{
    if a >= 0 {
        a
    } else {
        clip128(-(a as i128))
    }
}

#[verifier::when_used_as_spec(spec_fx_mul)]
pub fn fx_mul(a: i64, b: i64) -> (r: i64)
    ensures
        r == spec_fx_mul(a, b),
{
    proof {
        lemma_product_in_wide_range(a as int, b as int);
    }
    let p: i128 = (a as i128) * (b as i128);
    let q: i128 = tdiv128(p, FX_SCALE as i128);
    clip128(q)
}

#[verifier::when_used_as_spec(spec_fx_div)]
pub fn fx_div(a: i64, b: i64) -> (r: i64)
    ensures
        r == spec_fx_div(a, b),
{
    if b == 0 {
        0
    } else {
        proof {
            lemma_product_in_wide_range(a as int, FX_SCALE as int);
        }
        let n: i128 = (a as i128) * (FX_SCALE as i128);
        let q: i128 = tdiv128(n, b as i128);
        clip128(q)
    }
}

} // verus!
