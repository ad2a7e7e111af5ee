//! Two-dimensional fixed-point vectors.
//!
//! `Vec2` serves both as a point (a box's lower-left corner) and as a
//! displacement or velocity.  All componentwise operations are exact
//! mirrors of the scalar operations in [`crate::fx`].

use vstd::prelude::*;

use crate::fx::fx_add;
use crate::fx::fx_div;
use crate::fx::fx_mul;
use crate::fx::fx_neg;
use crate::fx::fx_sub;
use crate::fx::spec_fx_add;
use crate::fx::spec_fx_div;
use crate::fx::spec_fx_mul;
use crate::fx::spec_fx_neg;
use crate::fx::spec_fx_sub;

verus! {

#[derive(Clone, Copy, Debug, PartialEq, Eq, Structural)]
pub struct Vec2 {
    pub x: i64,
    pub y: i64,
}

pub open spec fn spec_v2(x: i64, y: i64) -> Vec2 {
    Vec2 { x, y }
}

/// Build a vector from its components.
#[verifier::when_used_as_spec(spec_v2)]
pub fn v2(x: i64, y: i64) -> (r: Vec2)
    ensures
        r == spec_v2(x, y),
{
    Vec2 { x, y }
}

pub open spec fn spec_v2_zero() -> Vec2 {
    Vec2 { x: 0, y: 0 }
}

#[verifier::when_used_as_spec(spec_v2_zero)]
pub fn v2_zero() -> (r: Vec2)
    ensures
        r == spec_v2_zero(),
{
    Vec2 { x: 0, y: 0 }
}

pub open spec fn spec_v2_add(a: Vec2, b: Vec2) -> Vec2 {
    Vec2 { x: spec_fx_add(a.x, b.x), y: spec_fx_add(a.y, b.y) }
}

#[verifier::when_used_as_spec(spec_v2_add)]
pub fn v2_add(a: Vec2, b: Vec2) -> (r: Vec2)
    ensures
        r == spec_v2_add(a, b),
{
    Vec2 { x: fx_add(a.x, b.x), y: fx_add(a.y, b.y) }
}

pub open spec fn spec_v2_sub(a: Vec2, b: Vec2) -> Vec2 {
    Vec2 { x: spec_fx_sub(a.x, b.x), y: spec_fx_sub(a.y, b.y) }
}

#[verifier::when_used_as_spec(spec_v2_sub)]
pub fn v2_sub(a: Vec2, b: Vec2) -> (r: Vec2)
    ensures
        r == spec_v2_sub(a, b),
{
    Vec2 { x: fx_sub(a.x, b.x), y: fx_sub(a.y, b.y) }
}

pub open spec fn spec_v2_neg(a: Vec2) -> Vec2 {
    Vec2 { x: spec_fx_neg(a.x), y: spec_fx_neg(a.y) }
}

#[verifier::when_used_as_spec(spec_v2_neg)]
pub fn v2_neg(a: Vec2) -> (r: Vec2)
    ensures
        r == spec_v2_neg(a),
{
    Vec2 { x: fx_neg(a.x), y: fx_neg(a.y) }
}

/// Scale both components by a fixed-point factor.
pub open spec fn spec_v2_scale(a: Vec2, k: i64) -> Vec2 {
    Vec2 { x: spec_fx_mul(a.x, k), y: spec_fx_mul(a.y, k) }
}

#[verifier::when_used_as_spec(spec_v2_scale)]
pub fn v2_scale(a: Vec2, k: i64) -> (r: Vec2)
    ensures
        r == spec_v2_scale(a, k),
{
    Vec2 { x: fx_mul(a.x, k), y: fx_mul(a.y, k) }
}

/// Divide both components by a fixed-point divisor (zero divisor gives zero).
pub open spec fn spec_v2_div(a: Vec2, k: i64) -> Vec2 {
    Vec2 { x: spec_fx_div(a.x, k), y: spec_fx_div(a.y, k) }
}

#[verifier::when_used_as_spec(spec_v2_div)]
pub fn v2_div(a: Vec2, k: i64) -> (r: Vec2)
    ensures
        r == spec_v2_div(a, k),
{
    Vec2 { x: fx_div(a.x, k), y: fx_div(a.y, k) }
}

} // verus!
