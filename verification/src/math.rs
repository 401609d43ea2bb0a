//! Integer vectors and the few arithmetic rules that the simulation shares.

use vstd::prelude::*;

verus! {

/// Milliseconds in one second: the scale of a tick's duration.
pub const MILLIS_PER_SECOND: i64 = 1000;

/// A velocity, in world units per second.
#[derive(Debug, Clone, Copy, PartialEq, Eq, Structural)]
pub struct Vec2 {
    pub x: i32,
    pub y: i32,
}

/// A position or a displacement in world units; `z` is the draw depth.
#[derive(Debug, Clone, Copy, PartialEq, Eq, Structural)]
pub struct Vec3 {
    pub x: i64,
    pub y: i64,
    pub z: i64,
}

impl Vec2 {
    /// The zero velocity.
    pub fn zero() -> (v: Vec2)
        ensures
            v == (Vec2 { x: 0, y: 0 }),
    {
        Vec2 { x: 0, y: 0 }
    }
}

impl Vec3 {
    /// The zero displacement.
    pub fn zero() -> (v: Vec3)
        ensures
            v == (Vec3 { x: 0, y: 0, z: 0 }),
    {
        Vec3 { x: 0, y: 0, z: 0 }
    }
}

/// The quotient of `a` by a positive `b`, rounded toward zero.
pub open spec fn trunc_div(a: int, b: int) -> int
    recommends
        b > 0,
{
    if a >= 0 {
        a / b
    } else {
        -((-a) / b)
    }
}

/// `v` limited to the range from `lo` to `hi`.
pub open spec fn clamp(v: int, lo: int, hi: int) -> int
    recommends
        lo <= hi,
{
    if v < lo {
        lo
    } else if v > hi {
        hi
    } else {
        v
    }
}

/// What a rate per second amounts to over `dt_ms` milliseconds, in whole units.
pub open spec fn per_tick(rate: int, dt_ms: int) -> int {
    trunc_div(rate * dt_ms, MILLIS_PER_SECOND as int)
}

/// The product of a 32-bit signed and a 32-bit unsigned number fits in 64 bits.
pub proof fn lemma_rate_product_fits(rate: i32, dt_ms: u32)
    ensures
        i64::MIN <= (rate as int) * (dt_ms as int) <= i64::MAX,
{
    assert(-0x8000_0000_0000_0000 <= (rate as int) * (dt_ms as int) < 0x8000_0000_0000_0000)
        by (nonlinear_arith)
        requires
            -0x8000_0000 <= rate < 0x8000_0000,
            0 <= dt_ms < 0x1_0000_0000,
    ;
}

/// Computes `per_tick` for a 32-bit rate.
pub fn rate_over(rate: i32, dt_ms: u32) -> (r: i64)
    ensures
        r == per_tick(rate as int, dt_ms as int),
{
    proof {
        lemma_rate_product_fits(rate, dt_ms);
    }
    let product: i64 = (rate as i64) * (dt_ms as i64);
    product / MILLIS_PER_SECOND
}

/// Computes `clamp` for a 128-bit value and 64-bit bounds.
pub fn clamp_to(v: i128, lo: i64, hi: i64) -> (r: i64)
    ensures
        r == clamp(v as int, lo as int, hi as int),
{
    if v < lo as i128 {
        lo
    } else if v > hi as i128 {
        hi
    } else {
        v as i64
    }
}

} // verus!
