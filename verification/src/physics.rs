//! Velocity, gravity and the displacement that a velocity proposes for a tick.

use vstd::prelude::*;
use crate::consts::SimConfig;
use crate::math::{clamp, clamp_to, per_tick, rate_over, Vec2, Vec3};

verus! {

/// The velocity of an entity, in world units per second.
#[derive(Debug, Clone, Copy, PartialEq, Eq, Structural)]
pub struct Velocity {
    pub vel: Vec2,
}

/// The displacement that an entity would like to make in the current tick.
///
/// It is computed anew in every tick and used up by the collision stage of
/// the same tick: the value cannot be copied, and the stage takes it whole.
#[derive(Debug, PartialEq, Eq, Structural)]
pub struct IntendentMovement {
    pub movement: Vec3,
}

/// The downward acceleration, in world units per second squared.
#[derive(Debug, Clone, Copy, PartialEq, Eq, Structural)]
pub struct Gravity(pub i32);

/// Marks an entity whose vertical velocity gravity changes.
#[derive(Debug, Clone, Copy, PartialEq, Eq, Structural)]
pub struct AffectedByGravity;

/// The velocity that gravity takes from an entity in a tick of `dt_ms`
/// milliseconds.
pub open spec fn gravity_step(gravity: Gravity, dt_ms: u32) -> int {
    per_tick(gravity.0 as int, dt_ms as int)
}

/// The vertical velocity after one tick of gravity: the velocity before, less
/// the step of gravity, limited to the configured range.
pub open spec fn fall(cfg: SimConfig, vy: i32, dt_ms: u32) -> int {
    clamp(vy - gravity_step(cfg.gravity, dt_ms), cfg.v_min as int, cfg.v_max as int)
}

/// The displacement that a velocity covers in `dt_ms` milliseconds, each
/// component rounded toward zero to whole world units. The draw depth does not
/// move.
pub open spec fn displacement(velocity: Velocity, dt_ms: u32) -> Vec3 {
    Vec3 {
        x: per_tick(velocity.vel.x as int, dt_ms as int) as i64,
        y: per_tick(velocity.vel.y as int, dt_ms as int) as i64,
        z: 0,
    }
}

/// The movement that an entity intends in a tick. An entity that has no input
/// pending and no vertical velocity intends none.
pub open spec fn intent(pending_input: bool, velocity: Velocity, dt_ms: u32) -> Option<
    IntendentMovement,
> {
    if !pending_input && velocity.vel.y == 0 {
        None
    } else {
        Some(IntendentMovement { movement: displacement(velocity, dt_ms) })
    }
}

/// The gravity stage: lowers the vertical velocity of an entity that gravity
/// affects by the step of this tick and limits it to the configured range.
/// The velocity of any other entity, and every horizontal velocity, stays.
pub fn gravity_system(
    cfg: &SimConfig,
    dt_ms: u32,
    affected: Option<&AffectedByGravity>,
    velocity: &mut Velocity,
)
    ensures
        final(velocity).vel.x == old(velocity).vel.x,
        final(velocity).vel.y == (if affected is Some {
            fall(*cfg, old(velocity).vel.y, dt_ms)
        } else {
            old(velocity).vel.y as int
        }),
{
    if affected.is_some() {
        let step = rate_over(cfg.gravity.0, dt_ms);
        let lowered = velocity.vel.y as i128 - step as i128;
        let limited = clamp_to(lowered, cfg.v_min as i64, cfg.v_max as i64);
        velocity.vel.y = limited as i32;
    }
}

/// The second half of the intent stage: turns the velocity of an entity into
/// the displacement that it intends for this tick.
pub fn velocity_system(dt_ms: u32, pending_input: bool, velocity: &Velocity) -> (r: Option<
    IntendentMovement,
>)
    ensures
        r == intent(pending_input, *velocity, dt_ms),
{
    if !pending_input && velocity.vel.y == 0 {
        None
    } else {
        let movement = Vec3 {
            x: rate_over(velocity.vel.x, dt_ms),
            y: rate_over(velocity.vel.y, dt_ms),
            z: 0,
        };
        Some(IntendentMovement { movement })
    }
}

/// Gravity lowers a vertical velocity that lies above the lower limit, in
/// every tick whose duration times the acceleration reaches one world unit per
/// second, and never below that limit; a velocity at the lower limit stays
/// there.
pub proof fn lemma_gravity_monotonic(cfg: SimConfig, vy: i32, dt_ms: u32)
    requires
        cfg.wf(),
        cfg.v_min <= vy,
        cfg.gravity.0 * dt_ms >= 1000,
    ensures
        gravity_step(cfg.gravity, dt_ms) > 0,
        vy > cfg.v_min ==> cfg.v_min <= fall(cfg, vy, dt_ms) < vy,
        vy == cfg.v_min ==> fall(cfg, vy, dt_ms) == cfg.v_min,
{
}

} // verus!
