//! The player: its animation, its reaction to input, and the commit of its
//! position.

use vstd::prelude::*;
use crate::actions::{Actions, DIRECTION_UNIT};
use crate::collision::{player_movement_map_collision, resolve, Aabb};
use crate::consts::SimConfig;
use crate::map::{Tile, TileMap};
use crate::math::{clamp, clamp_to, trunc_div, Vec2, Vec3};
use crate::physics::{fall, gravity_system, intent, velocity_system, AffectedByGravity, Velocity};

verus! {

/// The animations of the player's sprite.
#[derive(Debug, PartialEq, Eq, Clone, Copy, Structural)]
pub enum Animation {
    Stay,
    Walk,
    Jump,
}

/// The animation that the player's sprite runs, and the number of its frames.
#[derive(Debug, PartialEq, Eq, Clone, Copy, Structural)]
pub struct PlayerAnim {
    pub anim: Animation,
    pub n_frames: usize,
}

/// What the simulation sets of a sprite: the frame shown, and whether the
/// image is mirrored.
#[derive(Debug, PartialEq, Eq, Clone, Copy, Structural)]
pub struct SpriteFrame {
    pub index: u32,
    pub flip_x: bool,
}

/// The displacement that is applied to an entity in the current tick, after
/// the collision stage has corrected what the entity intended. The commit
/// stage uses it up.
#[derive(Debug, PartialEq, Eq, Structural)]
pub struct FinaMovement {
    pub movement: Vec3,
}

/// Marks the entity that the input steers, and remembers whether the jump
/// input was already held in the tick before.
#[derive(Debug, Clone, Copy, PartialEq, Eq, Structural)]
pub struct Player {
    pub jump_held: bool,
}

impl Animation {
    /// The animation that fits a velocity: rising is a jump, moving sideways
    /// is a walk, anything else is standing.
    pub open spec fn of_velocity(velocity: Velocity) -> Animation {
        if velocity.vel.y > 0 {
            Animation::Jump
        } else if velocity.vel.x != 0 {
            Animation::Walk
        } else {
            Animation::Stay
        }
    }

    /// The number of frames that the animation cycles through.
    pub open spec fn frames(self) -> usize {
        match self {
            Animation::Stay => 2,
            Animation::Walk => 7,
            Animation::Jump => 3,
        }
    }
}

/// The frame after `index` in a cycle of `n_frames` frames.
pub open spec fn next_frame(index: u32, n_frames: usize) -> u32 {
    let next = (index + 1) % (n_frames as int);
    if next > u32::MAX {
        0
    } else {
        next as u32
    }
}

/// Advances the sprite by one frame of its animation when the frame timer has
/// run out, and leaves it alone otherwise.
pub fn anim_player(finished: bool, sprite: &mut SpriteFrame, player_anim: &PlayerAnim)
    requires
        player_anim.n_frames > 0,
    ensures
        final(sprite).flip_x == old(sprite).flip_x,
        final(sprite).index == (if finished {
            next_frame(old(sprite).index, player_anim.n_frames)
        } else {
            old(sprite).index
        }),
{
    if finished {
        let next: u64 = (sprite.index as u64 + 1) % (player_anim.n_frames as u64);
        if next > u32::MAX as u64 {
            sprite.index = 0;
        } else {
            sprite.index = next as u32;
        }
    }
}

/// Chooses the animation that fits the velocity and mirrors the sprite by the
/// horizontal direction.
///
/// Where the fitting animation already runs, nothing but the mirroring is
/// set. Otherwise the animation is switched, with its number of frames, the
/// sprite starts over at frame 0, and the result names the animation whose
/// images the host has to put in place.
pub fn change_anim(anim: &mut PlayerAnim, sprite: &mut SpriteFrame, velocity: &Velocity) -> (switch:
    Option<Animation>)
    ensures
        final(sprite).flip_x == (velocity.vel.x >= 0),
        old(anim).anim == Animation::of_velocity(*velocity) ==> {
            &&& switch is None
            &&& *final(anim) == *old(anim)
            &&& final(sprite).index == old(sprite).index
        },
        old(anim).anim != Animation::of_velocity(*velocity) ==> {
            &&& switch == Some(Animation::of_velocity(*velocity))
            &&& final(anim).anim == Animation::of_velocity(*velocity)
            &&& final(anim).n_frames == Animation::of_velocity(*velocity).frames()
            &&& final(sprite).index == 0
        },
{
    sprite.flip_x = velocity.vel.x >= 0;
    if velocity.vel.y > 0 {
        if anim.anim == Animation::Jump {
            return None;
        }
        sprite.index = 0;
        anim.anim = Animation::Jump;
        anim.n_frames = 3;
        Some(Animation::Jump)
    } else if velocity.vel.x != 0 {
        if anim.anim == Animation::Walk {
            return None;
        }
        sprite.index = 0;
        anim.anim = Animation::Walk;
        anim.n_frames = 7;
        Some(Animation::Walk)
    } else {
        if anim.anim == Animation::Stay {
            return None;
        }
        anim.anim = Animation::Stay;
        anim.n_frames = 2;
        sprite.index = 0;
        Some(Animation::Stay)
    }
}

/// The horizontal velocity that a deflection of `x` thousandths asks for,
/// rounded toward zero.
pub open spec fn steered_speed(cfg: SimConfig, x: i16) -> int {
    trunc_div(x as int * cfg.horizontal_speed as int, DIRECTION_UNIT as int)
}

/// What the input of a tick makes of the player and its velocity.
///
/// Without input the horizontal velocity is zero. With input it follows the
/// horizontal deflection. A vertical deflection is the jump input: in the
/// first tick in which it is held it replaces the vertical velocity by the
/// jump impulse, and in the ticks after, while it stays held, it does nothing.
pub open spec fn steer(cfg: SimConfig, actions: Actions, player: Player, velocity: Velocity) -> (
    Player,
    Velocity,
) {
    match actions.player_movement {
        None => (
            Player { jump_held: false },
            Velocity { vel: Vec2 { x: 0, y: velocity.vel.y } },
        ),
        Some(direction) => {
            let vx = steered_speed(cfg, direction.x) as i32;
            if direction.y != 0 {
                (
                    Player { jump_held: true },
                    Velocity {
                        vel: Vec2 {
                            x: vx,
                            y: if player.jump_held {
                                velocity.vel.y
                            } else {
                                cfg.jump_impulse
                            },
                        },
                    },
                )
            } else {
                (Player { jump_held: false }, Velocity { vel: Vec2 { x: vx, y: velocity.vel.y } })
            }
        },
    }
}

/// The horizontal velocity that a well-formed deflection asks for is no
/// faster than the configured speed.
pub proof fn lemma_steered_speed_bound(cfg: SimConfig, x: i16)
    requires
        cfg.wf(),
        -DIRECTION_UNIT <= x <= DIRECTION_UNIT,
    ensures
        -cfg.horizontal_speed <= steered_speed(cfg, x) <= cfg.horizontal_speed,
{
    let speed = cfg.horizontal_speed as int;
    assert(-1000 * speed <= x as int * speed <= 1000 * speed) by (nonlinear_arith)
        requires
            -1000 <= x <= 1000,
            0 <= speed,
    ;
}

/// The first half of the intent stage: writes what the input asks for into
/// the player's velocity.
pub fn register_movement(
    cfg: &SimConfig,
    actions: &Actions,
    player: &mut Player,
    velocity: &mut Velocity,
)
    requires
        cfg.wf(),
        actions.wf(),
    ensures
        (*final(player), *final(velocity)) == steer(*cfg, *actions, *old(player), *old(velocity)),
{
    match actions.player_movement {
        None => {
            velocity.vel.x = 0;
            player.jump_held = false;
        },
        Some(direction) => {
            proof {
                lemma_steered_speed_bound(*cfg, direction.x);
            }
            let product: i64 = (direction.x as i64) * (cfg.horizontal_speed as i64);
            velocity.vel.x = (product / (DIRECTION_UNIT as i64)) as i32;
            if direction.y != 0 {
                if !player.jump_held {
                    velocity.vel.y = cfg.jump_impulse;
                }
                player.jump_held = true;
            } else {
                player.jump_held = false;
            }
        },
    }
}

/// The position lies in the part of the arena that the player's sprite does
/// not leave: on each axis, no farther from the centre than half the arena
/// less half the sprite.
pub open spec fn in_bounds(cfg: SimConfig, position: Vec3) -> bool {
    &&& -cfg.playable_half_w() <= position.x <= cfg.playable_half_w()
    &&& -cfg.playable_half_h() <= position.y <= cfg.playable_half_h()
}

/// The position after a displacement was applied and the result was limited
/// to the playable part of the arena. The draw depth stays.
pub open spec fn committed(cfg: SimConfig, position: Vec3, movement: Vec3) -> Vec3 {
    Vec3 {
        x: clamp(position.x + movement.x, -cfg.playable_half_w(), cfg.playable_half_w()) as i64,
        y: clamp(position.y + movement.y, -cfg.playable_half_h(), cfg.playable_half_h()) as i64,
        z: position.z,
    }
}

/// The commit stage: applies the corrected displacement to the position and
/// limits the result to the playable part of the arena, whatever the
/// displacement was.
pub fn move_player(cfg: &SimConfig, position: &mut Vec3, movement: FinaMovement)
    requires
        cfg.wf(),
    ensures
        *final(position) == committed(*cfg, *old(position), movement.movement),
        in_bounds(*cfg, *final(position)),
        movement.movement.x == 0 && movement.movement.y == 0 && in_bounds(*cfg, *old(position))
            ==> *final(position) == *old(position),
{
    let limit_x: i64 = (cfg.arena_half_w - cfg.player_half_w) as i64;
    let limit_y: i64 = (cfg.arena_half_h - cfg.player_half_h) as i64;
    let x = position.x as i128 + movement.movement.x as i128;
    let y = position.y as i128 + movement.movement.y as i128;
    position.x = clamp_to(x, -limit_x, limit_x);
    position.y = clamp_to(y, -limit_y, limit_y);
}

/// Everything that makes up the player at one moment.
#[derive(Debug, Clone, Copy, PartialEq, Eq, Structural)]
pub struct PlayerBundle {
    pub player: Player,
    /// Centre of the sprite and of the collision box; `z` is the draw depth.
    pub position: Vec3,
    pub velocity: Velocity,
    /// Present where gravity acts on the player.
    pub gravity: Option<AffectedByGravity>,
    pub anim: PlayerAnim,
    pub sprite: SpriteFrame,
}

/// Milliseconds that one frame of an animation is shown.
pub const FRAME_MILLIS: u32 = 200;

/// Where the player starts along X: a hundred pixels left of the centre.
pub const SPAWN_X: i64 = -100_000;

/// The draw depth of the player.
pub const SPAWN_DEPTH: i64 = 2;

/// The player as a level starts: standing a hundred pixels left of the
/// arena's centre, at draw depth 2, at rest, under gravity.
pub fn spawn_player() -> (bundle: PlayerBundle)
    ensures
        bundle == (PlayerBundle {
            player: Player { jump_held: false },
            position: Vec3 { x: SPAWN_X, y: 0, z: SPAWN_DEPTH },
            velocity: Velocity { vel: Vec2 { x: 0, y: 0 } },
            gravity: Some(AffectedByGravity),
            anim: PlayerAnim { anim: Animation::Stay, n_frames: 2 },
            sprite: SpriteFrame { index: 0, flip_x: false },
        }),
{
    PlayerBundle {
        player: Player { jump_held: false },
        position: Vec3 { x: SPAWN_X, y: 0, z: SPAWN_DEPTH },
        velocity: Velocity { vel: Vec2::zero() },
        gravity: Some(AffectedByGravity),
        anim: PlayerAnim { anim: Animation::Stay, n_frames: 2 },
        sprite: SpriteFrame { index: 0, flip_x: false },
    }
}

/// The player's collision box at a position.
pub open spec fn spec_player_box(cfg: SimConfig, position: Vec3) -> Aabb {
    Aabb {
        center_x: position.x,
        center_y: position.y,
        half_w: cfg.player_box_half_w,
        half_h: cfg.player_box_half_h,
    }
}

/// The player's collision box at a position.
pub fn player_box(cfg: &SimConfig, position: &Vec3) -> (b: Aabb)
    ensures
        b == spec_player_box(*cfg, *position),
{
    Aabb {
        center_x: position.x,
        center_y: position.y,
        half_w: cfg.player_box_half_w,
        half_h: cfg.player_box_half_h,
    }
}

/// What a tick did, for the layers that draw: the displacement that the
/// player intended, if any, the displacement that the collision stage let
/// through, and the axes along which a tile stopped the player.
#[derive(Debug, Clone, Copy, PartialEq, Eq, Structural)]
pub struct TickReport {
    pub intended: Option<Vec3>,
    pub applied: Option<Vec3>,
    pub blocked_x: bool,
    pub blocked_y: bool,
}

/// The player's velocity and input latch after the gravity stage and the
/// first half of the intent stage.
pub open spec fn steered(
    cfg: SimConfig,
    actions: Actions,
    dt_ms: u32,
    before: PlayerBundle,
) -> (Player, Velocity) {
    let fallen = Velocity {
        vel: Vec2 {
            x: before.velocity.vel.x,
            y: if before.gravity is Some {
                fall(cfg, before.velocity.vel.y, dt_ms) as i32
            } else {
                before.velocity.vel.y
            },
        },
    };
    steer(cfg, actions, before.player, fallen)
}

/// What a tick reports, stage by stage.
pub open spec fn report_of(
    cfg: SimConfig,
    tiles: Seq<Tile>,
    actions: Actions,
    dt_ms: u32,
    before: PlayerBundle,
) -> TickReport {
    match intent(
        actions.player_movement is Some,
        steered(cfg, actions, dt_ms, before).1,
        dt_ms,
    ) {
        Some(i) => {
            let r = resolve(tiles, spec_player_box(cfg, before.position)@, i.movement);
            TickReport {
                intended: Some(i.movement),
                applied: Some(r.movement.movement),
                blocked_x: r.blocked_x,
                blocked_y: r.blocked_y,
            }
        },
        None => TickReport { intended: None, applied: None, blocked_x: false, blocked_y: false },
    }
}

/// The player after one tick: gravity, then intent, then collision against
/// the tiles from the position before the tick, then the commit. A player
/// that intends no movement keeps its position.
pub open spec fn after_tick(
    cfg: SimConfig,
    tiles: Seq<Tile>,
    actions: Actions,
    dt_ms: u32,
    before: PlayerBundle,
) -> PlayerBundle {
    let (player, velocity) = steered(cfg, actions, dt_ms, before);
    PlayerBundle {
        player,
        position: match report_of(cfg, tiles, actions, dt_ms, before).applied {
            Some(movement) => committed(cfg, before.position, movement),
            None => before.position,
        },
        velocity,
        gravity: before.gravity,
        anim: before.anim,
        sprite: before.sprite,
    }
}

/// Runs one tick of the simulation on the player: the gravity stage, the
/// intent stage, the collision stage and the commit stage, in this order and
/// each once.
pub fn tick(
    cfg: &SimConfig,
    map: &TileMap,
    actions: &Actions,
    dt_ms: u32,
    bundle: &mut PlayerBundle,
) -> (report: TickReport)
    requires
        cfg.wf(),
        actions.wf(),
    ensures
        *final(bundle) == after_tick(*cfg, map@.tiles, *actions, dt_ms, *old(bundle)),
        report == report_of(*cfg, map@.tiles, *actions, dt_ms, *old(bundle)),
        report.applied is Some ==> in_bounds(*cfg, final(bundle).position),
        in_bounds(*cfg, old(bundle).position) ==> in_bounds(*cfg, final(bundle).position),
{
    let mut velocity = bundle.velocity;
    let mut player = bundle.player;
    let mut position = bundle.position;
    match bundle.gravity {
        Some(affected) => gravity_system(cfg, dt_ms, Some(&affected), &mut velocity),
        None => gravity_system(cfg, dt_ms, None, &mut velocity),
    }
    register_movement(cfg, actions, &mut player, &mut velocity);
    let intended = velocity_system(dt_ms, actions.player_movement.is_some(), &velocity);
    let report = match intended {
        Some(movement) => {
            let wanted = movement.movement;
            let bounds = player_box(cfg, &position);
            let resolution = player_movement_map_collision(map, &bounds, movement);
            let applied = resolution.movement.movement;
            let blocked_x = resolution.blocked_x;
            let blocked_y = resolution.blocked_y;
            move_player(cfg, &mut position, resolution.movement);
            TickReport { intended: Some(wanted), applied: Some(applied), blocked_x, blocked_y }
        },
        None => TickReport { intended: None, applied: None, blocked_x: false, blocked_y: false },
    };
    bundle.velocity = velocity;
    bundle.player = player;
    bundle.position = position;
    report
}

/// In a tick in which no jump starts, a player under gravity leaves with the
/// vertical velocity that gravity alone gives it: lower than before while it
/// was above the lower limit, and at the lower limit once it was there.
pub proof fn lemma_tick_without_jump_falls(
    cfg: SimConfig,
    tiles: Seq<Tile>,
    actions: Actions,
    dt_ms: u32,
    before: PlayerBundle,
)
    requires
        cfg.wf(),
        before.gravity is Some,
        actions.player_movement is Some ==> actions.player_movement->Some_0.y == 0
            || before.player.jump_held,
        cfg.v_min <= before.velocity.vel.y,
        cfg.gravity.0 * dt_ms >= 1000,
    ensures
        after_tick(cfg, tiles, actions, dt_ms, before).velocity.vel.y == fall(
            cfg,
            before.velocity.vel.y,
            dt_ms,
        ),
        before.velocity.vel.y > cfg.v_min ==> cfg.v_min <= after_tick(
            cfg,
            tiles,
            actions,
            dt_ms,
            before,
        ).velocity.vel.y < before.velocity.vel.y,
        before.velocity.vel.y == cfg.v_min ==> after_tick(
            cfg,
            tiles,
            actions,
            dt_ms,
            before,
        ).velocity.vel.y == cfg.v_min,
{
    crate::physics::lemma_gravity_monotonic(cfg, before.velocity.vel.y, dt_ms);
}

} // verus!
