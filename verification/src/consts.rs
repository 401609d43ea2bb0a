//! The simulation's constants: the defaults, and the validated configuration
//! that carries them into every stage of a tick.

use vstd::prelude::*;
use crate::physics::Gravity;

verus! {

/// World units in one pixel, for the defaults below.
pub const UNITS_PER_PIXEL: u32 = 1000;

/// Width of one map tile.
pub const MAP_W: u32 = 32 * UNITS_PER_PIXEL;

/// Height of one map tile.
pub const MAP_H: u32 = 32 * UNITS_PER_PIXEL;

/// Width of the arena. A multiple of `MAP_W`, so that whole tiles fill it.
pub const ARENA_W: u32 = 640 * UNITS_PER_PIXEL;

/// Height of the arena. A multiple of `MAP_H`, so that whole tiles fill it.
pub const ARENA_H: u32 = 640 * UNITS_PER_PIXEL;

/// Edge of the square that the player's sprite covers.
pub const PLAYER_TILE_SIZE: u32 = 64 * UNITS_PER_PIXEL;

/// Horizontal speed at full deflection of the input, per second.
pub const HORIZONTAL_SPEED: i32 = 150_000;

/// Upward velocity that a jump sets, per second.
pub const JUMP_IMPULSE: i32 = 450_000;

/// Downward acceleration, per second squared.
pub const GRAVITY_ACCEL: i32 = 50_000;

/// Largest upward velocity, per second.
pub const TERMINAL_VELOCITY: i32 = 2_000_000;

/// Largest downward velocity, per second: the free height of the arena, half
/// its height less half the player's, covered in one second.
pub const FALL_VELOCITY: i32 = -288_000;

/// Why a configuration was rejected.
#[derive(Debug, Clone, Copy, PartialEq, Eq, Structural)]
pub enum ConfigError {
    /// The horizontal speed is negative.
    NegativeSpeed,
    /// The jump impulse is negative.
    NegativeJumpImpulse,
    /// The gravity acceleration is negative.
    NegativeGravity,
    /// The lower limit of the vertical velocity lies above the upper one.
    EmptyVelocityRange,
    /// A tile has no width or no height.
    ZeroTileSize,
    /// The arena is smaller than the player's sprite.
    ArenaTooSmall,
}

/// The constants that the stages of a tick read. All lengths are half-extents:
/// a box reaches that far from its centre to either side.
#[derive(Debug, Clone, Copy, PartialEq, Eq, Structural)]
pub struct SimConfig {
    /// Horizontal speed at full deflection of the input.
    pub horizontal_speed: i32,
    /// Vertical velocity that a new jump sets.
    pub jump_impulse: i32,
    /// Downward acceleration.
    pub gravity: Gravity,
    /// Lower limit of the vertical velocity.
    pub v_min: i32,
    /// Upper limit of the vertical velocity.
    pub v_max: i32,
    /// Half the width of a tile.
    pub tile_half_w: u32,
    /// Half the height of a tile.
    pub tile_half_h: u32,
    /// Half the width of the arena.
    pub arena_half_w: u32,
    /// Half the height of the arena.
    pub arena_half_h: u32,
    /// Half the width of the player's collision box.
    pub player_box_half_w: u32,
    /// Half the height of the player's collision box.
    pub player_box_half_h: u32,
    /// Half the width of the player's sprite.
    pub player_half_w: u32,
    /// Half the height of the player's sprite.
    pub player_half_h: u32,
}

impl SimConfig {
    /// The rule that a configuration breaks first, if it breaks one.
    pub open spec fn first_error(&self) -> Option<ConfigError> {
        if self.horizontal_speed < 0 {
            Some(ConfigError::NegativeSpeed)
        } else if self.jump_impulse < 0 {
            Some(ConfigError::NegativeJumpImpulse)
        } else if self.gravity.0 < 0 {
            Some(ConfigError::NegativeGravity)
        } else if self.v_min > self.v_max {
            Some(ConfigError::EmptyVelocityRange)
        } else if self.tile_half_w == 0 || self.tile_half_h == 0 {
            Some(ConfigError::ZeroTileSize)
        } else if self.player_half_w > self.arena_half_w || self.player_half_h
            > self.arena_half_h {
            Some(ConfigError::ArenaTooSmall)
        } else {
            None
        }
    }

    /// A configuration that every stage accepts.
    pub open spec fn wf(&self) -> bool {
        &&& self.horizontal_speed >= 0
        &&& self.jump_impulse >= 0
        &&& self.gravity.0 >= 0
        &&& self.v_min <= self.v_max
        &&& self.tile_half_w > 0
        &&& self.tile_half_h > 0
        &&& self.player_half_w <= self.arena_half_w
        &&& self.player_half_h <= self.arena_half_h
    }

    /// The largest distance from the arena's centre that the player's centre
    /// may have along X.
    pub open spec fn playable_half_w(&self) -> int {
        self.arena_half_w - self.player_half_w
    }

    /// The largest distance from the arena's centre that the player's centre
    /// may have along Y.
    pub open spec fn playable_half_h(&self) -> int {
        self.arena_half_h - self.player_half_h
    }

    /// Checks a configuration at load time and names the first rule it breaks.
    pub fn validate(&self) -> (r: Result<(), ConfigError>)
        ensures
            r is Ok <==> self.wf(),
            r is Err ==> self.first_error() == Some(r->Err_0),
            r is Ok ==> self.first_error() is None,
    {
        if self.horizontal_speed < 0 {
            Err(ConfigError::NegativeSpeed)
        } else if self.jump_impulse < 0 {
            Err(ConfigError::NegativeJumpImpulse)
        } else if self.gravity.0 < 0 {
            Err(ConfigError::NegativeGravity)
        } else if self.v_min > self.v_max {
            Err(ConfigError::EmptyVelocityRange)
        } else if self.tile_half_w == 0 || self.tile_half_h == 0 {
            Err(ConfigError::ZeroTileSize)
        } else if self.player_half_w > self.arena_half_w || self.player_half_h
            > self.arena_half_h {
            Err(ConfigError::ArenaTooSmall)
        } else {
            Ok(())
        }
    }
}

impl Default for SimConfig {
    /// The constants of the stock game: a 640 by 640 pixel arena of 32 pixel
    /// tiles and a 64 pixel player whose collision box is half as high.
    fn default() -> (c: SimConfig)
        ensures
            c.wf(),
            c == (SimConfig {
                horizontal_speed: HORIZONTAL_SPEED,
                jump_impulse: JUMP_IMPULSE,
                gravity: Gravity(GRAVITY_ACCEL),
                v_min: FALL_VELOCITY,
                v_max: TERMINAL_VELOCITY,
                tile_half_w: 16_000,
                tile_half_h: 16_000,
                arena_half_w: 320_000,
                arena_half_h: 320_000,
                player_box_half_w: 32_000,
                player_box_half_h: 16_000,
                player_half_w: 32_000,
                player_half_h: 32_000,
            }),
    {
        SimConfig {
            horizontal_speed: HORIZONTAL_SPEED,
            jump_impulse: JUMP_IMPULSE,
            gravity: Gravity(GRAVITY_ACCEL),
            v_min: FALL_VELOCITY,
            v_max: TERMINAL_VELOCITY,
            tile_half_w: MAP_W / 2,
            tile_half_h: MAP_H / 2,
            arena_half_w: ARENA_W / 2,
            arena_half_h: ARENA_H / 2,
            player_box_half_w: PLAYER_TILE_SIZE / 2,
            player_box_half_h: PLAYER_TILE_SIZE / 4,
            player_half_w: PLAYER_TILE_SIZE / 2,
            player_half_h: PLAYER_TILE_SIZE / 2,
        }
    }
}

} // verus!
