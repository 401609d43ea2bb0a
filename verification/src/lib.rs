//! The simulation core of a small 2D platformer: gravity, movement intent,
//! collision against the solid tiles of a map, and the commit of a position
//! inside the arena.
//!
//! A tick runs four stages, in this order and each once:
//!
//! 1. gravity lowers the vertical velocity and limits it to its range
//!    ([`physics::gravity_system`]);
//! 2. the input is written into the velocity, and the velocity becomes the
//!    displacement that the player intends ([`player::register_movement`],
//!    [`physics::velocity_system`]);
//! 3. the intended displacement is tested against the tiles and corrected
//!    ([`collision::collision`]; [`collision::player_movement_map_collision`]
//!    runs it on the tiles near the player, which [`map::TileMap::tiles_near`]
//!    finds as the broad phase);
//! 4. the corrected displacement is applied and the position is limited to
//!    the arena ([`player::move_player`]).
//!
//! [`player::tick`] runs all four on one player.
//!
//! Everything is computed on integers. Lengths and positions are whole world
//! units, velocities are whole world units per second, directions are
//! thousandths of full deflection, and the time that a tick covers is given
//! in milliseconds. Every quotient is rounded toward zero. A displacement is
//! therefore quantised to whole world units when it is derived from a
//! velocity, and the collision test and the commit use that same quantised
//! value. A host that wants sub-pixel motion picks a world unit smaller than a
//! pixel; the stock constants use a thousandth of a pixel.
//!
//! Boxes are given by their centre and their half-extents, so that an arena,
//! a tile and a player that are centred on a whole unit have edges on whole
//! units as well.

pub mod actions;
pub mod collision;
pub mod consts;
pub mod grid;
pub mod loading;
pub mod map;
pub mod math;
pub mod physics;
pub mod player;
