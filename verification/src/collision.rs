//! Axis-aligned boxes, the overlap test, and the resolution of a proposed
//! displacement against the solid tiles of a map.

use vstd::prelude::*;
use crate::map::{Tile, TileMap};
use crate::math::Vec3;
use crate::physics::IntendentMovement;
use crate::player::FinaMovement;

verus! {

/// Whether a tile stops movement.
#[derive(Debug, PartialEq, Eq, Clone, Copy, Structural)]
pub enum Collider {
    /// Entities cannot enter the tile.
    Solid,
    /// Entities pass through the tile.
    Phantom,
}

/// A box in the plane, as mathematics sees it: a centre and the distance that
/// the box reaches from it to either side on each axis.
pub struct Rect {
    pub cx: int,
    pub cy: int,
    pub hw: int,
    pub hh: int,
}

impl Rect {
    /// The box moved by `(dx, dy)`.
    pub open spec fn shifted(self, dx: int, dy: int) -> Rect {
        Rect { cx: self.cx + dx, cy: self.cy + dy, hw: self.hw, hh: self.hh }
    }

    /// The extents of the two boxes along X have more than a point in common.
    pub open spec fn overlaps_x(self, other: Rect) -> bool {
        self.cx - self.hw < other.cx + other.hw && other.cx - other.hw < self.cx + self.hw
    }

    /// The extents of the two boxes along Y have more than a point in common.
    pub open spec fn overlaps_y(self, other: Rect) -> bool {
        self.cy - self.hh < other.cy + other.hh && other.cy - other.hh < self.cy + self.hh
    }

    /// Two boxes overlap if and only if their extents overlap on both axes.
    /// Boxes that only touch do not overlap.
    pub open spec fn overlaps(self, other: Rect) -> bool {
        self.overlaps_x(other) && self.overlaps_y(other)
    }

    /// The stretch that this box passes over while it moves by `(dx, dy)`, from
    /// where it is to where it arrives, overlaps `other`.
    pub open spec fn sweep_overlaps(self, dx: int, dy: int, other: Rect) -> bool {
        let low_x = (if dx < 0 {
            self.cx + dx
        } else {
            self.cx
        }) - self.hw;
        let high_x = (if dx > 0 {
            self.cx + dx
        } else {
            self.cx
        }) + self.hw;
        let low_y = (if dy < 0 {
            self.cy + dy
        } else {
            self.cy
        }) - self.hh;
        let high_y = (if dy > 0 {
            self.cy + dy
        } else {
            self.cy
        }) + self.hh;
        &&& low_x < other.cx + other.hw
        &&& other.cx - other.hw < high_x
        &&& low_y < other.cy + other.hh
        &&& other.cy - other.hh < high_y
    }

    /// Length of the common extent along X; not positive where there is none.
    pub open spec fn depth_x(self, other: Rect) -> int {
        let right = if self.cx + self.hw <= other.cx + other.hw {
            self.cx + self.hw
        } else {
            other.cx + other.hw
        };
        let left = if self.cx - self.hw >= other.cx - other.hw {
            self.cx - self.hw
        } else {
            other.cx - other.hw
        };
        right - left
    }

    /// Length of the common extent along Y; not positive where there is none.
    pub open spec fn depth_y(self, other: Rect) -> int {
        let top = if self.cy + self.hh <= other.cy + other.hh {
            self.cy + self.hh
        } else {
            other.cy + other.hh
        };
        let bottom = if self.cy - self.hh >= other.cy - other.hh {
            self.cy - self.hh
        } else {
            other.cy - other.hh
        };
        top - bottom
    }
}

/// An axis-aligned bounding box in world units.
#[derive(Debug, Clone, Copy, PartialEq, Eq, Structural)]
pub struct Aabb {
    pub center_x: i64,
    pub center_y: i64,
    pub half_w: u32,
    pub half_h: u32,
}

impl View for Aabb {
    type V = Rect;

    open spec fn view(&self) -> Rect {
        Rect {
            cx: self.center_x as int,
            cy: self.center_y as int,
            hw: self.half_w as int,
            hh: self.half_h as int,
        }
    }
}

/// The common extent of `[a - ha, a + ha]` and `[b - hb, b + hb]`.
fn common_extent(a: i128, ha: u32, b: i128, hb: u32) -> (r: i128)
    requires
        -0x2_0000_0000_0000_0000 <= a <= 0x2_0000_0000_0000_0000,
        -0x2_0000_0000_0000_0000 <= b <= 0x2_0000_0000_0000_0000,
    ensures
        r == (if a + ha <= b + hb {
            a + ha
        } else {
            b + hb
        }) - (if a - ha >= b - hb {
            a - ha
        } else {
            b - hb
        }),
{
    let high = if a + ha as i128 <= b + hb as i128 {
        a + ha as i128
    } else {
        b + hb as i128
    };
    let low = if a - ha as i128 >= b - hb as i128 {
        a - ha as i128
    } else {
        b - hb as i128
    };
    high - low
}

impl Aabb {
    /// Tells whether this box, moved by `(dx, dy)`, overlaps `other`.
    pub fn overlaps_moved(&self, dx: i64, dy: i64, other: &Aabb) -> (r: bool)
        ensures
            r == self@.shifted(dx as int, dy as int).overlaps(other@),
    {
        let cx = self.center_x as i128 + dx as i128;
        let cy = self.center_y as i128 + dy as i128;
        let ox = other.center_x as i128;
        let oy = other.center_y as i128;
        cx - (self.half_w as i128) < ox + other.half_w as i128 && ox - (other.half_w as i128) < cx
            + self.half_w as i128 && cy - (self.half_h as i128) < oy + other.half_h as i128 && oy
            - (other.half_h as i128) < cy + self.half_h as i128
    }

    /// Tells whether this box overlaps `other`.
    pub fn overlaps(&self, other: &Aabb) -> (r: bool)
        ensures
            r == self@.overlaps(other@),
    {
        self.overlaps_moved(0, 0, other)
    }

    /// Tells whether moving this box by `(dx, dy)` lengthens the extent, on
    /// either axis, that it has in common with `other`.
    pub fn deepens(&self, dx: i64, dy: i64, other: &Aabb) -> (r: bool)
        ensures
            r == {
                let target = self@.shifted(dx as int, dy as int);
                target.depth_x(other@) > self@.depth_x(other@) || target.depth_y(other@)
                    > self@.depth_y(other@)
            },
    {
        let ox = other.center_x as i128;
        let oy = other.center_y as i128;
        let before_x = common_extent(self.center_x as i128, self.half_w, ox, other.half_w);
        let before_y = common_extent(self.center_y as i128, self.half_h, oy, other.half_h);
        let after_x = common_extent(
            self.center_x as i128 + dx as i128,
            self.half_w,
            ox,
            other.half_w,
        );
        let after_y = common_extent(
            self.center_y as i128 + dy as i128,
            self.half_h,
            oy,
            other.half_h,
        );
        after_x > before_x || after_y > before_y
    }
}

/// The tile refuses the move of `player` by `(dx, dy)`.
///
/// A solid tile refuses a move that ends in overlap with it, with one
/// exception, for a box that overlaps the tile already before the move: such a
/// move is let through as long as it lengthens the common extent on neither
/// axis. So an entity that was placed into a tile can stay, slide along and
/// leave, but cannot sink in deeper.
pub open spec fn blocks(tile: Tile, player: Rect, dx: int, dy: int) -> bool {
    let target = player.shifted(dx, dy);
    let bounds = tile.bounds@;
    &&& tile.is_solid()
    &&& target.overlaps(bounds)
    &&& (!player.overlaps(bounds) || target.depth_x(bounds) > player.depth_x(bounds)
        || target.depth_y(bounds) > player.depth_y(bounds))
}

/// Some tile of `tiles` refuses the move of `player` by `(dx, dy)`.
pub open spec fn any_blocks(tiles: Seq<Tile>, player: Rect, dx: int, dy: int) -> bool {
    exists|i: int| 0 <= i < tiles.len() && #[trigger] blocks(tiles[i], player, dx, dy)
}

/// What the collision stage hands on: the displacement to apply, and for each
/// axis whether a tile stopped the movement along it.
#[derive(Debug, PartialEq, Eq, Structural)]
pub struct Resolution {
    pub movement: FinaMovement,
    pub blocked_x: bool,
    pub blocked_y: bool,
}

/// The outcome of the collision stage for a box `player` that intends to move
/// by `intended`.
///
/// A move that no tile refuses is applied as it is. Otherwise each axis is
/// tried alone and every axis whose part of the move is refused is set to
/// zero. Where both parts pass alone and only the whole move is refused (a
/// diagonal step into a corner), the horizontal part is kept and the vertical
/// part is set to zero. The draw depth is never touched.
pub open spec fn resolve(tiles: Seq<Tile>, player: Rect, intended: Vec3) -> Resolution {
    let dx = intended.x as int;
    let dy = intended.y as int;
    if !any_blocks(tiles, player, dx, dy) {
        Resolution {
            movement: FinaMovement { movement: intended },
            blocked_x: false,
            blocked_y: false,
        }
    } else {
        let blocked_x = any_blocks(tiles, player, dx, 0);
        let blocked_y = any_blocks(tiles, player, 0, dy);
        if blocked_x && blocked_y {
            Resolution {
                movement: FinaMovement { movement: Vec3 { x: 0, y: 0, z: intended.z } },
                blocked_x: true,
                blocked_y: true,
            }
        } else if blocked_x {
            Resolution {
                movement: FinaMovement { movement: Vec3 { x: 0, y: intended.y, z: intended.z } },
                blocked_x: true,
                blocked_y: false,
            }
        } else {
            Resolution {
                movement: FinaMovement { movement: Vec3 { x: intended.x, y: 0, z: intended.z } },
                blocked_x: false,
                blocked_y: true,
            }
        }
    }
}

/// Tells whether `tile` refuses the move of `player` by `(dx, dy)`.
pub fn tile_blocks(tile: &Tile, player: &Aabb, dx: i64, dy: i64) -> (r: bool)
    ensures
        r == blocks(*tile, player@, dx as int, dy as int),
{
    tile.tiletype.collider() == Collider::Solid && player.overlaps_moved(dx, dy, &tile.bounds) && (
    !player.overlaps(&tile.bounds) || player.deepens(dx, dy, &tile.bounds))
}

/// Tells whether some tile refuses the move of `player` by `(dx, dy)`, in one
/// pass over the tiles.
pub fn any_tile_blocks(tiles: &Vec<Tile>, player: &Aabb, dx: i64, dy: i64) -> (hit: bool)
    ensures
        hit == any_blocks(tiles@, player@, dx as int, dy as int),
{
    let mut i: usize = 0;
    while i < tiles.len()
        invariant
            i <= tiles.len(),
            forall|j: int|
                0 <= j < i ==> !#[trigger] blocks(tiles@[j], player@, dx as int, dy as int),
        decreases tiles.len() - i,
    {
        if tile_blocks(&tiles[i], player, dx, dy) {
            return true;
        }
        i += 1;
    }
    false
}

/// The collision resolver: corrects the displacement that a box intends so
/// that the box enters none of the given tiles that is solid, and reports the
/// axes that were stopped.
///
/// The corrected displacement is one that no tile refuses. So a box that was
/// clear of every solid tile before is clear of every solid tile after it,
/// and a box that overlapped some tiles before overlaps no others after it.
/// Handed to the resolver again, from the same position, the corrected
/// displacement comes back unchanged.
///
/// The tiles are tested at most three times each, so the correction ends
/// after a number of steps that depends on the number of tiles alone.
pub fn collision(tiles: &Vec<Tile>, player: &Aabb, intended: IntendentMovement) -> (r:
    Resolution)
    ensures
        r == resolve(tiles@, player@, intended.movement),
        !any_blocks(tiles@, player@, r.movement.movement.x as int, r.movement.movement.y as int),
        forall|i: int|
            0 <= i < tiles@.len() && (#[trigger] tiles@[i]).is_solid() && player@.shifted(
                r.movement.movement.x as int,
                r.movement.movement.y as int,
            ).overlaps(tiles@[i].bounds@) ==> player@.overlaps(tiles@[i].bounds@),
{
    let m = intended.movement;
    proof {
        lemma_resolved_move_is_free(tiles@, player@, m);
        assert forall|i: int|
            0 <= i < tiles@.len() && (#[trigger] tiles@[i]).is_solid() && player@.shifted(
                resolve(tiles@, player@, m).movement.movement.x as int,
                resolve(tiles@, player@, m).movement.movement.y as int,
            ).overlaps(tiles@[i].bounds@) implies player@.overlaps(tiles@[i].bounds@) by {
            lemma_no_new_overlap(tiles@, player@, m, i);
        }
    }
    if !any_tile_blocks(tiles, player, m.x, m.y) {
        return Resolution {
            movement: FinaMovement { movement: m },
            blocked_x: false,
            blocked_y: false,
        };
    }
    let blocked_x = any_tile_blocks(tiles, player, m.x, 0);
    let blocked_y = any_tile_blocks(tiles, player, 0, m.y);
    if blocked_x && blocked_y {
        Resolution {
            movement: FinaMovement { movement: Vec3 { x: 0, y: 0, z: m.z } },
            blocked_x: true,
            blocked_y: true,
        }
    } else if blocked_x {
        Resolution {
            movement: FinaMovement { movement: Vec3 { x: 0, y: m.y, z: m.z } },
            blocked_x: true,
            blocked_y: false,
        }
    } else {
        Resolution {
            movement: FinaMovement { movement: Vec3 { x: m.x, y: 0, z: m.z } },
            blocked_x: false,
            blocked_y: true,
        }
    }
}

/// The collision stage: corrects the displacement that the player intends so
/// that its box enters no solid tile of the map, and reports the axes that
/// were stopped.
///
/// Only the tiles near the player are tested, and the outcome is the one
/// that a test against every tile of the map has.
pub fn player_movement_map_collision(
    map: &TileMap,
    player: &Aabb,
    intended: IntendentMovement,
) -> (r: Resolution)
    ensures
        r == resolve(map@.tiles, player@, intended.movement),
        !any_blocks(
            map@.tiles,
            player@,
            r.movement.movement.x as int,
            r.movement.movement.y as int,
        ),
        forall|i: int|
            0 <= i < map@.tiles.len() && (#[trigger] map@.tiles[i]).is_solid() && player@.shifted(
                r.movement.movement.x as int,
                r.movement.movement.y as int,
            ).overlaps(map@.tiles[i].bounds@) ==> player@.overlaps(map@.tiles[i].bounds@),
{
    let near = map.tiles_near(player, intended.movement.x, intended.movement.y);
    proof {
        let m = intended.movement;
        lemma_broad_phase(map@.tiles, near@, player@, m);
        lemma_resolved_move_is_free(map@.tiles, player@, m);
        assert forall|i: int|
            0 <= i < map@.tiles.len() && (#[trigger] map@.tiles[i]).is_solid() && player@.shifted(
                resolve(map@.tiles, player@, m).movement.movement.x as int,
                resolve(map@.tiles, player@, m).movement.movement.y as int,
            ).overlaps(map@.tiles[i].bounds@) implies player@.overlaps(map@.tiles[i].bounds@) by {
            lemma_no_new_overlap(map@.tiles, player@, m, i);
        }
    }
    collision(&near, player, intended)
}

/// A box that overlaps another after all of a move, after one component of
/// it, or after none of it, overlaps it somewhere on the stretch that the
/// move passes over.
pub proof fn lemma_sweep_holds_steps(player: Rect, dx: int, dy: int, ex: int, ey: int, other: Rect)
    requires
        ex == 0 || ex == dx,
        ey == 0 || ey == dy,
        player.shifted(ex, ey).overlaps(other),
    ensures
        player.sweep_overlaps(dx, dy, other),
{
}

/// Leaving out tiles that the stretch of the move does not overlap changes
/// nothing about whether some tile refuses the move or a part of it.
pub proof fn lemma_near_tiles_block_alike(
    all: Seq<Tile>,
    near: Seq<Tile>,
    player: Rect,
    dx: int,
    dy: int,
    ex: int,
    ey: int,
)
    requires
        ex == 0 || ex == dx,
        ey == 0 || ey == dy,
        forall|k: int| 0 <= k < near.len() ==> all.contains(#[trigger] near[k]),
        forall|j: int|
            0 <= j < all.len() && player.sweep_overlaps(dx, dy, (#[trigger] all[j]).bounds@)
                ==> near.contains(all[j]),
    ensures
        any_blocks(near, player, ex, ey) == any_blocks(all, player, ex, ey),
{
    if any_blocks(near, player, ex, ey) {
        let k = choose|k: int| 0 <= k < near.len() && #[trigger] blocks(near[k], player, ex, ey);
        assert(all.contains(near[k]));
        let j = choose|j: int| 0 <= j < all.len() && all[j] == near[k];
        assert(blocks(all[j], player, ex, ey));
    }
    if any_blocks(all, player, ex, ey) {
        let j = choose|j: int| 0 <= j < all.len() && #[trigger] blocks(all[j], player, ex, ey);
        lemma_sweep_holds_steps(player, dx, dy, ex, ey, all[j].bounds@);
        assert(near.contains(all[j]));
        let k = choose|k: int| 0 <= k < near.len() && near[k] == all[j];
        assert(blocks(near[k], player, ex, ey));
    }
}

/// The broad phase is invisible: against a selection of tiles that holds
/// every tile which the stretch of the move overlaps, the collision stage has
/// the outcome that it has against all tiles.
pub proof fn lemma_broad_phase(all: Seq<Tile>, near: Seq<Tile>, player: Rect, intended: Vec3)
    requires
        forall|k: int| 0 <= k < near.len() ==> all.contains(#[trigger] near[k]),
        forall|j: int|
            0 <= j < all.len() && player.sweep_overlaps(
                intended.x as int,
                intended.y as int,
                (#[trigger] all[j]).bounds@,
            ) ==> near.contains(all[j]),
    ensures
        resolve(near, player, intended) == resolve(all, player, intended),
{
    let dx = intended.x as int;
    let dy = intended.y as int;
    lemma_near_tiles_block_alike(all, near, player, dx, dy, dx, dy);
    lemma_near_tiles_block_alike(all, near, player, dx, dy, dx, 0);
    lemma_near_tiles_block_alike(all, near, player, dx, dy, 0, dy);
}

/// No tile refuses a move by nothing.
pub proof fn lemma_rest_is_free(tiles: Seq<Tile>, player: Rect)
    ensures
        !any_blocks(tiles, player, 0, 0),
{
    assert forall|i: int| 0 <= i < tiles.len() implies !#[trigger] blocks(
        tiles[i],
        player,
        0,
        0,
    ) by {
        assert(player.shifted(0, 0) == player);
    }
}

/// No tile refuses the displacement that the collision stage hands on.
pub proof fn lemma_resolved_move_is_free(tiles: Seq<Tile>, player: Rect, intended: Vec3)
    ensures
        !any_blocks(
            tiles,
            player,
            resolve(tiles, player, intended).movement.movement.x as int,
            resolve(tiles, player, intended).movement.movement.y as int,
        ),
{
    lemma_rest_is_free(tiles, player);
}

/// After the corrected displacement the player's box overlaps no solid tile
/// that it did not overlap before the tick.
pub proof fn lemma_no_new_overlap(tiles: Seq<Tile>, player: Rect, intended: Vec3, i: int)
    requires
        0 <= i < tiles.len(),
        tiles[i].is_solid(),
    ensures
        player.shifted(
            resolve(tiles, player, intended).movement.movement.x as int,
            resolve(tiles, player, intended).movement.movement.y as int,
        ).overlaps(tiles[i].bounds@) ==> player.overlaps(tiles[i].bounds@),
{
    let r = resolve(tiles, player, intended).movement.movement;
    lemma_resolved_move_is_free(tiles, player, intended);
    assert(!blocks(tiles[i], player, r.x as int, r.y as int));
}

/// The corrected displacement is a fixed point of the collision stage: run
/// again from the same position, the stage hands it on unchanged and reports
/// no axis as stopped.
pub proof fn lemma_resolve_fixed_point(tiles: Seq<Tile>, player: Rect, intended: Vec3)
    ensures
        resolve(tiles, player, resolve(tiles, player, intended).movement.movement).movement
            == resolve(tiles, player, intended).movement,
        !resolve(tiles, player, resolve(tiles, player, intended).movement.movement).blocked_x,
        !resolve(tiles, player, resolve(tiles, player, intended).movement.movement).blocked_y,
{
    lemma_resolved_move_is_free(tiles, player, intended);
}

} // verus!
