//! The tile map: the kind, place and bounding box of every tile of a level.

use vstd::prelude::*;
use crate::collision::{Aabb, Collider};
use crate::consts::SimConfig;
use crate::grid::{
    cell_index, end_cell, first_cell, lemma_cell_index_in_grid, lemma_cell_index_order,
    lemma_end_cell_below, lemma_extent_fits, lemma_first_cell_above, lemma_index_has_cell,
    lemma_tile_center_bound, tile_center,
};
use crate::loading::{grid_height, grid_width, is_rectangular, rectangular, MapAsset, MapError};

verus! {

/// What a map cell is made of.
#[derive(Debug, PartialEq, Eq, Clone, Copy, Structural)]
pub enum TileType {
    Ground,
    Special,
    Lava,
    TreeGround,
    Floor,
    Background,
}

impl TileType {
    /// The tile kind that an atlas index stands for.
    pub open spec fn of_index(ind: u32) -> TileType {
        if ind == 4 {
            TileType::Floor
        } else if ind == 5 {
            TileType::Lava
        } else if ind == 9 {
            TileType::Ground
        } else if ind == 10 {
            TileType::Special
        } else if ind == 11 {
            TileType::TreeGround
        } else {
            TileType::Background
        }
    }

    /// Background is the one kind that entities pass through.
    pub open spec fn spec_collider(self) -> Collider {
        if self == TileType::Background {
            Collider::Phantom
        } else {
            Collider::Solid
        }
    }

    /// Maps an atlas index to its tile kind; an index without a kind of its own
    /// is background.
    pub fn get_tiletype_from_index(ind: u32) -> (t: TileType)
        ensures
            t == Self::of_index(ind),
    {
        match ind {
            4 => TileType::Floor,
            5 => TileType::Lava,
            9 => TileType::Ground,
            10 => TileType::Special,
            11 => TileType::TreeGround,
            _ => TileType::Background,
        }
    }

    /// Whether a tile of this kind stops movement.
    pub fn collider(self) -> (c: Collider)
        ensures
            c == self.spec_collider(),
    {
        match self {
            TileType::Background => Collider::Phantom,
            _ => Collider::Solid,
        }
    }
}

/// One tile of a map: its cell in the grid, its kind, and the box it fills in
/// the world.
#[derive(Debug, PartialEq, Eq, Clone, Copy, Structural)]
pub struct Tile {
    /// Column in the grid, counted from the left.
    pub x: u32,
    /// Row in the grid, counted from the bottom of the arena.
    pub y: u32,
    pub tiletype: TileType,
    pub bounds: Aabb,
}

impl Tile {
    /// The tile stops movement.
    pub open spec fn is_solid(self) -> bool {
        self.tiletype.spec_collider() == Collider::Solid
    }
}

/// The grid, at the tile size of `cfg`, is exactly as large as the arena of `cfg`.
pub open spec fn fills_arena(rows: Seq<Seq<u32>>, cfg: SimConfig) -> bool {
    &&& grid_width(rows) * cfg.tile_half_w == cfg.arena_half_w
    &&& grid_height(rows) * cfg.tile_half_h == cfg.arena_half_h
}

/// The box of cell `(x, y)` in a grid of `width` by `height` tiles.
pub open spec fn cell_bounds(
    x: int,
    y: int,
    width: int,
    height: int,
    half_w: u32,
    half_h: u32,
) -> Aabb {
    Aabb {
        center_x: tile_center(x, width, half_w as int) as i64,
        center_y: tile_center(y, height, half_h as int) as i64,
        half_w,
        half_h,
    }
}

/// The tile that stands at cell `(x, y)` of the map that `rows` describes.
pub open spec fn cell(rows: Seq<Seq<u32>>, cfg: SimConfig, x: int, y: int) -> Tile {
    Tile {
        x: x as u32,
        y: y as u32,
        tiletype: TileType::of_index(rows[y][x]),
        bounds: cell_bounds(
            x,
            y,
            grid_width(rows),
            grid_height(rows),
            cfg.tile_half_w,
            cfg.tile_half_h,
        ),
    }
}

/// The world position of the centre of tile `(tile_x, tile_y)` in a grid of
/// `grid_w` by `grid_h` tiles that is centred on the origin.
fn convert_tilepos_to_global(
    tile_x: u32,
    tile_y: u32,
    grid_w: u32,
    grid_h: u32,
    tile_half_w: u32,
    tile_half_h: u32,
) -> (p: (i64, i64))
    requires
        tile_x < grid_w,
        tile_y < grid_h,
        grid_w * tile_half_w <= u32::MAX,
        grid_h * tile_half_h <= u32::MAX,
    ensures
        p.0 == tile_center(tile_x as int, grid_w as int, tile_half_w as int),
        p.1 == tile_center(tile_y as int, grid_h as int, tile_half_h as int),
{
    proof {
        lemma_tile_center_bound(tile_x as int, grid_w as int, tile_half_w as int);
        lemma_tile_center_bound(tile_y as int, grid_h as int, tile_half_h as int);
    }
    let kx: i64 = 2 * (tile_x as i64) + 1 - (grid_w as i64);
    let ky: i64 = 2 * (tile_y as i64) + 1 - (grid_h as i64);
    (kx * (tile_half_w as i64), ky * (tile_half_h as i64))
}

/// A tile map as mathematics sees it: a grid of `width` by `height` cells,
/// the half-extents of one tile, and the tiles in row-major order (row 0 from
/// left to right, then row 1, and so on).
pub struct TileGrid {
    pub width: int,
    pub height: int,
    pub tile_half_w: u32,
    pub tile_half_h: u32,
    pub tiles: Seq<Tile>,
}

impl TileGrid {
    /// The tile at cell `(x, y)`.
    pub open spec fn tile_at(self, x: int, y: int) -> Tile {
        self.tiles[cell_index(x, y, self.width)]
    }

    /// Every cell of the grid has exactly one tile, which knows its cell and
    /// fills the box of that cell; tiles have a size, and the grid as a whole
    /// reaches no farther from the origin than 32 bits count.
    pub open spec fn wf(self) -> bool {
        &&& 0 <= self.width
        &&& 0 <= self.height
        &&& self.tiles.len() == self.width * self.height
        &&& self.tile_half_w > 0
        &&& self.tile_half_h > 0
        &&& self.width * self.tile_half_w <= u32::MAX
        &&& self.height * self.tile_half_h <= u32::MAX
        &&& forall|x: int, y: int|
            0 <= x < self.width && 0 <= y < self.height ==> {
                let t = #[trigger] self.tile_at(x, y);
                &&& t.x == x
                &&& t.y == y
                &&& t.bounds == cell_bounds(
                    x,
                    y,
                    self.width,
                    self.height,
                    self.tile_half_w,
                    self.tile_half_h,
                )
            }
    }

    /// The grid is the one that `rows` describes at the tile size of `cfg`.
    pub open spec fn represents(self, rows: Seq<Seq<u32>>, cfg: SimConfig) -> bool {
        &&& self.width == grid_width(rows)
        &&& self.height == grid_height(rows)
        &&& self.tile_half_w == cfg.tile_half_w
        &&& self.tile_half_h == cfg.tile_half_h
        &&& self.tiles.len() == grid_width(rows) * grid_height(rows)
        &&& forall|x: int, y: int|
            0 <= x < grid_width(rows) && 0 <= y < grid_height(rows) ==> #[trigger] self.tile_at(
                x,
                y,
            ) == cell(rows, cfg, x, y)
    }
}

/// The tiles of a level. A map is built once, by `spawn_map`, and only read
/// after that.
#[derive(Debug, PartialEq, Eq)]
pub struct TileMap {
    width: u32,
    height: u32,
    tile_half_w: u32,
    tile_half_h: u32,
    tiles: Vec<Tile>,
}

impl View for TileMap {
    type V = TileGrid;

    closed spec fn view(&self) -> TileGrid {
        TileGrid {
            width: self.width as int,
            height: self.height as int,
            tile_half_w: self.tile_half_w,
            tile_half_h: self.tile_half_h,
            tiles: self.tiles@,
        }
    }
}

impl TileMap {
    /// Every map is a well-formed grid.
    #[verifier::type_invariant]
    pub closed spec fn inv(&self) -> bool {
        self@.wf()
    }

    /// Columns of the grid.
    pub fn width(&self) -> (w: u32)
        ensures
            w == self@.width,
            self@.wf(),
    {
        proof {
            use_type_invariant(self);
        }
        self.width
    }

    /// Rows of the grid.
    pub fn height(&self) -> (h: u32)
        ensures
            h == self@.height,
            self@.wf(),
    {
        proof {
            use_type_invariant(self);
        }
        self.height
    }

    /// Half the width of a tile.
    pub fn tile_half_w(&self) -> (half: u32)
        ensures
            half == self@.tile_half_w,
            self@.wf(),
    {
        proof {
            use_type_invariant(self);
        }
        self.tile_half_w
    }

    /// Half the height of a tile.
    pub fn tile_half_h(&self) -> (half: u32)
        ensures
            half == self@.tile_half_h,
            self@.wf(),
    {
        proof {
            use_type_invariant(self);
        }
        self.tile_half_h
    }

    /// Half the width of the arena that the grid fills.
    pub fn arena_half_w(&self) -> (half: u32)
        ensures
            half == self@.width * self@.tile_half_w,
            self@.wf(),
    {
        proof {
            use_type_invariant(self);
        }
        self.width * self.tile_half_w
    }

    /// Half the height of the arena that the grid fills.
    pub fn arena_half_h(&self) -> (half: u32)
        ensures
            half == self@.height * self@.tile_half_h,
            self@.wf(),
    {
        proof {
            use_type_invariant(self);
        }
        self.height * self.tile_half_h
    }

    /// All tiles, in row-major order.
    pub fn tiles(&self) -> (tiles: &Vec<Tile>)
        ensures
            tiles@ == self@.tiles,
            self@.wf(),
    {
        proof {
            use_type_invariant(self);
        }
        &self.tiles
    }

    /// The tile at cell `(x, y)`, if the grid has that cell.
    pub fn tile_at(&self, x: u32, y: u32) -> (t: Option<Tile>)
        ensures
            t == (if x < self@.width && y < self@.height {
                Some(self@.tile_at(x as int, y as int))
            } else {
                None
            }),
    {
        proof {
            use_type_invariant(self);
        }
        if x < self.width && y < self.height {
            let n = self.tiles.len();
            proof {
                lemma_cell_index_in_grid(x as int, y as int, self.width as int, self.height as int);
                assert(0 <= (y as int) * (self.width as int)) by (nonlinear_arith)
                    requires
                        0 <= y,
                        0 <= self.width,
                ;
                assert(cell_index(x as int, y as int, self.width as int) < n);
            }
            let i: usize = (y as usize) * (self.width as usize) + (x as usize);
            Some(self.tiles[i])
        } else {
            None
        }
    }
}

/// The cells that precede `(x, y)` in row-major order hold the tiles that
/// `rows` describes.
pub open spec fn filled_before(
    tiles: Seq<Tile>,
    rows: Seq<Seq<u32>>,
    cfg: SimConfig,
    x: int,
    y: int,
) -> bool {
    forall|cx: int, cy: int|
        0 <= cx < grid_width(rows) && 0 <= cy && (cy < y || (cy == y && cx < x))
            ==> #[trigger] tiles[cell_index(cx, cy, grid_width(rows))] == cell(rows, cfg, cx, cy)
}

/// A grid that fills an arena has no more columns and rows than the arena's
/// half-extents count units.
pub proof fn lemma_grid_fits(rows: Seq<Seq<u32>>, cfg: SimConfig)
    requires
        cfg.wf(),
        fills_arena(rows, cfg),
    ensures
        grid_width(rows) <= cfg.arena_half_w,
        grid_height(rows) <= cfg.arena_half_h,
{
    let w = grid_width(rows);
    let h = grid_height(rows);
    let tw = cfg.tile_half_w as int;
    let th = cfg.tile_half_h as int;
    assert(w <= w * tw) by (nonlinear_arith)
        requires
            0 <= w,
            1 <= tw,
    ;
    assert(h <= h * th) by (nonlinear_arith)
        requires
            0 <= h,
            1 <= th,
    ;
}

/// Builds the tile map of a level from its asset: one tile for every cell,
/// with its kind from the atlas index and its box from the cell and the tile
/// size. Row 0 of the asset is the bottom row of the arena.
///
/// Fails, with nothing built, where the asset is missing, where a row has
/// another length than the first, or where the grid does not fill the arena.
pub fn spawn_map(asset: Option<&MapAsset>, cfg: &SimConfig) -> (r: Result<TileMap, MapError>)
    requires
        cfg.wf(),
    ensures
        match r {
            Ok(m) => {
                &&& asset is Some
                &&& rectangular(asset->Some_0.rows())
                &&& fills_arena(asset->Some_0.rows(), *cfg)
                &&& m@.represents(asset->Some_0.rows(), *cfg)
                &&& m@.wf()
            },
            Err(MapError::MissingAsset) => asset is None,
            Err(MapError::RaggedRow) => asset is Some && !rectangular(asset->Some_0.rows()),
            Err(MapError::ArenaMismatch) => {
                &&& asset is Some
                &&& rectangular(asset->Some_0.rows())
                &&& !fills_arena(asset->Some_0.rows(), *cfg)
            },
            Err(MapError::Malformed(_)) => false,
        },
{
    let source = match asset {
        Some(a) => a,
        None => {
            return Err(MapError::MissingAsset);
        },
    };
    let ghost rows = source.rows();
    let height = source.map.len();
    let width = if height == 0 {
        0
    } else {
        source.map[0].len()
    };
    assert(width == grid_width(rows) && height == grid_height(rows));
    if !is_rectangular(&source.map) {
        return Err(MapError::RaggedRow);
    }
    assert(rectangular(rows));
    proof {
        lemma_extent_fits(width as int, cfg.tile_half_w as int);
        lemma_extent_fits(height as int, cfg.tile_half_h as int);
    }
    let arena_w = (width as u128) * (cfg.tile_half_w as u128);
    let arena_h = (height as u128) * (cfg.tile_half_h as u128);
    if arena_w != cfg.arena_half_w as u128 || arena_h != cfg.arena_half_h as u128 {
        return Err(MapError::ArenaMismatch);
    }
    proof {
        lemma_grid_fits(rows, *cfg);
    }
    let grid_w = width as u32;
    let grid_h = height as u32;
    let mut tiles: Vec<Tile> = Vec::new();
    let mut y: u32 = 0;
    while y < grid_h
        invariant
            y <= grid_h,
            rows == source.rows(),
            rectangular(rows),
            grid_w == grid_width(rows),
            grid_h == grid_height(rows),
            grid_w * cfg.tile_half_w <= u32::MAX,
            grid_h * cfg.tile_half_h <= u32::MAX,
            tiles@.len() == cell_index(0, y as int, grid_w as int),
            filled_before(tiles@, rows, *cfg, 0, y as int),
        decreases grid_h - y,
    {
        let mut x: u32 = 0;
        while x < grid_w
            invariant
                x <= grid_w,
                y < grid_h,
                rows == source.rows(),
                rectangular(rows),
                grid_w == grid_width(rows),
                grid_h == grid_height(rows),
                grid_w * cfg.tile_half_w <= u32::MAX,
                grid_h * cfg.tile_half_h <= u32::MAX,
                tiles@.len() == cell_index(x as int, y as int, grid_w as int),
                filled_before(tiles@, rows, *cfg, x as int, y as int),
            decreases grid_w - x,
        {
            let tile_index = source.map[y as usize][x as usize];
            assert(tile_index == rows[y as int][x as int]);
            let tile_type = TileType::get_tiletype_from_index(tile_index);
            let center = convert_tilepos_to_global(
                x,
                y,
                grid_w,
                grid_h,
                cfg.tile_half_w,
                cfg.tile_half_h,
            );
            let tile = Tile {
                x,
                y,
                tiletype: tile_type,
                bounds: Aabb {
                    center_x: center.0,
                    center_y: center.1,
                    half_w: cfg.tile_half_w,
                    half_h: cfg.tile_half_h,
                },
            };
            assert(tile == cell(rows, *cfg, x as int, y as int));
            let ghost before = tiles@;
            tiles.push(tile);
            proof {
                assert forall|cx: int, cy: int|
                    0 <= cx < grid_width(rows) && 0 <= cy && (cy < y || (cy == y && cx < x + 1))
                        implies #[trigger] tiles@[cell_index(cx, cy, grid_width(rows))] == cell(
                    rows,
                    *cfg,
                    cx,
                    cy,
                ) by {
                    if cy == y && cx == x {
                    } else {
                        lemma_cell_index_order(cx, cy, x as int, y as int, grid_w as int);
                        assert(tiles@[cell_index(cx, cy, grid_w as int)] == before[cell_index(
                            cx,
                            cy,
                            grid_w as int,
                        )]);
                    }
                }
            }
            x += 1;
        }
        proof {
            assert(cell_index(grid_w as int, y as int, grid_w as int) == cell_index(
                0,
                y + 1,
                grid_w as int,
            )) by (nonlinear_arith);
        }
        y += 1;
    }
    let ghost grid = TileGrid {
        width: grid_w as int,
        height: grid_h as int,
        tile_half_w: cfg.tile_half_w,
        tile_half_h: cfg.tile_half_h,
        tiles: tiles@,
    };
    proof {
        assert(cell_index(0, grid_h as int, grid_w as int) == grid_w * grid_h) by (nonlinear_arith);
        assert forall|cx: int, cy: int|
            0 <= cx < grid_w && 0 <= cy < grid_h implies #[trigger] grid.tile_at(cx, cy) == cell(
            rows,
            *cfg,
            cx,
            cy,
        ) by {
            assert(tiles@[cell_index(cx, cy, grid_width(rows))] == cell(rows, *cfg, cx, cy));
        }
        assert(grid.represents(rows, *cfg));
        assert(grid.wf());
    }
    let map = TileMap {
        width: grid_w,
        height: grid_h,
        tile_half_w: cfg.tile_half_w,
        tile_half_h: cfg.tile_half_h,
        tiles,
    };
    assert(map@ == grid);
    Ok(map)
}

/// The tiles gathered so far by a scan of the cells from column `fx` up to
/// column `ex`, row after row from row `fy`, that has come to cell `(x, y)`:
/// one tile for every cell scanned, and no other.
pub open spec fn gathered(
    near: Seq<Tile>,
    grid: TileGrid,
    fx: int,
    ex: int,
    fy: int,
    x: int,
    y: int,
) -> bool {
    &&& forall|k: int|
        0 <= k < near.len() ==> {
            let t = #[trigger] near[k];
            &&& fx <= t.x < ex
            &&& fy <= t.y
            &&& (t.y < y || (t.y == y && t.x < x))
            &&& t == grid.tile_at(t.x as int, t.y as int)
        }
    &&& forall|cx: int, cy: int|
        fx <= cx < ex && fy <= cy && (cy < y || (cy == y && cx < x)) ==> near.contains(
            #[trigger] grid.tile_at(cx, cy),
        )
    &&& near.no_duplicates()
}

/// Adding the tile of the cell that the scan has come to keeps the scan's
/// account in order.
pub proof fn lemma_gather_next(
    near: Seq<Tile>,
    grid: TileGrid,
    fx: int,
    ex: int,
    fy: int,
    x: int,
    y: int,
)
    requires
        grid.wf(),
        0 <= fx <= x < ex <= grid.width,
        0 <= fy <= y < grid.height,
        gathered(near, grid, fx, ex, fy, x, y),
    ensures
        gathered(near.push(grid.tile_at(x, y)), grid, fx, ex, fy, x + 1, y),
{
    let t = grid.tile_at(x, y);
    let next = near.push(t);
    assert(t.x == x && t.y == y);
    assert forall|cx: int, cy: int|
        fx <= cx < ex && fy <= cy && (cy < y || (cy == y && cx < x + 1)) implies next.contains(
        #[trigger] grid.tile_at(cx, cy),
    ) by {
        if cy == y && cx == x {
            assert(next[near.len() as int] == t);
        } else {
            let k = choose|k: int| 0 <= k < near.len() && near[k] == grid.tile_at(cx, cy);
            assert(next[k] == grid.tile_at(cx, cy));
        }
    }
    assert forall|a: int, b: int|
        0 <= a < next.len() && 0 <= b < next.len() && a != b implies next[a] != next[b] by {
        if a < near.len() && b < near.len() {
            assert(near[a] != near[b]);
        } else if a < near.len() {
            assert(near[a].y < y || (near[a].y == y && near[a].x < x));
        } else {
            assert(near[b].y < y || (near[b].y == y && near[b].x < x));
        }
    }
}

impl TileMap {
    /// The broad phase of the collision test: the tiles that a box can touch
    /// on its way, which are exactly the tiles whose boxes overlap the stretch
    /// that `player` passes over while it moves by `(dx, dy)`. No tile that the
    /// box could overlap at the start, at the end, or after one component of
    /// the move alone is left out.
    ///
    /// The tiles are found by their cells, not by a pass over the whole map.
    pub fn tiles_near(&self, player: &Aabb, dx: i64, dy: i64) -> (near: Vec<Tile>)
        ensures
            self@.wf(),
            forall|k: int| 0 <= k < near@.len() ==> self@.tiles.contains(#[trigger] near@[k]),
            forall|j: int|
                0 <= j < self@.tiles.len() ==> (near@.contains(#[trigger] self@.tiles[j])
                    <==> player@.sweep_overlaps(dx as int, dy as int, self@.tiles[j].bounds@)),
            near@.no_duplicates(),
    {
        proof {
            use_type_invariant(self);
        }
        let ghost grid = self@;
        let ghost w = self.width as int;
        let ghost h = self.height as int;
        let cx = player.center_x as i128;
        let cy = player.center_y as i128;
        let low_x = (if dx < 0 {
            cx + dx as i128
        } else {
            cx
        }) - player.half_w as i128;
        let high_x = (if dx > 0 {
            cx + dx as i128
        } else {
            cx
        }) + player.half_w as i128;
        let low_y = (if dy < 0 {
            cy + dy as i128
        } else {
            cy
        }) - player.half_h as i128;
        let high_y = (if dy > 0 {
            cy + dy as i128
        } else {
            cy
        }) + player.half_h as i128;
        let fx = first_cell(low_x, self.width, self.tile_half_w);
        let ex = end_cell(high_x, self.width, self.tile_half_w);
        let fy = first_cell(low_y, self.height, self.tile_half_h);
        let ey = end_cell(high_y, self.height, self.tile_half_h);
        let mut near: Vec<Tile> = Vec::new();
        let count = self.tiles.len();
        if fx < ex && fy < ey {
            let mut y = fy;
            while y < ey
                invariant
                    grid == self@,
                    grid.wf(),
                    w == self.width,
                    h == self.height,
                    self.tiles@ == grid.tiles,
                    count == grid.tiles.len(),
                    fx < ex <= w,
                    fy <= y <= ey <= h,
                    gathered(near@, grid, fx as int, ex as int, fy as int, fx as int, y as int),
                decreases ey - y,
            {
                let mut x = fx;
                while x < ex
                    invariant
                        grid == self@,
                        grid.wf(),
                        w == self.width,
                        h == self.height,
                        self.tiles@ == grid.tiles,
                        count == grid.tiles.len(),
                        fx <= x <= ex <= w,
                        fy <= y < ey <= h,
                        gathered(near@, grid, fx as int, ex as int, fy as int, x as int, y as int),
                    decreases ex - x,
                {
                    proof {
                        lemma_cell_index_in_grid(x as int, y as int, w, h);
                        assert(0 <= (y as int) * w) by (nonlinear_arith)
                            requires
                                0 <= y,
                                0 <= w,
                        ;
                        assert(cell_index(x as int, y as int, w) < count);
                        lemma_gather_next(
                            near@,
                            grid,
                            fx as int,
                            ex as int,
                            fy as int,
                            x as int,
                            y as int,
                        );
                    }
                    let i: usize = (y as usize) * (self.width as usize) + (x as usize);
                    near.push(self.tiles[i]);
                    x += 1;
                }
                y += 1;
            }
        }
        proof {
            let sw = player@;
            assert(fx < ex && fy < ey ==> gathered(
                near@,
                grid,
                fx as int,
                ex as int,
                fy as int,
                fx as int,
                ey as int,
            ));
            assert forall|k: int| 0 <= k < near@.len() implies grid.tiles.contains(
                #[trigger] near@[k],
            ) by {
                let t = near@[k];
                lemma_cell_index_in_grid(t.x as int, t.y as int, w, h);
                assert(grid.tiles[cell_index(t.x as int, t.y as int, w)] == t);
            }
            assert forall|j: int| 0 <= j < grid.tiles.len() implies (near@.contains(
                #[trigger] grid.tiles[j],
            ) <==> sw.sweep_overlaps(dx as int, dy as int, grid.tiles[j].bounds@)) by {
                lemma_index_has_cell(j, w, h);
                let tx = j % w;
                let ty = j / w;
                let t = grid.tile_at(tx, ty);
                assert(t == grid.tiles[j]);
                lemma_tile_center_bound(tx, w, grid.tile_half_w as int);
                lemma_tile_center_bound(ty, h, grid.tile_half_h as int);
                lemma_first_cell_above(low_x as int, w, grid.tile_half_w as int, tx);
                lemma_end_cell_below(high_x as int, w, grid.tile_half_w as int, tx);
                lemma_first_cell_above(low_y as int, h, grid.tile_half_h as int, ty);
                lemma_end_cell_below(high_y as int, h, grid.tile_half_h as int, ty);
                let in_range = fx <= tx < ex && fy <= ty < ey;
                assert(in_range <==> sw.sweep_overlaps(dx as int, dy as int, t.bounds@));
                if near@.contains(t) {
                    let k = choose|k: int| 0 <= k < near@.len() && near@[k] == t;
                    assert(near@[k].x == tx && near@[k].y == ty);
                    assert(in_range);
                }
            }
        }
        near
    }
}

} // verus!
