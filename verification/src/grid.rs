//! The geometry of a grid of equal cells that is centred on the origin: the
//! row-major index of a cell, the place of a cell along an axis, and the
//! cells that an extent along an axis overlaps.

use vstd::prelude::*;

verus! {

/// Where cell `(x, y)` of a grid `width` cells wide stands in row-major order.
pub open spec fn cell_index(x: int, y: int, width: int) -> int {
    y * width + x
}

/// A cell's row-major index lies inside the grid.
pub proof fn lemma_cell_index_in_grid(x: int, y: int, width: int, height: int)
    requires
        0 <= x < width,
        0 <= y < height,
    ensures
        0 <= cell_index(x, y, width) < width * height,
{
    assert(y * width + x < width * height) by (nonlinear_arith)
        requires
            0 <= x < width,
            0 <= y < height,
    ;
    assert(0 <= y * width) by (nonlinear_arith)
        requires
            0 <= y,
            0 <= width,
    ;
}

/// Row-major order: a cell in an earlier row, or earlier in the same row, has
/// the smaller index.
pub proof fn lemma_cell_index_order(x1: int, y1: int, x2: int, y2: int, width: int)
    requires
        0 <= x1 < width,
        0 <= x2 < width,
        0 <= y1,
        y1 < y2 || (y1 == y2 && x1 < x2),
    ensures
        0 <= cell_index(x1, y1, width) < cell_index(x2, y2, width),
{
    assert(0 <= y1 * width) by (nonlinear_arith)
        requires
            0 <= y1,
            0 <= width,
    ;
    if y1 < y2 {
        assert(y1 * width + width <= y2 * width) by (nonlinear_arith)
            requires
                y1 + 1 <= y2,
                0 <= width,
        ;
    }
}

/// Every index into the tiles of a grid is the row-major index of one cell.
pub proof fn lemma_index_has_cell(j: int, width: int, height: int)
    requires
        0 <= width,
        0 <= height,
        0 <= j < width * height,
    ensures
        0 <= j % width < width,
        0 <= j / width < height,
        cell_index(j % width, j / width, width) == j,
{
    assert(width > 0) by (nonlinear_arith)
        requires
            0 <= width,
            0 <= j < width * height,
    ;
    vstd::arithmetic::div_mod::lemma_fundamental_div_mod(j, width);
    vstd::arithmetic::div_mod::lemma_mod_bound(j, width);
    lemma_floor_div(j, width, height);
    lemma_floor_div(j, width, 0);
    assert(height * width == width * height) by (nonlinear_arith);
    assert((j / width) * width == width * (j / width)) by (nonlinear_arith);
}

/// The centre, along one axis, of cell `t` out of `n` cells that each reach
/// `half` to either side, where the `n` cells together are centred on zero.
pub open spec fn tile_center(t: int, n: int, half: int) -> int {
    (2 * t + 1 - n) * half
}

/// A tile's centre lies within the extent of its grid.
pub proof fn lemma_tile_center_bound(t: int, n: int, half: int)
    requires
        0 <= t < n,
        0 <= half,
    ensures
        -(n * half) <= tile_center(t, n, half) <= n * half,
{
    assert(-(n * half) <= (2 * t + 1 - n) * half <= n * half) by (nonlinear_arith)
        requires
            0 <= t < n,
            0 <= half,
    ;
}

/// The lower edge, along one axis, of cell `t` out of `n` cells that each
/// reach `half` to either side of their centre.
pub open spec fn cell_low(t: int, n: int, half: int) -> int {
    tile_center(t, n, half) - half
}

/// The upper edge, along one axis, of cell `t` out of `n` such cells.
pub open spec fn cell_high(t: int, n: int, half: int) -> int {
    tile_center(t, n, half) + half
}

/// The edges of a cell, counted from the lower edge of the first cell.
pub proof fn lemma_cell_edges(t: int, n: int, half: int)
    ensures
        cell_low(t, n, half) == t * (2 * half) - n * half,
        cell_high(t, n, half) == (t + 1) * (2 * half) - n * half,
{
    assert((2 * t + 1 - n) * half - half == t * (2 * half) - n * half) by (nonlinear_arith);
    assert((2 * t + 1 - n) * half + half == (t + 1) * (2 * half) - n * half) by (nonlinear_arith);
}

/// A count of at most 64 bits times a length of 32 bits fits in 128 bits.
pub proof fn lemma_extent_fits(count: int, half: int)
    requires
        0 <= count <= 0xffff_ffff_ffff_ffff,
        0 <= half <= 0xffff_ffff,
    ensures
        0 <= count * half <= u128::MAX,
{
    assert(0 <= count * half <= 0xffff_ffff_ffff_ffff * 0xffff_ffff) by (nonlinear_arith)
        requires
            0 <= count <= 0xffff_ffff_ffff_ffff,
            0 <= half <= 0xffff_ffff,
    ;
}

/// Rounding down: `t` is at most the quotient of `m` by a positive `d` exactly
/// when `t` times `d` is at most `m`.
pub proof fn lemma_floor_div(m: int, d: int, t: int)
    requires
        d > 0,
    ensures
        t <= m / d <==> t * d <= m,
{
    vstd::arithmetic::div_mod::lemma_fundamental_div_mod(m, d);
    vstd::arithmetic::div_mod::lemma_mod_bound(m, d);
    let q = m / d;
    let r = m % d;
    assert(m == d * q + r);
    if t <= q {
        assert(t * d <= q * d) by (nonlinear_arith)
            requires
                t <= q,
                d > 0,
        ;
        assert(q * d == d * q) by (nonlinear_arith);
    } else {
        assert(t * d >= (q + 1) * d) by (nonlinear_arith)
            requires
                t >= q + 1,
                d > 0,
        ;
        assert((q + 1) * d == d * q + d) by (nonlinear_arith);
    }
}

/// The first of `n` cells whose upper edge lies above `low`, or `n` where no
/// cell reaches that far up.
pub open spec fn first_cell_above(low: int, n: int, half: int) -> int {
    let offset = low + n * half;
    if offset <= 0 {
        0
    } else if offset / (2 * half) >= n {
        n
    } else {
        offset / (2 * half)
    }
}

/// One more than the last of `n` cells whose lower edge lies below `high`, or 0
/// where no cell reaches that far down.
pub open spec fn end_cell_below(high: int, n: int, half: int) -> int {
    let offset = high + n * half;
    if offset <= 0 {
        0
    } else if (offset - 1) / (2 * half) + 1 >= n {
        n
    } else {
        (offset - 1) / (2 * half) + 1
    }
}

/// A cell lies at or after `first_cell_above(low, ..)` exactly when its upper
/// edge lies above `low`.
pub proof fn lemma_first_cell_above(low: int, n: int, half: int, t: int)
    requires
        half > 0,
        0 <= t < n,
    ensures
        first_cell_above(low, n, half) <= t <==> low < cell_high(t, n, half),
{
    let d = 2 * half;
    let offset = low + n * half;
    lemma_cell_edges(t, n, half);
    lemma_floor_div(offset, d, t + 1);
    if offset <= 0 {
        assert((t + 1) * d > 0) by (nonlinear_arith)
            requires
                t >= 0,
                d > 0,
        ;
    }
}

/// A cell lies before `end_cell_below(high, ..)` exactly when its lower edge
/// lies below `high`.
pub proof fn lemma_end_cell_below(high: int, n: int, half: int, t: int)
    requires
        half > 0,
        0 <= t < n,
    ensures
        t < end_cell_below(high, n, half) <==> cell_low(t, n, half) < high,
{
    let d = 2 * half;
    let offset = high + n * half;
    lemma_cell_edges(t, n, half);
    lemma_floor_div(offset - 1, d, t);
    if offset <= 0 {
        assert(t * d >= 0) by (nonlinear_arith)
            requires
                t >= 0,
                d > 0,
        ;
    }
}

/// Computes `first_cell_above`.
pub(crate) fn first_cell(low: i128, n: u32, half: u32) -> (r: u32)
    requires
        half > 0,
        n * half <= u32::MAX,
        -0x4_0000_0000_0000_0000 <= low <= 0x4_0000_0000_0000_0000,
    ensures
        r == first_cell_above(low as int, n as int, half as int),
        r <= n,
{
    let offset: i128 = low + (n as i128) * (half as i128);
    if offset <= 0 {
        0
    } else {
        let quotient: i128 = offset / (2 * (half as i128));
        if quotient >= n as i128 {
            n
        } else {
            quotient as u32
        }
    }
}

/// Computes `end_cell_below`.
pub(crate) fn end_cell(high: i128, n: u32, half: u32) -> (r: u32)
    requires
        half > 0,
        n * half <= u32::MAX,
        -0x4_0000_0000_0000_0000 <= high <= 0x4_0000_0000_0000_0000,
    ensures
        r == end_cell_below(high as int, n as int, half as int),
        r <= n,
{
    let offset: i128 = high + (n as i128) * (half as i128);
    if offset <= 0 {
        0
    } else {
        let quotient: i128 = (offset - 1) / (2 * (half as i128)) + 1;
        if quotient >= n as i128 {
            n
        } else {
            quotient as u32
        }
    }
}

} // verus!
