//! The isometric projection from grid cells to screen coordinates:
//! deterministic, stateless, and linear in the half-tile extents.

use vstd::prelude::*;

use crate::GRID;

verus! {

/// Half the drawn width of a tile, in screen units, at the fixed tile
/// size and scale the renderer uses.
pub const HALF_TILE_W: i32 = 16;

/// Half the drawn height of a tile, in screen units.
pub const HALF_TILE_H: i32 = 8;

/// Screen x of a grid cell: the coordinate difference times the half
/// width.
pub open spec fn iso_x(gx: int, gy: int, half_w: int) -> int {
    (gx - gy) * half_w
}

/// Screen y of a grid cell: the coordinate sum times the half height.
pub open spec fn iso_y(gx: int, gy: int, half_h: int) -> int {
    (gx + gy) * half_h
}

/// Convert grid coordinates to isometric screen coordinates.
pub fn iso(gx: usize, gy: usize, half_w: i32, half_h: i32) -> (p: (i64, i64))
    requires
        gx < GRID,
        gy < GRID,
    ensures
        p.0 == iso_x(gx as int, gy as int, half_w as int),
        p.1 == iso_y(gx as int, gy as int, half_h as int),
{
    let dx = gx as i64 - gy as i64;
    let sy = gx as i64 + gy as i64;
    let w = half_w as i64;
    let h = half_h as i64;
    proof {
        assert(-0x80000000 * 32 <= dx * w <= 0x80000000 * 32) by (nonlinear_arith)
            requires
                -32 <= dx <= 32,
                -0x80000000 <= w <= 0x80000000,
        ;
        assert(-0x80000000 * 32 <= sy * h <= 0x80000000 * 32) by (nonlinear_arith)
            requires
                -32 <= sy <= 32,
                -0x80000000 <= h <= 0x80000000,
        ;
    }
    (dx * w, sy * h)
}

/// Law: the origin projects to the origin, whatever the tile size and
/// scale.
pub proof fn lemma_iso_origin(half_w: int, half_h: int)
    ensures
        iso_x(0, 0, half_w) == 0,
        iso_y(0, 0, half_h) == 0,
{
}

/// Law: swapping the two grid coordinates mirrors the screen x about the
/// x = 0 axis and preserves the screen y; in particular the cells (1, 0)
/// and (0, 1) project mirror-symmetrically for any fixed half extents.
pub proof fn lemma_iso_mirror(gx: int, gy: int, half_w: int, half_h: int)
    ensures
        iso_x(gy, gx, half_w) == -iso_x(gx, gy, half_w),
        iso_y(gy, gx, half_h) == iso_y(gx, gy, half_h),
{
    assert((gy - gx) * half_w == -((gx - gy) * half_w)) by (nonlinear_arith);
    assert((gy + gx) * half_h == (gx + gy) * half_h) by (nonlinear_arith);
}

} // verus!
