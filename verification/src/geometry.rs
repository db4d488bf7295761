//! Points, grid cells and the squared distances between them.

use vstd::prelude::*;

verus! {

/// A position in the world, in thousandths of a world unit.
#[derive(Clone, Copy, Debug, PartialEq, Eq, Structural)]
pub struct Point {
    pub x: i32,
    pub y: i32,
}

/// A cell of the integer grid on which agents meet.
#[derive(Clone, Copy, Debug, PartialEq, Eq, Structural)]
pub struct Position {
    pub x: i32,
    pub y: i32,
}

/// Squared Euclidean distance between `(ax, ay)` and `(bx, by)`.
pub open spec fn sq_dist(ax: int, ay: int, bx: int, by: int) -> int {
    (ax - bx) * (ax - bx) + (ay - by) * (ay - by)
}

/// A squared distance between 32-bit coordinates is not negative and fits in
/// 128 bits with room to spare.
pub proof fn lemma_sq_dist_bounds(ax: i32, ay: i32, bx: i32, by: i32)
    ensures
        0 <= sq_dist(ax as int, ay as int, bx as int, by as int) <= 0x2_0000_0000_0000_0000,
{
    let dx = ax - bx;
    let dy = ay - by;
    assert(0 <= dx * dx <= 0x1_0000_0000_0000_0000) by (nonlinear_arith)
        requires
            -0x1_0000_0000 <= dx <= 0x1_0000_0000,
    ;
    assert(0 <= dy * dy <= 0x1_0000_0000_0000_0000) by (nonlinear_arith)
        requires
            -0x1_0000_0000 <= dy <= 0x1_0000_0000,
    ;
}

/// Squared distance between two grid coordinates or two world coordinates.
pub fn dist_sq(ax: i32, ay: i32, bx: i32, by: i32) -> (d: u128)
    ensures
        d == sq_dist(ax as int, ay as int, bx as int, by as int),
{
    let dx: i64 = ax as i64 - bx as i64;
    let dy: i64 = ay as i64 - by as i64;
    let ux: u128 = if dx < 0 { (-dx) as u128 } else { dx as u128 };
    let uy: u128 = if dy < 0 { (-dy) as u128 } else { dy as u128 };
    assert(ux * ux == (ax - bx) * (ax - bx)) by (nonlinear_arith)
        requires
            ux == ax - bx || ux == -(ax - bx),
    ;
    assert(uy * uy == (ay - by) * (ay - by)) by (nonlinear_arith)
        requires
            uy == ay - by || uy == -(ay - by),
    ;
    assert(ux * ux <= 0x1_0000_0000_0000_0000) by (nonlinear_arith)
        requires
            ux <= 0x1_0000_0000,
    ;
    assert(uy * uy <= 0x1_0000_0000_0000_0000) by (nonlinear_arith)
        requires
            uy <= 0x1_0000_0000,
    ;
    ux * ux + uy * uy
}

impl Point {
    /// Squared distance to `other`.
    pub open spec fn spec_dist_sq(self, other: Point) -> int {
        sq_dist(self.x as int, self.y as int, other.x as int, other.y as int)
    }

    /// Squared distance to `other`.
    pub fn dist_sq(&self, other: &Point) -> (d: u128)
        ensures
            d == self.spec_dist_sq(*other),
    {
        dist_sq(self.x, self.y, other.x, other.y)
    }
}

impl Position {
    /// Squared distance to `other`, in cells.
    pub open spec fn spec_dist_sq(self, other: Position) -> int {
        sq_dist(self.x as int, self.y as int, other.x as int, other.y as int)
    }

    /// Squared distance to `other`, in cells.
    pub fn dist_sq(&self, other: &Position) -> (d: u128)
        ensures
            d == self.spec_dist_sq(*other),
    {
        dist_sq(self.x, self.y, other.x, other.y)
    }
}

} // verus!
