//! Grid points: the coordinate type every shape is built from.

use vstd::prelude::*;

use crate::arith::lemma_mul_bound;
use crate::arith::lemma_square_nonneg;
use crate::COORD_LIMIT;

verus! {

/// An ordered pair of bounded integer coordinates.
#[derive(Clone, Copy, Debug, PartialEq, Eq, Structural, Hash)]
pub struct Vec2 {
    pub x: i64,
    pub y: i64,
}

impl Vec2 {
    /// Both coordinates lie within the grid bound.
    pub open spec fn in_range(self) -> bool {
        -COORD_LIMIT <= self.x <= COORD_LIMIT && -COORD_LIMIT <= self.y <= COORD_LIMIT
    }

    pub fn new(x: i64, y: i64) -> (r: Vec2)
        requires
            -COORD_LIMIT <= x <= COORD_LIMIT,
            -COORD_LIMIT <= y <= COORD_LIMIT,
        ensures
            r == (Vec2 { x, y }),
            r.in_range(),
    {
        Vec2 { x, y }
    }
}

/// Every point of the sequence lies on the grid.
pub open spec fn all_in_range(vs: Seq<Vec2>) -> bool {
    forall|i: int| 0 <= i < vs.len() ==> (#[trigger] vs[i]).in_range()
}

/// Twice the signed area of the triangle `(o, a, b)`: positive when `b`
/// lies to the left of the directed line from `o` to `a`.
pub open spec fn cross(o: Vec2, a: Vec2, b: Vec2) -> int {
    (a.x - o.x) * (b.y - o.y) - (b.x - o.x) * (a.y - o.y)
}

/// Dot product of the displacements `a - o` and `b - o`.
pub open spec fn dot(o: Vec2, a: Vec2, b: Vec2) -> int {
    (a.x - o.x) * (b.x - o.x) + (a.y - o.y) * (b.y - o.y)
}

/// Squared Euclidean distance between two grid points.
pub open spec fn dist_sq(a: Vec2, b: Vec2) -> int {
    (b.x - a.x) * (b.x - a.x) + (b.y - a.y) * (b.y - a.y)
}

/// Exact evaluation of `cross` on bounded points.
pub fn cross_exec(o: Vec2, a: Vec2, b: Vec2) -> (r: i128)
    requires
        o.in_range(),
        a.in_range(),
        b.in_range(),
    ensures
        r == cross(o, a, b),
        -2200000000 <= r <= 2200000000,
{
    let ax = a.x as i128 - o.x as i128;
    let ay = a.y as i128 - o.y as i128;
    let bx = b.x as i128 - o.x as i128;
    let by = b.y as i128 - o.y as i128;
    proof {
        lemma_mul_bound(ax as int, by as int, 32768, 32768);
        lemma_mul_bound(bx as int, ay as int, 32768, 32768);
    }
    ax * by - bx * ay
}

/// Exact evaluation of `dot` on bounded points.
pub fn dot_exec(o: Vec2, a: Vec2, b: Vec2) -> (r: i128)
    requires
        o.in_range(),
        a.in_range(),
        b.in_range(),
    ensures
        r == dot(o, a, b),
        -2200000000 <= r <= 2200000000,
{
    let ax = a.x as i128 - o.x as i128;
    let ay = a.y as i128 - o.y as i128;
    let bx = b.x as i128 - o.x as i128;
    let by = b.y as i128 - o.y as i128;
    proof {
        lemma_mul_bound(ax as int, bx as int, 32768, 32768);
        lemma_mul_bound(ay as int, by as int, 32768, 32768);
    }
    ax * bx + ay * by
}

/// Exact evaluation of `dist_sq` on bounded points.
pub fn dist_sq_exec(a: Vec2, b: Vec2) -> (r: i128)
    requires
        a.in_range(),
        b.in_range(),
    ensures
        r == dist_sq(a, b),
        0 <= r <= 2200000000,
{
    let dx = b.x as i128 - a.x as i128;
    let dy = b.y as i128 - a.y as i128;
    proof {
        lemma_mul_bound(dx as int, dx as int, 32768, 32768);
        lemma_mul_bound(dy as int, dy as int, 32768, 32768);
        lemma_square_nonneg(dx as int);
        lemma_square_nonneg(dy as int);
    }
    dx * dx + dy * dy
}

} // verus!
