//! Axis-aligned bounding boxes given by center and extents.

use vstd::prelude::*;

use crate::rat::RatPoint;
use crate::vec2::Vec2;

verus! {

/// An axis-aligned box: `position` is the center, `size` the full
/// extent along each axis. It spans `position - size / 2` to
/// `position + size / 2`.
#[derive(Clone, Copy, Debug, PartialEq, Eq, Structural)]
pub struct Aabb {
    pub position: Vec2,
    pub size: Vec2,
}

/// Clamp `v` into `[lo, hi]` (all values doubled grid coordinates).
pub open spec fn clamp_spec(v: int, lo: int, hi: int) -> int {
    if v < lo {
        lo
    } else if v > hi {
        hi
    } else {
        v
    }
}

impl Aabb {
    /// Center and size are grid vectors, and the extents are nonnegative.
    pub open spec fn wf(self) -> bool {
        self.position.in_range() && self.size.in_range() && self.size.x >= 0 && self.size.y >= 0
    }

    pub fn new(position: Vec2, size: Vec2) -> (r: Aabb)
        requires
            position.in_range(),
            size.in_range(),
            size.x >= 0,
            size.y >= 0,
        ensures
            r == (Aabb { position, size }),
            r.wf(),
    {
        Aabb { position, size }
    }

    /// The point of the box nearest to `point`: each coordinate clamped
    /// into the box's span. Half extents make the bounds half-integers,
    /// so the result is exact over denominator two.
    pub fn closest_point(&self, point: Vec2) -> (r: RatPoint)
        requires
            self.wf(),
            point.in_range(),
        ensures
            r.wf(),
            r.d == 2,
            r.xn == clamp_spec(
                2 * point.x,
                2 * self.position.x - self.size.x,
                2 * self.position.x + self.size.x,
            ),
            r.yn == clamp_spec(
                2 * point.y,
                2 * self.position.y - self.size.y,
                2 * self.position.y + self.size.y,
            ),
    {
        let xlo = 2 * self.position.x as i128 - self.size.x as i128;
        let xhi = 2 * self.position.x as i128 + self.size.x as i128;
        let ylo = 2 * self.position.y as i128 - self.size.y as i128;
        let yhi = 2 * self.position.y as i128 + self.size.y as i128;
        let px = 2 * point.x as i128;
        let py = 2 * point.y as i128;
        let xn = if px < xlo {
            xlo
        } else if px > xhi {
            xhi
        } else {
            px
        };
        let yn = if py < ylo {
            ylo
        } else if py > yhi {
            yhi
        } else {
            py
        };
        RatPoint { xn, yn, d: 2 }
    }

    /// Strict interior test: the point lies strictly between the box's
    /// bounds on both axes.
    pub fn contains_point(&self, point: Vec2) -> (r: bool)
        requires
            self.wf(),
            point.in_range(),
        ensures
            r == (2 * self.position.x - self.size.x < 2 * point.x < 2 * self.position.x
                + self.size.x && 2 * self.position.y - self.size.y < 2 * point.y < 2
                * self.position.y + self.size.y),
    {
        let px = 2 * point.x as i128;
        let py = 2 * point.y as i128;
        let xlo = 2 * self.position.x as i128 - self.size.x as i128;
        let xhi = 2 * self.position.x as i128 + self.size.x as i128;
        let ylo = 2 * self.position.y as i128 - self.size.y as i128;
        let yhi = 2 * self.position.y as i128 + self.size.y as i128;
        xlo < px && px < xhi && ylo < py && py < yhi
    }
}

/// A contained point is its own closest point on the box.
pub proof fn lemma_aabb_closest_of_inside(b: Aabb, point: Vec2)
    requires
        b.wf(),
        point.in_range(),
        2 * b.position.x - b.size.x < 2 * point.x < 2 * b.position.x + b.size.x,
        2 * b.position.y - b.size.y < 2 * point.y < 2 * b.position.y + b.size.y,
    ensures
        clamp_spec(2 * point.x, 2 * b.position.x - b.size.x, 2 * b.position.x + b.size.x) == 2
            * point.x,
        clamp_spec(2 * point.y, 2 * b.position.y - b.size.y, 2 * b.position.y + b.size.y) == 2
            * point.y,
{
}

} // verus!
