//! Circles with the stored-radius convention: every containment or
//! collision comparison uses half the stored `radius` field (the
//! "effective radius").

use vstd::prelude::*;

use crate::arith::lemma_mul_bound;
use crate::arith::lemma_square_pos;
use crate::rat::RatPoint;
use crate::vec2::dist_sq;
use crate::vec2::dist_sq_exec;
use crate::vec2::Vec2;
use crate::COORD_LIMIT;

verus! {

/// A circle given by its center and a positive stored radius; the
/// effective radius of every query is `radius / 2`.
#[derive(Clone, Copy, Debug, PartialEq, Eq, Structural)]
pub struct Circle {
    pub center: Vec2,
    pub radius: i64,
}

impl Circle {
    /// The center is a grid point and the stored radius is positive and
    /// bounded like a coordinate.
    pub open spec fn wf(self) -> bool {
        self.center.in_range() && 0 < self.radius <= COORD_LIMIT
    }

    /// The point lies within the effective radius of the center:
    /// `dist(center, p) <= radius / 2`, squared and scaled to integers.
    pub open spec fn contains_point_spec(self, point: Vec2) -> bool {
        4 * dist_sq(self.center, point) <= self.radius * self.radius
    }

    pub fn new(center: Vec2, radius: i64) -> (r: Circle)
        requires
            center.in_range(),
            0 < radius <= COORD_LIMIT,
        ensures
            r == (Circle { center, radius }),
            r.wf(),
    {
        Circle { center, radius }
    }

    /// Whether `point` lies inside or on the circle of the effective
    /// radius. Exact: compares squared distances.
    pub fn contains_point(&self, point: Vec2) -> (r: bool)
        requires
            self.wf(),
            point.in_range(),
        ensures
            r == self.contains_point_spec(point),
    {
        let d = dist_sq_exec(self.center, point);
        proof {
            lemma_mul_bound(self.radius as int, self.radius as int, 16384, 16384);
        }
        4 * d <= self.radius as i128 * self.radius as i128
    }

    /// The point of the circle (boundary or interior) nearest to `point`:
    /// the query point itself when it is contained, otherwise a point on
    /// the ray from the center through the query point at roughly the
    /// effective radius. The direction is exact; only the distance along
    /// it is rounded, since boundary points have irrational coordinates
    /// in general.
    pub fn closest_point(&self, point: Vec2) -> (r: RatPoint)
        requires
            self.wf(),
            point.in_range(),
        ensures
            r.wf(),
            self.contains_point_spec(point) ==> r.is_point(point),
            !self.contains_point_spec(point) ==> ({
                // r = center + (point - center) * radius * 1024 / (2 * n)
                // where n is the floor of 1024 times the distance
                let n = r.d / 2;
                &&& r.d == 2 * n
                &&& n * n <= 1048576 * dist_sq(self.center, point) < (n + 1) * (n + 1)
                &&& n > 0
                &&& r.xn == self.center.x * r.d + (point.x - self.center.x) * self.radius * 1024
                &&& r.yn == self.center.y * r.d + (point.y - self.center.y) * self.radius * 1024
            }),
            r.bounded(0x1000_0000_0000_0000, 0x100_0000_0000),
    {
        if self.contains_point(point) {
            RatPoint::from_vec2(point)
        } else {
            let dsq = dist_sq_exec(self.center, point);
            proof {
                // the point is strictly outside, so the distance is positive
                lemma_mul_bound(self.radius as int, self.radius as int, 16384, 16384);
                lemma_square_pos(self.radius as int);
            }
            proof {
                assert(dsq >= 1);
            }
            let n = crate::arith::isqrt(1048576 * dsq);
            proof {
                // 1024^2 * dsq >= 1 forces the root to be positive
                assert(n > 0) by (nonlinear_arith)
                    requires
                        n >= 0,
                        (n + 1) * (n + 1) > 1048576 * dsq,
                        1048576 * dsq >= 1048576,
                ;
                lemma_mul_bound(
                    (point.x - self.center.x) as int,
                    self.radius as int,
                    32768,
                    16384,
                );
                lemma_mul_bound(
                    (point.y - self.center.y) as int,
                    self.radius as int,
                    32768,
                    16384,
                );
                lemma_mul_bound(self.center.x as int, (2 * n) as int, 16384, 0x2_0000_0000);
                lemma_mul_bound(self.center.y as int, (2 * n) as int, 16384, 0x2_0000_0000);
            }
            let d = 2 * n;
            proof {
                assert(d / 2 == n);
            }
            let r = RatPoint {
                xn: self.center.x as i128 * d + (point.x as i128 - self.center.x as i128)
                    * self.radius as i128 * 1024,
                yn: self.center.y as i128 * d + (point.y as i128 - self.center.y as i128)
                    * self.radius as i128 * 1024,
                d,
            };
            proof {
                assert(0 < r.d <= 0x100_0000_0000);
                assert(0 < n < 0x8000_0000);
                assert(-0x8_0000_0000_0000 <= self.center.x * (2 * n) <= 0x8_0000_0000_0000);
                assert(-0x20000000 <= (point.x - self.center.x) * self.radius <= 0x20000000);
                assert(-0x1000_0000_0000_0000 <= r.xn <= 0x1000_0000_0000_0000);
                assert(-0x1000_0000_0000_0000 <= r.yn <= 0x1000_0000_0000_0000);
            }
            r
        }
    }
}

/// Every valid circle contains its own center.
pub proof fn lemma_circle_contains_center(c: Circle)
    requires
        c.wf(),
    ensures
        c.contains_point_spec(c.center),
{
    lemma_square_pos(c.radius as int);
}

/// For a point outside the circle, the closest point lies on the segment
/// from the center to the query point: its offset from the center is the
/// offset of the query point scaled by `radius * 1024 / (2 * n)`, a
/// factor in `(0, 1]`.
pub proof fn lemma_circle_closest_scale_in_unit(c: Circle, point: Vec2, n: int)
    requires
        c.wf(),
        point.in_range(),
        !c.contains_point_spec(point),
        n > 0,
        n * n <= 1048576 * dist_sq(c.center, point) < (n + 1) * (n + 1),
    ensures
        0 < c.radius * 1024 <= 2 * n,
{
    let dsq = dist_sq(c.center, point);
    let rr = c.radius as int;
    // squaring: (1024 rr)^2 < 4 * 1048576 * dsq < (2n + 2)^2
    assert((1024 * rr) * (1024 * rr) < (2 * (n + 1)) * (2 * (n + 1))) by (nonlinear_arith)
        requires
            4 * dsq > rr * rr,
            1048576 * dsq < (n + 1) * (n + 1),
    ;
    // both sides positive, so the roots compare the same way
    assert(1024 * rr < 2 * (n + 1)) by (nonlinear_arith)
        requires
            (1024 * rr) * (1024 * rr) < (2 * (n + 1)) * (2 * (n + 1)),
            rr > 0,
            n > 0,
    ;
    // 1024 * rr <= 2n + 1, and the left side is even, so it is at most 2n
    assert(2 * (512 * rr) <= 2 * n + 1);
    assert(512 * rr <= n);
}

/// The rounded boundary point returned for an outside query point misses
/// the effective radius only by the rounding of `n`: writing `N` for the
/// numerator of its squared distance to the center (over the denominator
/// `(2n)^2`), the effective radius squared `(radius / 2)^2` brackets
/// `N / (2n)^2` within the one-step window of `n`.
pub proof fn lemma_circle_closest_near_boundary(c: Circle, point: Vec2, n: int, r: RatPoint)
    requires
        c.wf(),
        point.in_range(),
        !c.contains_point_spec(point),
        n > 0,
        n * n <= 1048576 * dist_sq(c.center, point) < (n + 1) * (n + 1),
        r.d == 2 * n,
        r.xn == c.center.x * r.d + (point.x - c.center.x) * c.radius * 1024,
        r.yn == c.center.y * r.d + (point.y - c.center.y) * c.radius * 1024,
    ensures
        (c.radius * n) * (c.radius * n) <= (r.xn - c.center.x * r.d) * (r.xn - c.center.x * r.d) + (
        r.yn - c.center.y * r.d) * (r.yn - c.center.y * r.d) < (c.radius * (n + 1)) * (c.radius * (n
            + 1)),
{
    let rr = c.radius as int;
    let vx = (point.x - c.center.x) as int;
    let vy = (point.y - c.center.y) as int;
    let dsq = dist_sq(c.center, point);
    let nx = r.xn - c.center.x * r.d;
    let ny = r.yn - c.center.y * r.d;
    assert(nx == vx * rr * 1024 && ny == vy * rr * 1024);
    // the squared offset is (1024 rr)^2 * dsq
    assert(nx * nx + ny * ny == (rr * rr) * (1048576 * dsq)) by (nonlinear_arith)
        requires
            nx == vx * rr * 1024,
            ny == vy * rr * 1024,
            dsq == vx * vx + vy * vy,
    ;
    // bracket 1048576 * dsq by the squares of n and n + 1
    assert((rr * rr) * (n * n) <= (rr * rr) * (1048576 * dsq) < (rr * rr) * ((n + 1) * (n + 1)))
        by (nonlinear_arith)
        requires
            n * n <= 1048576 * dsq < (n + 1) * (n + 1),
            rr > 0,
    ;
    assert((rr * n) * (rr * n) == (rr * rr) * (n * n)) by (nonlinear_arith);
    assert((rr * (n + 1)) * (rr * (n + 1)) == (rr * rr) * ((n + 1) * (n + 1))) by (nonlinear_arith);
}

} // verus!
