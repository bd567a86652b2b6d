//! Rays: a start point and a direction, extending one way only.

use vstd::prelude::*;

use crate::arith::lemma_mul_bound;
use crate::arith::lemma_square_nonneg;
use crate::arith::lemma_square_pos;
use crate::line::Line2;
use crate::line_segment::LineSegment2;
use crate::rat::RatPoint;
use crate::vec2::Vec2;

verus! {

/// A ray from `start` in the direction `axis` (not normalized: unit
/// vectors are irrational in general, and the queries below do not
/// depend on the length of `axis`).
#[derive(Clone, Copy, Debug, PartialEq, Eq, Structural)]
pub struct LineRay2 {
    pub start: Vec2,
    pub axis: Vec2,
}

/// The squared length of a grid vector.
pub open spec fn norm_sq(v: Vec2) -> int {
    v.x * v.x + v.y * v.y
}

/// Unclamped projection numerator of `p` onto the ray `r`: the dot
/// product of `p - start` with the axis. The projection parameter is
/// this value over `norm_sq(r.axis)`.
pub open spec fn ray_t_raw(r: LineRay2, p: Vec2) -> int {
    (p.x - r.start.x) * r.axis.x + (p.y - r.start.y) * r.axis.y
}

impl LineRay2 {
    /// Start and direction are grid vectors and the direction is nonzero.
    pub open spec fn wf(self) -> bool {
        self.start.in_range() && self.axis.in_range() && !(self.axis.x == 0 && self.axis.y == 0)
    }

    pub fn new(start: Vec2, axis: Vec2) -> (r: LineRay2)
        requires
            start.in_range(),
            axis.in_range(),
            !(axis.x == 0 && axis.y == 0),
        ensures
            r == (LineRay2 { start, axis }),
            r.wf(),
    {
        LineRay2 { start, axis }
    }

    /// The point of the ray nearest to `point`: the projection onto the
    /// ray's line, clamped so it never falls behind the start.
    pub fn closest_point(&self, point: Vec2) -> (r: RatPoint)
        requires
            self.wf(),
            point.in_range(),
        ensures
            r.wf(),
            // t is the projection numerator, clamped below at zero;
            // the result is start + (t / |axis|^2) * axis
            ({
                let t = if ray_t_raw(*self, point) >= 0 {
                    ray_t_raw(*self, point)
                } else {
                    0
                };
                &&& r.d == norm_sq(self.axis)
                &&& r.xn == self.start.x * r.d + t * self.axis.x
                &&& r.yn == self.start.y * r.d + t * self.axis.y
            }),
            r.bounded(0x1000_0000_0000_0000, 0x100_0000_0000),
    {
        let ax = self.axis.x as i128;
        let ay = self.axis.y as i128;
        proof {
            lemma_mul_bound(ax as int, ax as int, 16384, 16384);
            lemma_mul_bound(ay as int, ay as int, 16384, 16384);
            lemma_square_nonneg(ax as int);
            lemma_square_nonneg(ay as int);
            if self.axis.x != 0 {
                lemma_square_pos(ax as int);
            } else {
                lemma_square_pos(ay as int);
            }
        }
        let den = ax * ax + ay * ay;
        proof {
            lemma_mul_bound((point.x - self.start.x) as int, ax as int, 32768, 16384);
            lemma_mul_bound((point.y - self.start.y) as int, ay as int, 32768, 16384);
        }
        let t_raw = (point.x as i128 - self.start.x as i128) * ax + (point.y as i128
            - self.start.y as i128) * ay;
        let t: i128 = if t_raw >= 0 {
            t_raw
        } else {
            0
        };
        proof {
            lemma_mul_bound(self.start.x as int, den as int, 16384, 0x2000_0000);
            lemma_mul_bound(self.start.y as int, den as int, 16384, 0x2000_0000);
            lemma_mul_bound(t as int, ax as int, 0x4000_0000, 16384);
            lemma_mul_bound(t as int, ay as int, 0x4000_0000, 16384);
        }
        RatPoint { xn: self.start.x as i128 * den + t * ax, yn: self.start.y as i128 * den + t * ay, d: den }
    }

    /// The segment from the start to `start + axis * t`.
    pub fn segment(&self, t: i64) -> (r: LineSegment2)
        requires
            self.wf(),
            -16384 <= self.start.x + self.axis.x * t <= 16384,
            -16384 <= self.start.y + self.axis.y * t <= 16384,
        ensures
            r.start == self.start,
            r.end.x == self.start.x + self.axis.x * t,
            r.end.y == self.start.y + self.axis.y * t,
            r.wf(),
    {
        proof {
            lemma_mul_bound(self.axis.x as int, t as int, 16384, 0x8000_0000_0000_0000);
            lemma_mul_bound(self.axis.y as int, t as int, 16384, 0x8000_0000_0000_0000);
        }
        let ex = self.start.x as i128 + self.axis.x as i128 * t as i128;
        let ey = self.start.y as i128 + self.axis.y as i128 * t as i128;
        LineSegment2 { start: self.start, end: Vec2 { x: ex as i64, y: ey as i64 } }
    }

    /// The infinite line the ray lies on.
    pub fn line(&self) -> (r: Line2)
        requires
            self.wf(),
        ensures
            r.wf(),
            r.contains_grid_point(self.start),
            r.a * self.axis.x + r.b * self.axis.y == 0,
    {
        Line2::new_from_point_axis(self.start, self.axis)
    }
}

} // verus!
