//! Pairwise collision predicates over the shape set.

use vstd::prelude::*;

use crate::circle::Circle;
use crate::line_segment::seg_dist_den;
use crate::line_segment::seg_dist_num;
use crate::line_segment::LineSegment2;
use crate::vec2::cross;
use crate::vec2::cross_exec;
use crate::vec2::dist_sq;
use crate::vec2::Vec2;

verus! {

/// Counter-clockwise orientation of the triple `(a, b, c)`: `c` lies
/// strictly to the left of the directed line from `a` to `b`.
pub open spec fn ccw(a: Vec2, b: Vec2, c: Vec2) -> bool {
    cross(a, b, c) > 0
}

/// Two circles collide when their centers are closer than the average of
/// their effective radii, strictly; squared and scaled to integers.
pub open spec fn circle_circle_colliding(a: Circle, b: Circle) -> bool {
    4 * dist_sq(a.center, b.center) < (a.radius + b.radius) * (a.radius + b.radius)
}

/// A circle and a segment collide when the segment's nearest point to
/// the center lies strictly within the effective radius; the squared
/// distance is the exact ratio `seg_dist_num / seg_dist_den`.
pub open spec fn circle_segment_colliding(c: Circle, s: LineSegment2) -> bool {
    4 * seg_dist_num(s.start, s.end, c.center) < c.radius * c.radius * seg_dist_den(
        s.start,
        s.end,
        c.center,
    )
}

/// The classic orientation test: the segments intersect exactly when the
/// endpoints of each lie on strictly opposite sides of the other.
/// Collinear and touching configurations fall out of the strict
/// inequalities rather than being treated specially.
pub open spec fn segment_segment_colliding(a: LineSegment2, b: LineSegment2) -> bool {
    (ccw(a.start, b.start, b.end) != ccw(a.end, b.start, b.end)) && (ccw(a.start, a.end, b.start)
        != ccw(a.start, a.end, b.end))
}

/// Symmetric pairwise collision test between two shapes.
pub trait Colliding<T> {
    /// What both shapes must satisfy for the test to be meaningful
    /// (well-formedness of each side).
    spec fn colliding_req(&self, other: &T) -> bool;

    /// The exact predicate the test decides.
    spec fn colliding_spec(&self, other: &T) -> bool;

    /// Decide the collision, exactly.
    fn colliding(&self, other: &T) -> (r: bool)
        requires
            self.colliding_req(other),
        ensures
            r == self.colliding_spec(other),
    ;
}

impl Colliding<Circle> for Circle {
    open spec fn colliding_req(&self, other: &Circle) -> bool {
        self.wf() && other.wf()
    }

    open spec fn colliding_spec(&self, other: &Circle) -> bool {
        circle_circle_colliding(*self, *other)
    }

    fn colliding(&self, other: &Circle) -> (r: bool) {
        let d = crate::vec2::dist_sq_exec(self.center, other.center);
        let combined = self.radius as i128 + other.radius as i128;
        proof {
            crate::arith::lemma_mul_bound(combined as int, combined as int, 32768, 32768);
        }
        4 * d < combined * combined
    }
}

impl Colliding<LineSegment2> for Circle {
    open spec fn colliding_req(&self, other: &LineSegment2) -> bool {
        self.wf() && other.wf()
    }

    open spec fn colliding_spec(&self, other: &LineSegment2) -> bool {
        circle_segment_colliding(*self, *other)
    }

    fn colliding(&self, other: &LineSegment2) -> (r: bool) {
        let (num, den) = other.dist_sq_key(self.center);
        proof {
            crate::arith::lemma_mul_bound(self.radius as int, self.radius as int, 16384, 16384);
            crate::arith::lemma_mul_bound(
                (self.radius * self.radius) as int,
                den as int,
                0x1000_0000,
                0x1_0000_0000,
            );
        }
        4 * num < self.radius as i128 * self.radius as i128 * den
    }
}

impl Colliding<Circle> for LineSegment2 {
    open spec fn colliding_req(&self, other: &Circle) -> bool {
        self.wf() && other.wf()
    }

    open spec fn colliding_spec(&self, other: &Circle) -> bool {
        circle_segment_colliding(*other, *self)
    }

    fn colliding(&self, other: &Circle) -> (r: bool) {
        other.colliding(self)
    }
}

impl Colliding<LineSegment2> for LineSegment2 {
    open spec fn colliding_req(&self, other: &LineSegment2) -> bool {
        self.wf() && other.wf()
    }

    open spec fn colliding_spec(&self, other: &LineSegment2) -> bool {
        segment_segment_colliding(*self, *other)
    }

    fn colliding(&self, other: &LineSegment2) -> (r: bool) {
        let d1 = cross_exec(self.start, other.start, other.end);
        let d2 = cross_exec(self.end, other.start, other.end);
        let d3 = cross_exec(self.start, self.end, other.start);
        let d4 = cross_exec(self.start, self.end, other.end);
        ((d1 > 0) != (d2 > 0)) && ((d3 > 0) != (d4 > 0))
    }
}

/// The orientation of a triple is unchanged by rotating it.
proof fn lemma_cross_cyclic(a: Vec2, b: Vec2, c: Vec2)
    ensures
        cross(a, b, c) == cross(b, c, a),
{
    assert(cross(a, b, c) == cross(b, c, a)) by (nonlinear_arith)
        requires
            cross(a, b, c) == (b.x - a.x) * (c.y - a.y) - (c.x - a.x) * (b.y - a.y),
            cross(b, c, a) == (c.x - b.x) * (a.y - b.y) - (a.x - b.x) * (c.y - b.y),
    ;
}

/// Circle-circle collision is symmetric.
pub proof fn lemma_circle_circle_colliding_sym(a: Circle, b: Circle)
    ensures
        circle_circle_colliding(a, b) == circle_circle_colliding(b, a),
{
    assert(dist_sq(a.center, b.center) == dist_sq(b.center, a.center)) by (nonlinear_arith)
        requires
            dist_sq(a.center, b.center) == (b.center.x - a.center.x) * (b.center.x - a.center.x) + (
            b.center.y - a.center.y) * (b.center.y - a.center.y),
            dist_sq(b.center, a.center) == (a.center.x - b.center.x) * (a.center.x - b.center.x) + (
            a.center.y - b.center.y) * (a.center.y - b.center.y),
    ;
}

/// Circle-segment collision is symmetric: both directions decide the
/// same predicate by definition.
pub proof fn lemma_circle_segment_colliding_sym(c: Circle, s: LineSegment2)
    ensures
        c.colliding_spec(&s) == s.colliding_spec(&c),
{
}

/// Segment-segment collision is symmetric: swapping the segments swaps
/// the two straddle conditions, each unchanged by the cyclic invariance
/// of orientation.
pub proof fn lemma_segment_segment_colliding_sym(a: LineSegment2, b: LineSegment2)
    ensures
        segment_segment_colliding(a, b) == segment_segment_colliding(b, a),
{
    lemma_cross_cyclic(b.start, a.start, a.end);
    lemma_cross_cyclic(a.start, a.end, b.start);
    lemma_cross_cyclic(b.end, a.start, a.end);
    lemma_cross_cyclic(a.start, a.end, b.end);
    lemma_cross_cyclic(a.start, b.start, b.end);
    lemma_cross_cyclic(b.start, b.end, a.start);
    lemma_cross_cyclic(a.end, b.start, b.end);
    lemma_cross_cyclic(b.start, b.end, a.end);
}

} // verus!
