//! Triangles over grid points, with their derived queries: orientation,
//! containment, circumcenter, circumcircle and centroid.

use vstd::prelude::*;

use crate::arith::lemma_diff_sq;
use crate::arith::tdiv;
use crate::arith::lemma_mul_bound;
use crate::arith::lemma_mul_comm_two;
use crate::line::Line2;
use crate::line_segment::LineSegment2;
use crate::rat::RatPoint;
use crate::vec2::cross;
use crate::vec2::cross_exec;
use crate::vec2::Vec2;
use vstd::arithmetic::mul::lemma_mul_is_associative;
use vstd::arithmetic::mul::lemma_mul_is_commutative;
use vstd::arithmetic::mul::lemma_mul_is_distributive_add;
use vstd::arithmetic::mul::lemma_mul_is_distributive_add_other_way;
use vstd::arithmetic::mul::lemma_mul_is_distributive_sub;
use vstd::arithmetic::mul::lemma_mul_is_distributive_sub_other_way;
use vstd::arithmetic::mul::lemma_mul_cancels_negatives;
use vstd::arithmetic::mul::lemma_mul_unary_negation;

verus! {

/// A triangle with vertices `a`, `b`, `c`. Winding is derived from the
/// signed area, never stored; degenerate (collinear) triangles are
/// representable and rejected by the queries that need a proper one.
#[derive(Clone, Copy, Debug, PartialEq, Eq, Structural)]
pub struct Triangle2 {
    pub a: Vec2,
    pub b: Vec2,
    pub c: Vec2,
}

/// The numerator of the squared distance between a rational point and a
/// grid point, over the denominator `q.d * q.d`.
pub open spec fn rat_dist_sq_num(q: RatPoint, v: Vec2) -> int {
    (q.xn - v.x * q.d) * (q.xn - v.x * q.d) + (q.yn - v.y * q.d) * (q.yn - v.y * q.d)
}

/// The implicit coefficients of the perpendicular bisector of `ab`,
/// written out over the triangle's fields (see
/// `LineSegment2::perpendicular_bisector`).
pub open spec fn cc_a1(t: Triangle2) -> int {
    2 * (t.b.x - t.a.x)
}

pub open spec fn cc_b1(t: Triangle2) -> int {
    2 * (t.b.y - t.a.y)
}

pub open spec fn cc_c1(t: Triangle2) -> int {
    (t.b.x - t.a.x) * (t.a.x + t.b.x) + (t.b.y - t.a.y) * (t.a.y + t.b.y)
}

/// The implicit coefficients of the perpendicular bisector of `bc`.
pub open spec fn cc_a2(t: Triangle2) -> int {
    2 * (t.c.x - t.b.x)
}

pub open spec fn cc_b2(t: Triangle2) -> int {
    2 * (t.c.y - t.b.y)
}

pub open spec fn cc_c2(t: Triangle2) -> int {
    (t.c.x - t.b.x) * (t.b.x + t.c.x) + (t.c.y - t.b.y) * (t.b.y + t.c.y)
}

/// The determinant of the two bisectors (four times the doubled signed
/// area) and the raw Cramer solution: the circumcenter is
/// `(cc_xn / cc_det, cc_yn / cc_det)`.
pub open spec fn cc_det(t: Triangle2) -> int {
    cc_a1(t) * cc_b2(t) - cc_a2(t) * cc_b1(t)
}

pub open spec fn cc_xn(t: Triangle2) -> int {
    cc_b2(t) * cc_c1(t) - cc_b1(t) * cc_c2(t)
}

pub open spec fn cc_yn(t: Triangle2) -> int {
    cc_a1(t) * cc_c2(t) - cc_a2(t) * cc_c1(t)
}

/// Whether `p` lies inside or on the circumcircle of `t`: its squared
/// distance to the circumcenter is at most the vertex `a`'s. Stated over
/// the raw Cramer values; the comparison is invariant under the joint
/// sign normalization of the denominator.
pub open spec fn in_circumcircle(t: Triangle2, p: Vec2) -> bool {
    (cc_xn(t) - p.x * cc_det(t)) * (cc_xn(t) - p.x * cc_det(t)) + (cc_yn(t) - p.y * cc_det(t)) * (
    cc_yn(t) - p.y * cc_det(t)) <= (cc_xn(t) - t.a.x * cc_det(t)) * (cc_xn(t) - t.a.x * cc_det(t))
        + (cc_yn(t) - t.a.y * cc_det(t)) * (cc_yn(t) - t.a.y * cc_det(t))
}

/// A circle through three triangle vertices: the circumcenter together
/// with one vertex on the boundary. Its effective radius is the distance
/// from the center to that vertex, so containment is decided exactly by
/// comparing squared-distance numerators over the shared denominator.
#[derive(Clone, Copy, Debug, PartialEq, Eq, Structural)]
pub struct Circumcircle {
    pub center: RatPoint,
    pub through: Vec2,
}

impl Circumcircle {
    /// The center is bounded tightly enough that the containment
    /// comparison below stays within `i128`.
    pub open spec fn wf(self) -> bool {
        self.through.in_range() && self.center.bounded(0x4_0000_0000_0000, 0x8_0000_0000)
    }

    /// The point lies inside or on the circle.
    pub open spec fn contains_point_spec(self, point: Vec2) -> bool {
        rat_dist_sq_num(self.center, point) <= rat_dist_sq_num(self.center, self.through)
    }

    /// Whether `point` is inside or on the circle; exact.
    pub fn contains_point(&self, point: Vec2) -> (r: bool)
        requires
            self.wf(),
            point.in_range(),
        ensures
            r == self.contains_point_spec(point),
    {
        proof {
            lemma_mul_bound(point.x as int, self.center.d as int, 16384, 0x8_0000_0000);
            lemma_mul_bound(point.y as int, self.center.d as int, 16384, 0x8_0000_0000);
            lemma_mul_bound(self.through.x as int, self.center.d as int, 16384, 0x8_0000_0000);
            lemma_mul_bound(self.through.y as int, self.center.d as int, 16384, 0x8_0000_0000);
        }
        let nx = self.center.xn - point.x as i128 * self.center.d;
        let ny = self.center.yn - point.y as i128 * self.center.d;
        let tx = self.center.xn - self.through.x as i128 * self.center.d;
        let ty = self.center.yn - self.through.y as i128 * self.center.d;
        proof {
            lemma_mul_bound(nx as int, nx as int, 0x8_0000_0000_0000, 0x8_0000_0000_0000);
            lemma_mul_bound(ny as int, ny as int, 0x8_0000_0000_0000, 0x8_0000_0000_0000);
            lemma_mul_bound(tx as int, tx as int, 0x8_0000_0000_0000, 0x8_0000_0000_0000);
            lemma_mul_bound(ty as int, ty as int, 0x8_0000_0000_0000, 0x8_0000_0000_0000);
        }
        nx * nx + ny * ny <= tx * tx + ty * ty
    }
}

/// Negating a rational point's numerators and denominator together
/// leaves its squared distance to any grid point unchanged.
proof fn lemma_rat_dist_neg(q: RatPoint, v: Vec2, xn: int, yn: int, d: int)
    requires
        q.xn == -xn,
        q.yn == -yn,
        q.d == -d,
    ensures
        rat_dist_sq_num(q, v) == (xn - v.x * d) * (xn - v.x * d) + (yn - v.y * d) * (yn - v.y * d),
{
    lemma_mul_unary_negation(v.x as int, d);
    lemma_mul_unary_negation(v.y as int, d);
    assert(q.xn - v.x * q.d == -(xn - v.x * d));
    assert(q.yn - v.y * q.d == -(yn - v.y * d));
    lemma_mul_cancels_negatives(xn - v.x * d, xn - v.x * d);
    lemma_mul_cancels_negatives(yn - v.y * d, yn - v.y * d);
}

/// A point on the perpendicular bisector of `(u, v)` is equidistant
/// from `u` and `v`; stated over squared-distance numerators.
proof fn lemma_bisector_equidistant(u: Vec2, v: Vec2, l: Line2, q: RatPoint)
    requires
        l.a == 2 * (v.x - u.x),
        l.b == 2 * (v.y - u.y),
        l.a * (u.x + v.x) + l.b * (u.y + v.y) == 2 * l.c,
        l.contains_rat_point(q),
    ensures
        rat_dist_sq_num(q, u) == rat_dist_sq_num(q, v),
{
    let uxd = u.x as int * q.d as int;
    let vxd = v.x as int * q.d as int;
    let uyd = u.y as int * q.d as int;
    let vyd = v.y as int * q.d as int;
    // difference of squares, per coordinate
    lemma_diff_sq(q.xn as int, uxd, vxd);
    lemma_diff_sq(q.yn as int, uyd, vyd);
    let su = 2 * q.xn as int - uxd - vxd;
    let sv = 2 * q.yn as int - uyd - vyd;
    // (v.x - u.x) * q.d == vxd - uxd
    lemma_mul_is_distributive_sub_other_way(q.d as int, v.x as int, u.x as int);
    lemma_mul_is_distributive_sub_other_way(q.d as int, v.y as int, u.y as int);
    let dx = v.x as int - u.x as int;
    let dy = v.y as int - u.y as int;
    // su * (dx * d) == (su * dx) * d, and the same for y
    lemma_mul_is_associative(su, dx, q.d as int);
    lemma_mul_is_associative(sv, dy, q.d as int);
    lemma_mul_is_distributive_add_other_way(q.d as int, su * dx, sv * dy);
    assert(rat_dist_sq_num(q, u) - rat_dist_sq_num(q, v) == (su * dx + sv * dy) * q.d);
    // relate su * dx + sv * dy to the line equation
    // su * l.a == 2 * (su * dx), sv * l.b == 2 * (sv * dy)
    lemma_mul_is_associative(su, 2, dx);
    lemma_mul_is_commutative(su, 2);
    lemma_mul_is_associative(2, su, dx);
    lemma_mul_is_associative(sv, 2, dy);
    lemma_mul_is_commutative(sv, 2);
    lemma_mul_is_associative(2, sv, dy);
    assert(su * l.a == 2 * (su * dx) && sv * l.b == 2 * (sv * dy));
    // expand su * l.a + sv * l.b against the line equation
    lemma_mul_is_distributive_sub_other_way(l.a as int, 2 * q.xn - uxd, vxd);
    lemma_mul_is_distributive_sub_other_way(l.a as int, 2 * q.xn, uxd);
    lemma_mul_is_distributive_sub_other_way(l.b as int, 2 * q.yn - uyd, vyd);
    lemma_mul_is_distributive_sub_other_way(l.b as int, 2 * q.yn, uyd);
    // (2 xn) * a == 2 * (xn * a) == 2 * (a * xn)
    lemma_mul_is_associative(2, q.xn as int, l.a as int);
    lemma_mul_is_commutative(q.xn as int, l.a as int);
    lemma_mul_is_associative(2, q.yn as int, l.b as int);
    lemma_mul_is_commutative(q.yn as int, l.b as int);
    // (u.x * d) * a == (a * u.x) * d etc.
    lemma_mul_is_associative(u.x as int, q.d as int, l.a as int);
    lemma_mul_is_commutative(q.d as int, l.a as int);
    lemma_mul_is_associative(u.x as int, l.a as int, q.d as int);
    lemma_mul_is_commutative(u.x as int, l.a as int);
    lemma_mul_is_associative(l.a as int, u.x as int, q.d as int);
    lemma_mul_is_associative(v.x as int, q.d as int, l.a as int);
    lemma_mul_is_associative(v.x as int, l.a as int, q.d as int);
    lemma_mul_is_commutative(v.x as int, l.a as int);
    lemma_mul_is_associative(l.a as int, v.x as int, q.d as int);
    lemma_mul_is_associative(u.y as int, q.d as int, l.b as int);
    lemma_mul_is_commutative(q.d as int, l.b as int);
    lemma_mul_is_associative(u.y as int, l.b as int, q.d as int);
    lemma_mul_is_commutative(u.y as int, l.b as int);
    lemma_mul_is_associative(l.b as int, u.y as int, q.d as int);
    lemma_mul_is_associative(v.y as int, q.d as int, l.b as int);
    lemma_mul_is_associative(v.y as int, l.b as int, q.d as int);
    lemma_mul_is_commutative(v.y as int, l.b as int);
    lemma_mul_is_associative(l.b as int, v.y as int, q.d as int);
    // l.a * (u.x + v.x) == l.a * u.x + l.a * v.x etc.
    lemma_mul_is_distributive_add(l.a as int, u.x as int, v.x as int);
    lemma_mul_is_distributive_add(l.b as int, u.y as int, v.y as int);
    // assemble: su * l.a + sv * l.b
    //   == 2 * (l.a * xn + l.b * yn) - (l.a * (ux + vx) + l.b * (uy + vy)) * d
    //   == 2 * (l.c * d) - (2 * l.c) * d == 0
    lemma_mul_is_distributive_add_other_way(
        q.d as int,
        l.a * (u.x + v.x) as int,
        l.b * (u.y + v.y) as int,
    );
    lemma_mul_is_associative(2, l.c as int, q.d as int);
    assert(su * l.a + sv * l.b == 0) by {
        assert(su * l.a == 2 * ((l.a * q.xn)) - ((l.a * u.x) * q.d + (l.a * v.x) * q.d));
        assert(sv * l.b == 2 * ((l.b * q.yn)) - ((l.b * u.y) * q.d + (l.b * v.y) * q.d));
        assert((l.a * (u.x + v.x)) * q.d == (l.a * u.x) * q.d + (l.a * v.x) * q.d) by {
            lemma_mul_is_distributive_add_other_way(
                q.d as int,
                l.a * u.x as int,
                l.a * v.x as int,
            );
        }
        assert((l.b * (u.y + v.y)) * q.d == (l.b * u.y) * q.d + (l.b * v.y) * q.d) by {
            lemma_mul_is_distributive_add_other_way(
                q.d as int,
                l.b * u.y as int,
                l.b * v.y as int,
            );
        }
        assert((l.a * (u.x + v.x) + l.b * (u.y + v.y)) * q.d == (2 * l.c) * q.d) by {
            lemma_mul_is_distributive_add_other_way(
                q.d as int,
                l.a * (u.x + v.x) as int,
                l.b * (u.y + v.y) as int,
            );
        }
    }
    // therefore the two distance numerators differ by zero
    assert(2 * (su * dx) + 2 * (sv * dy) == 0);
    assert((su * dx + sv * dy) * q.d == 0 * q.d) by {
        lemma_mul_is_distributive_add_other_way(q.d as int, su * dx, sv * dy);
    }
    assert(0 * q.d == 0) by {
        vstd::arithmetic::mul::lemma_mul_by_zero_is_zero(q.d as int);
    }
}

impl Triangle2 {
    /// All three vertices are grid points.
    pub open spec fn wf(self) -> bool {
        self.a.in_range() && self.b.in_range() && self.c.in_range()
    }

    pub fn new(a: Vec2, b: Vec2, c: Vec2) -> (r: Triangle2)
        requires
            a.in_range(),
            b.in_range(),
            c.in_range(),
        ensures
            r == (Triangle2 { a, b, c }),
            r.wf(),
    {
        Triangle2 { a, b, c }
    }

    pub fn a(&self) -> (r: Vec2)
        ensures
            r == self.a,
    {
        self.a
    }

    pub fn set_a(&mut self, a: Vec2)
        requires
            a.in_range(),
        ensures
            final (self).a == a,
            final (self).b == old(self).b,
            final (self).c == old(self).c,
    {
        self.a = a;
    }

    pub fn b(&self) -> (r: Vec2)
        ensures
            r == self.b,
    {
        self.b
    }

    pub fn set_b(&mut self, b: Vec2)
        requires
            b.in_range(),
        ensures
            final (self).b == b,
            final (self).a == old(self).a,
            final (self).c == old(self).c,
    {
        self.b = b;
    }

    pub fn c(&self) -> (r: Vec2)
        ensures
            r == self.c,
    {
        self.c
    }

    pub fn set_c(&mut self, c: Vec2)
        requires
            c.in_range(),
        ensures
            final (self).c == c,
            final (self).a == old(self).a,
            final (self).b == old(self).b,
    {
        self.c = c;
    }

    /// The three edges, in order.
    pub fn edges(&self) -> (r: [LineSegment2; 3])
        requires
            self.wf(),
        ensures
            r[0] == (LineSegment2 { start: self.a, end: self.b }),
            r[1] == (LineSegment2 { start: self.b, end: self.c }),
            r[2] == (LineSegment2 { start: self.c, end: self.a }),
    {
        [self.ab(), self.bc(), self.ca()]
    }

    pub fn ab(&self) -> (r: LineSegment2)
        requires
            self.wf(),
        ensures
            r == (LineSegment2 { start: self.a, end: self.b }),
            r.wf(),
    {
        LineSegment2 { start: self.a, end: self.b }
    }

    pub fn bc(&self) -> (r: LineSegment2)
        requires
            self.wf(),
        ensures
            r == (LineSegment2 { start: self.b, end: self.c }),
            r.wf(),
    {
        LineSegment2 { start: self.b, end: self.c }
    }

    pub fn ca(&self) -> (r: LineSegment2)
        requires
            self.wf(),
        ensures
            r == (LineSegment2 { start: self.c, end: self.a }),
            r.wf(),
    {
        LineSegment2 { start: self.c, end: self.a }
    }

    /// The vertex order winds clockwise (in the shoelace sense: the
    /// doubled signed area is positive).
    pub fn is_clockwise(&self) -> (r: bool)
        requires
            self.wf(),
        ensures
            r == (cross(self.a, self.b, self.c) > 0),
    {
        cross_exec(self.a, self.b, self.c) > 0
    }

    /// Three-sign containment: the signed areas of `(p, a, b)`,
    /// `(p, b, c)` and `(p, c, a)` never strictly disagree in sign.
    /// Points on an edge count as inside.
    pub open spec fn contains_point_spec(self, point: Vec2) -> bool {
        let d1 = cross(self.b, point, self.a);
        let d2 = cross(self.c, point, self.b);
        let d3 = cross(self.a, point, self.c);
        !((d1 < 0 || d2 < 0 || d3 < 0) && (d1 > 0 || d2 > 0 || d3 > 0))
    }

    /// Whether `point` lies in the triangle (edges included); exact.
    pub fn contains_point(&self, point: Vec2) -> (r: bool)
        requires
            self.wf(),
            point.in_range(),
        ensures
            r == self.contains_point_spec(point),
    {
        let d1 = cross_exec(self.b, point, self.a);
        let d2 = cross_exec(self.c, point, self.b);
        let d3 = cross_exec(self.a, point, self.c);
        let has_neg = d1 < 0 || d2 < 0 || d3 < 0;
        let has_pos = d1 > 0 || d2 > 0 || d3 > 0;
        !(has_neg && has_pos)
    }

    /// The intersection of the perpendicular bisectors of `ab` and `bc`:
    /// the point equidistant from all three vertices. Absent exactly for
    /// degenerate (collinear) triangles.
    pub fn circumcenter(&self) -> (r: Option<RatPoint>)
        requires
            self.wf(),
        ensures
            match r {
                Some(q) => {
                    &&& cross(self.a, self.b, self.c) != 0
                    &&& q.wf()
                    &&& rat_dist_sq_num(q, self.a) == rat_dist_sq_num(q, self.b)
                    &&& rat_dist_sq_num(q, self.b) == rat_dist_sq_num(q, self.c)
                    &&& q.bounded(0x4_0000_0000_0000, 0x8_0000_0000)
                    &&& cc_det(*self) != 0
                    &&& (cc_det(*self) > 0 ==> q.xn == cc_xn(*self) && q.yn == cc_yn(*self) && q.d
                        == cc_det(*self))
                    &&& (cc_det(*self) < 0 ==> q.xn == -cc_xn(*self) && q.yn == -cc_yn(*self)
                        && q.d == -cc_det(*self))
                },
                None => cross(self.a, self.b, self.c) == 0,
            },
    {
        if self.a.x == self.b.x && self.a.y == self.b.y {
            proof {
                assert(cross(self.a, self.b, self.c) == 0) by (nonlinear_arith)
                    requires
                        cross(self.a, self.b, self.c) == (self.b.x - self.a.x) * (self.c.y
                            - self.a.y) - (self.c.x - self.a.x) * (self.b.y - self.a.y),
                        self.b.x == self.a.x,
                        self.b.y == self.a.y,
                ;
            }
            None
        } else if self.b.x == self.c.x && self.b.y == self.c.y {
            proof {
                assert(cross(self.a, self.b, self.c) == 0) by (nonlinear_arith)
                    requires
                        cross(self.a, self.b, self.c) == (self.b.x - self.a.x) * (self.c.y
                            - self.a.y) - (self.c.x - self.a.x) * (self.b.y - self.a.y),
                        self.c.x == self.b.x,
                        self.c.y == self.b.y,
                ;
            }
            None
        } else {
            let bisector1 = self.ab().perpendicular_bisector();
            let bisector2 = self.bc().perpendicular_bisector();
            proof {
                // the bisector determinant is four times the signed area
                assert(bisector1.a * bisector2.b - bisector2.a * bisector1.b == 4 * cross(
                    self.a,
                    self.b,
                    self.c,
                )) by (nonlinear_arith)
                    requires
                        bisector1.a == 2 * (self.b.x - self.a.x),
                        bisector1.b == 2 * (self.b.y - self.a.y),
                        bisector2.a == 2 * (self.c.x - self.b.x),
                        bisector2.b == 2 * (self.c.y - self.b.y),
                        cross(self.a, self.b, self.c) == (self.b.x - self.a.x) * (self.c.y
                            - self.a.y) - (self.c.x - self.a.x) * (self.b.y - self.a.y),
                ;
            }
            proof {
                assert(bisector1.a == cc_a1(*self) && bisector1.b == cc_b1(*self) && bisector1.c
                    == cc_c1(*self));
                assert(bisector2.a == cc_a2(*self) && bisector2.b == cc_b2(*self) && bisector2.c
                    == cc_c2(*self));
            }
            match bisector1.intersection_point(bisector2) {
                Some(q) => {
                    proof {
                        lemma_bisector_equidistant(self.a, self.b, bisector1, q);
                        lemma_bisector_equidistant(self.b, self.c, bisector2, q);
                        assert(bisector1.a * bisector2.b - bisector2.a * bisector1.b == cc_det(
                            *self,
                        ));
                        assert(bisector2.b * bisector1.c - bisector1.b * bisector2.c == cc_xn(
                            *self,
                        ));
                        assert(bisector1.a * bisector2.c - bisector2.a * bisector1.c == cc_yn(
                            *self,
                        ));
                        // tighter bounds from the explicit solution fields
                        let det = bisector1.a * bisector2.b - bisector2.a * bisector1.b;
                        lemma_mul_bound(bisector2.b as int, bisector1.c as int, 65536, 0x8000_0000);
                        lemma_mul_bound(bisector1.b as int, bisector2.c as int, 65536, 0x8000_0000);
                        lemma_mul_bound(bisector1.a as int, bisector2.c as int, 65536, 0x8000_0000);
                        lemma_mul_bound(bisector2.a as int, bisector1.c as int, 65536, 0x8000_0000);
                        lemma_mul_bound(bisector1.a as int, bisector2.b as int, 65536, 65536);
                        lemma_mul_bound(bisector2.a as int, bisector1.b as int, 65536, 65536);
                    }
                    Some(q)
                },
                None => {
                    proof {
                        assert(cross(self.a, self.b, self.c) == 0);
                    }
                    None
                },
            }
        }
    }

    /// The circumscribed circle: the circumcenter with one vertex marking
    /// the boundary, so that containment queries are exact. Absent for
    /// degenerate triangles.
    pub fn circumcircle(&self) -> (r: Option<Circumcircle>)
        requires
            self.wf(),
        ensures
            match r {
                Some(cc) => {
                    &&& cross(self.a, self.b, self.c) != 0
                    &&& cc.wf()
                    &&& cc.through == self.a
                    &&& rat_dist_sq_num(cc.center, self.a) == rat_dist_sq_num(cc.center, self.b)
                    &&& rat_dist_sq_num(cc.center, self.b) == rat_dist_sq_num(cc.center, self.c)
                    &&& forall|p: Vec2| #[trigger]
                        cc.contains_point_spec(p) == in_circumcircle(*self, p)
                },
                None => cross(self.a, self.b, self.c) == 0,
            },
    {
        match self.circumcenter() {
            Some(center) => {
                let r = Circumcircle { center, through: self.a };
                proof {
                    assert forall|p: Vec2| #[trigger]
                        r.contains_point_spec(p) == in_circumcircle(*self, p) by {
                        if cc_det(*self) < 0 {
                            lemma_rat_dist_neg(center, p, cc_xn(*self), cc_yn(*self), cc_det(*self));
                            lemma_rat_dist_neg(
                                center,
                                self.a,
                                cc_xn(*self),
                                cc_yn(*self),
                                cc_det(*self),
                            );
                        }
                    }
                }
                Some(r)
            },
            None => None,
        }
    }

    /// The intersection of two medians: `(a + b + c) / 3`, exactly, for
    /// a proper triangle; absent for degenerate ones, where the medians
    /// are parallel.
    pub fn centroid(&self) -> (r: Option<RatPoint>)
        requires
            self.wf(),
        ensures
            match r {
                Some(q) => {
                    &&& cross(self.a, self.b, self.c) != 0
                    &&& q.d == 3
                    &&& q.xn == self.a.x + self.b.x + self.c.x
                    &&& q.yn == self.a.y + self.b.y + self.c.y
                },
                None => cross(self.a, self.b, self.c) == 0,
            },
    {
        let cr = cross_exec(self.a, self.b, self.c);
        if cr != 0 {
            Some(
                RatPoint {
                    xn: self.a.x as i128 + self.b.x as i128 + self.c.x as i128,
                    yn: self.a.y as i128 + self.b.y as i128 + self.c.y as i128,
                    d: 3,
                },
            )
        } else {
            None
        }
    }

    /// Uniform scale about the centroid by the ratio `num / den`, with
    /// each resulting coordinate rounded toward zero. A degenerate
    /// triangle (no centroid) is left unchanged, as is the triangle when
    /// a scaled coordinate would leave the grid.
    pub fn scale(&mut self, num: i64, den: i64)
        requires
            old(self).wf(),
            0 <= num <= 16384,
            0 < den <= 16384,
        ensures
            final (self).a == scaled_vertex_spec(*old(self), old(self).a, num as int, den as int),
            final (self).b == scaled_vertex_spec(*old(self), old(self).b, num as int, den as int),
            final (self).c == scaled_vertex_spec(*old(self), old(self).c, num as int, den as int),
    {
        let cr = cross_exec(self.a, self.b, self.c);
        if cr == 0 {
            return ;
        }
        let sx = self.a.x as i128 + self.b.x as i128 + self.c.x as i128;
        let sy = self.a.y as i128 + self.b.y as i128 + self.c.y as i128;
        let na = scaled_coord(sx, self.a.x, num, den);
        let nb_x = scaled_coord(sx, self.b.x, num, den);
        let nc_x = scaled_coord(sx, self.c.x, num, den);
        let na_y = scaled_coord(sy, self.a.y, num, den);
        let nb_y = scaled_coord(sy, self.b.y, num, den);
        let nc_y = scaled_coord(sy, self.c.y, num, den);
        match (na, nb_x, nc_x, na_y, nb_y, nc_y) {
            (Some(ax), Some(bx), Some(cx), Some(ay), Some(by), Some(cy)) => {
                self.a = Vec2 { x: ax, y: ay };
                self.b = Vec2 { x: bx, y: by };
                self.c = Vec2 { x: cx, y: cy };
            },
            _ => {},
        }
    }

    /// The scaled copy of the triangle; see `scale`.
    pub fn scaled(&self, num: i64, den: i64) -> (r: Triangle2)
        requires
            self.wf(),
            0 <= num <= 16384,
            0 < den <= 16384,
        ensures
            r.a == scaled_vertex_spec(*self, self.a, num as int, den as int),
            r.b == scaled_vertex_spec(*self, self.b, num as int, den as int),
            r.c == scaled_vertex_spec(*self, self.c, num as int, den as int),
    {
        let mut t = *self;
        t.scale(num, den);
        t
    }
}

/// Where a scaled vertex coordinate lands: the centroid plus the scaled
/// offset from it, over the common denominator `3 * den`, truncated.
pub open spec fn scaled_coord_spec(sum: int, v: int, num: int, den: int) -> int {
    tdiv(sum * (den - num) + 3 * num * v, 3 * den)
}

/// The vertex a `scale(num / den)` call moves `v` to: unchanged when the
/// triangle is degenerate or any scaled coordinate would leave the grid,
/// else both coordinates scaled about the centroid.
pub open spec fn scaled_vertex_spec(t: Triangle2, v: Vec2, num: int, den: int) -> Vec2 {
    let sx = t.a.x + t.b.x + t.c.x;
    let sy = t.a.y + t.b.y + t.c.y;
    if cross(t.a, t.b, t.c) == 0 {
        v
    } else if in_coord_range(scaled_coord_spec(sx, t.a.x as int, num, den)) && in_coord_range(
        scaled_coord_spec(sx, t.b.x as int, num, den),
    ) && in_coord_range(scaled_coord_spec(sx, t.c.x as int, num, den)) && in_coord_range(
        scaled_coord_spec(sy, t.a.y as int, num, den),
    ) && in_coord_range(scaled_coord_spec(sy, t.b.y as int, num, den)) && in_coord_range(
        scaled_coord_spec(sy, t.c.y as int, num, den),
    ) {
        Vec2 {
            x: scaled_coord_spec(sx, v.x as int, num, den) as i64,
            y: scaled_coord_spec(sy, v.y as int, num, den) as i64,
        }
    } else {
        v
    }
}

/// A value fits the grid bound.
pub open spec fn in_coord_range(v: int) -> bool {
    -16384 <= v <= 16384
}

/// One scaled coordinate, or nothing when it leaves the grid.
fn scaled_coord(sum: i128, v: i64, num: i64, den: i64) -> (r: Option<i64>)
    requires
        -49152 <= sum <= 49152,
        -16384 <= v <= 16384,
        0 <= num <= 16384,
        0 < den <= 16384,
    ensures
        match r {
            Some(x) => x == scaled_coord_spec(sum as int, v as int, num as int, den as int)
                && in_coord_range(x as int),
            None => !in_coord_range(scaled_coord_spec(sum as int, v as int, num as int, den as int)),
        },
{
    proof {
        lemma_mul_bound(sum as int, (den - num) as int, 49152, 16384);
        lemma_mul_bound((3 * num) as int, v as int, 49152, 16384);
    }
    let q = sum * (den as i128 - num as i128) + 3 * num as i128 * v as i128;
    let d3 = 3 * den as i128;
    let x = if q >= 0 {
        q / d3
    } else {
        -((-q) / d3)
    };
    proof {
        assert(x == tdiv(q as int, d3 as int));
    }
    if -16384 <= x && x <= 16384 {
        Some(x as i64)
    } else {
        None
    }
}

/// The centroid lies on the median from each vertex: the offset from a
/// vertex to the centroid is parallel to the offset from that vertex to
/// the midpoint of the opposite edge. Stated for the median from `a`;
/// the same holds for the others by symmetry of the formula.
pub proof fn lemma_centroid_on_median(t: Triangle2)
    ensures
        ((t.a.x + t.b.x + t.c.x) - 3 * t.a.x) * (t.b.y + t.c.y - 2 * t.a.y) == ((t.a.y + t.b.y
            + t.c.y) - 3 * t.a.y) * (t.b.x + t.c.x - 2 * t.a.x),
{
    lemma_mul_comm_two((t.b.x + t.c.x - 2 * t.a.x) as int, (t.b.y + t.c.y - 2 * t.a.y) as int);
}

} // verus!
