//! Infinite undirected lines in implicit form `a*x + b*y = c`.

use vstd::prelude::*;

use crate::arith::lemma_mul_bound;
use crate::rat::RatPoint;
use crate::rat::Ratio;
use crate::vec2::Vec2;

verus! {

/// Bound on the direction coefficients `a`, `b` of a well-formed line.
pub const LINE_AB_LIMIT: i64 = 131072;

/// Bound on the constant coefficient `c` of a well-formed line.
pub const LINE_C_LIMIT: i64 = 17179869184;

/// An infinite undirected line: the set of points with `a*x + b*y = c`.
#[derive(Clone, Copy, Debug, PartialEq, Eq, Structural)]
pub struct Line2 {
    pub a: i64,
    pub b: i64,
    pub c: i64,
}

impl Line2 {
    /// The normal `(a, b)` is nonzero (else the equation describes no
    /// line), and the coefficients are small enough that every query
    /// below is exact in `i128`.
    pub open spec fn wf(self) -> bool {
        &&& (self.a != 0 || self.b != 0)
        &&& -LINE_AB_LIMIT <= self.a <= LINE_AB_LIMIT
        &&& -LINE_AB_LIMIT <= self.b <= LINE_AB_LIMIT
        &&& -LINE_C_LIMIT <= self.c <= LINE_C_LIMIT
    }

    /// The grid point `v` satisfies the line equation.
    pub open spec fn contains_grid_point(self, v: Vec2) -> bool {
        self.a * v.x + self.b * v.y == self.c
    }

    /// The rational point `p` satisfies the line equation.
    pub open spec fn contains_rat_point(self, p: RatPoint) -> bool {
        self.a * p.xn + self.b * p.yn == self.c * p.d
    }

    pub fn new(a: i64, b: i64, c: i64) -> (r: Line2)
        requires
            a != 0 || b != 0,
            -LINE_AB_LIMIT <= a <= LINE_AB_LIMIT,
            -LINE_AB_LIMIT <= b <= LINE_AB_LIMIT,
            -LINE_C_LIMIT <= c <= LINE_C_LIMIT,
        ensures
            r == (Line2 { a, b, c }),
            r.wf(),
    {
        Line2 { a, b, c }
    }

    /// The line through two distinct grid points.
    pub fn new_from_points(point1: Vec2, point2: Vec2) -> (r: Line2)
        requires
            point1.in_range(),
            point2.in_range(),
            point1 != point2,
        ensures
            r.wf(),
            r.a == point2.y - point1.y,
            r.b == point1.x - point2.x,
            r.contains_grid_point(point1),
            r.contains_grid_point(point2),
    {
        let a = point2.y - point1.y;
        let b = point1.x - point2.x;
        proof {
            lemma_mul_bound(a as int, point1.x as int, 32768, 16384);
            lemma_mul_bound(b as int, point1.y as int, 32768, 16384);
        }
        let c = (a as i128 * point1.x as i128 + b as i128 * point1.y as i128) as i64;
        let r = Line2 { a, b, c };
        proof {
            assert(r.a * point2.x + r.b * point2.y == r.a * point1.x + r.b * point1.y)
                by (nonlinear_arith)
                requires
                    r.a == point2.y - point1.y,
                    r.b == point1.x - point2.x,
            ;
        }
        r
    }

    /// The line through `point` with direction `axis`.
    pub fn new_from_point_axis(point: Vec2, axis: Vec2) -> (r: Line2)
        requires
            point.in_range(),
            axis.in_range(),
            !(axis.x == 0 && axis.y == 0),
        ensures
            r.wf(),
            r.a == axis.y,
            r.b == -axis.x,
            r.contains_grid_point(point),
            // the normal is perpendicular to the direction
            r.a * axis.x + r.b * axis.y == 0,
    {
        let a = axis.y;
        let b = -axis.x;
        proof {
            lemma_mul_bound(a as int, point.x as int, 16384, 16384);
            lemma_mul_bound(b as int, point.y as int, 16384, 16384);
            assert(a * axis.x + b * axis.y == 0) by (nonlinear_arith)
                requires
                    a == axis.y,
                    b == -axis.x,
            ;
        }
        let c = (a as i128 * point.x as i128 + b as i128 * point.y as i128) as i64;
        Line2 { a, b, c }
    }

    /// The x coordinate at height `y`, as an exact ratio; absent when the
    /// line is horizontal (`a == 0`).
    pub fn x(&self, y: i64) -> (r: Option<Ratio>)
        requires
            self.wf(),
            -16384 <= y <= 16384,
        ensures
            match r {
                Some(q) => self.a != 0 && q.den > 0 && q.num * self.a == (self.c - self.b * y)
                    * q.den,
                None => self.a == 0,
            },
    {
        if self.a != 0 {
            proof {
                lemma_mul_bound(self.b as int, y as int, LINE_AB_LIMIT as int, 16384);
            }
            let num_raw = self.c as i128 - self.b as i128 * y as i128;
            let (num, den) = if self.a > 0 {
                (num_raw, self.a as i128)
            } else {
                (-num_raw, -(self.a as i128))
            };
            proof {
                assert(num * self.a == num_raw * den) by (nonlinear_arith)
                    requires
                        (num == num_raw && den == self.a && self.a > 0) || (num == -num_raw && den
                            == -self.a && self.a < 0),
                ;
            }
            Some(Ratio { num, den })
        } else {
            None
        }
    }

    /// The y coordinate at abscissa `x`, as an exact ratio; absent when
    /// the line is vertical (`b == 0`).
    pub fn y(&self, x: i64) -> (r: Option<Ratio>)
        requires
            self.wf(),
            -16384 <= x <= 16384,
        ensures
            match r {
                Some(q) => self.b != 0 && q.den > 0 && q.num * self.b == (self.c - self.a * x)
                    * q.den,
                None => self.b == 0,
            },
    {
        if self.b != 0 {
            proof {
                lemma_mul_bound(self.a as int, x as int, LINE_AB_LIMIT as int, 16384);
            }
            let num_raw = self.c as i128 - self.a as i128 * x as i128;
            let (num, den) = if self.b > 0 {
                (num_raw, self.b as i128)
            } else {
                (-num_raw, -(self.b as i128))
            };
            proof {
                assert(num * self.b == num_raw * den) by (nonlinear_arith)
                    requires
                        (num == num_raw && den == self.b && self.b > 0) || (num == -num_raw && den
                            == -self.b && self.b < 0),
                ;
            }
            Some(Ratio { num, den })
        } else {
            None
        }
    }

    /// A direction vector of the line (not normalized: unit vectors are
    /// irrational in general). Perpendicular to the normal `(a, b)`.
    pub fn axis(&self) -> (r: (i64, i64))
        requires
            self.wf(),
        ensures
            r.0 == -self.b && r.1 == self.a,
            !(r.0 == 0 && r.1 == 0),
    {
        (-self.b, self.a)
    }

    /// The point of the line nearest to `point`: the intersection with
    /// the perpendicular line through `point`. A line is unbounded, so
    /// this always exists.
    pub fn closest_point(&self, point: Vec2) -> (r: RatPoint)
        requires
            self.wf(),
            point.in_range(),
        ensures
            r.wf(),
            self.contains_rat_point(r),
            // the displacement from `point` is parallel to the normal,
            // i.e. perpendicular to the line
            (r.xn - point.x * r.d) * self.b == (r.yn - point.y * r.d) * self.a,
            r.bounded(0x1000_0000_0000_0000, 0x100_0000_0000),
    {
        let a = self.a as i128;
        let b = self.b as i128;
        let c = self.c as i128;
        let px = point.x as i128;
        let py = point.y as i128;
        proof {
            lemma_mul_bound(a as int, a as int, LINE_AB_LIMIT as int, LINE_AB_LIMIT as int);
            lemma_mul_bound(b as int, b as int, LINE_AB_LIMIT as int, LINE_AB_LIMIT as int);
            lemma_mul_bound(a as int, px as int, LINE_AB_LIMIT as int, 16384);
            lemma_mul_bound(b as int, py as int, LINE_AB_LIMIT as int, 16384);
            crate::arith::lemma_square_nonneg(a as int);
            crate::arith::lemma_square_nonneg(b as int);
            if a != 0 {
                crate::arith::lemma_square_pos(a as int);
            } else {
                crate::arith::lemma_square_pos(b as int);
            }
        }
        let den = a * a + b * b;
        // residue of the line equation at `point`
        let k = c - a * px - b * py;
        proof {
            lemma_mul_bound(k as int, a as int, 0x20_0000_0000, LINE_AB_LIMIT as int);
            lemma_mul_bound(k as int, b as int, 0x20_0000_0000, LINE_AB_LIMIT as int);
            lemma_mul_bound(px as int, den as int, 16384, 0x8_0000_0000);
            lemma_mul_bound(py as int, den as int, 16384, 0x8_0000_0000);
        }
        let r = RatPoint { xn: px * den + k * a, yn: py * den + k * b, d: den };
        proof {
            assert(self.a * r.xn + self.b * r.yn == self.c * r.d) by (nonlinear_arith)
                requires
                    r.xn == px * den + k * a,
                    r.yn == py * den + k * b,
                    den == a * a + b * b,
                    k == c - a * px - b * py,
                    a == self.a,
                    b == self.b,
                    c == self.c,
                    r.d == den,
            ;
            assert((r.xn - point.x * r.d) * self.b == (r.yn - point.y * r.d) * self.a)
                by (nonlinear_arith)
                requires
                    r.xn == px * den + k * a,
                    r.yn == py * den + k * b,
                    a == self.a,
                    b == self.b,
                    px == point.x,
                    py == point.y,
                    r.d == den,
            ;
        }
        r
    }

    /// Where this line meets `other`: the solution of the two implicit
    /// equations, absent exactly when the determinant vanishes (parallel
    /// or identical lines).
    pub fn intersection_point(&self, other: Line2) -> (r: Option<RatPoint>)
        requires
            self.wf(),
            other.wf(),
        ensures
            match r {
                Some(q) => {
                    &&& self.a * other.b - other.a * self.b != 0
                    &&& q.wf()
                    &&& self.contains_rat_point(q)
                    &&& other.contains_rat_point(q)
                    &&& q.bounded(0x1000_0000_0000_0000, 0x100_0000_0000)
                    &&& (self.a * other.b - other.a * self.b > 0 ==> q.xn == other.b * self.c
                        - self.b * other.c && q.yn == self.a * other.c - other.a * self.c && q.d
                        == self.a * other.b - other.a * self.b)
                    &&& (self.a * other.b - other.a * self.b < 0 ==> q.xn == -(other.b * self.c
                        - self.b * other.c) && q.yn == -(self.a * other.c - other.a * self.c)
                        && q.d == -(self.a * other.b - other.a * self.b))
                },
                None => self.a * other.b - other.a * self.b == 0,
            },
    {
        let a1 = self.a as i128;
        let b1 = self.b as i128;
        let c1 = self.c as i128;
        let a2 = other.a as i128;
        let b2 = other.b as i128;
        let c2 = other.c as i128;
        proof {
            lemma_mul_bound(a1 as int, b2 as int, LINE_AB_LIMIT as int, LINE_AB_LIMIT as int);
            lemma_mul_bound(a2 as int, b1 as int, LINE_AB_LIMIT as int, LINE_AB_LIMIT as int);
        }
        let det = a1 * b2 - a2 * b1;
        if det != 0 {
            proof {
                lemma_mul_bound(b2 as int, c1 as int, LINE_AB_LIMIT as int, LINE_C_LIMIT as int);
                lemma_mul_bound(b1 as int, c2 as int, LINE_AB_LIMIT as int, LINE_C_LIMIT as int);
                lemma_mul_bound(a1 as int, c2 as int, LINE_AB_LIMIT as int, LINE_C_LIMIT as int);
                lemma_mul_bound(a2 as int, c1 as int, LINE_AB_LIMIT as int, LINE_C_LIMIT as int);
            }
            let xn_raw = b2 * c1 - b1 * c2;
            let yn_raw = a1 * c2 - a2 * c1;
            proof {
                crate::arith::lemma_cramer(a1 as int, b1 as int, c1 as int, a2 as int, b2 as int, c2 as int);
            }
            let q = if det > 0 {
                RatPoint { xn: xn_raw, yn: yn_raw, d: det }
            } else {
                proof {
                    crate::arith::lemma_eq_neg(a1 as int, xn_raw as int, b1 as int, yn_raw as int, c1 as int, det as int);
                    crate::arith::lemma_eq_neg(a2 as int, xn_raw as int, b2 as int, yn_raw as int, c2 as int, det as int);
                }
                RatPoint { xn: -xn_raw, yn: -yn_raw, d: -det }
            };
            Some(q)
        } else {
            None
        }
    }
}

/// A point of the line is its own closest point: any rational point that
/// satisfies the line equation and whose displacement from a grid point
/// of the line is perpendicular to the line coincides with that grid
/// point. Together with the contracts of `new_from_points` and
/// `closest_point`, this closes the round trip
/// `Line2::new_from_points(p1, p2).closest_point(p1) == p1`.
pub proof fn lemma_line_closest_point_of_member(l: Line2, p: Vec2, q: RatPoint)
    requires
        l.wf(),
        l.contains_grid_point(p),
        l.contains_rat_point(q),
        q.wf(),
        (q.xn - p.x * q.d) * l.b == (q.yn - p.y * q.d) * l.a,
    ensures
        q.is_point(p),
{
    // the grid-point equation, scaled by the denominator
    assert(l.a * (p.x * q.d) + l.b * (p.y * q.d) == l.c * q.d) by (nonlinear_arith)
        requires
            l.a * p.x + l.b * p.y == l.c,
    ;
    // the displacement is perpendicular to both the normal and the
    // direction, so it vanishes
    assert(q.xn == p.x * q.d && q.yn == p.y * q.d) by (nonlinear_arith)
        requires
            l.a * q.xn + l.b * q.yn == l.c * q.d,
            l.a * (p.x * q.d) + l.b * (p.y * q.d) == l.c * q.d,
            (q.xn - p.x * q.d) * l.b == (q.yn - p.y * q.d) * l.a,
            l.a != 0 || l.b != 0,
    ;
}

} // verus!
