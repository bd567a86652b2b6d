//! Line segments between two grid points.

use vstd::prelude::*;

use crate::arith::lemma_double_product;
use crate::arith::lemma_mul_bound;
use crate::arith::lemma_mul_exchange;
use crate::arith::lemma_mul_exchange_swap;
use crate::arith::lemma_sq_add;
use crate::arith::lemma_sq_sub;
use crate::arith::lemma_square_nonneg;
use vstd::arithmetic::mul::lemma_mul_is_associative;
use vstd::arithmetic::mul::lemma_mul_is_commutative;
use vstd::arithmetic::mul::lemma_mul_is_distributive_add;
use vstd::arithmetic::mul::lemma_mul_is_distributive_add_other_way;
use vstd::arithmetic::mul::lemma_mul_is_distributive_sub;
use vstd::arithmetic::mul::lemma_mul_is_distributive_sub_other_way;
use vstd::arithmetic::mul::lemma_mul_unary_negation;
use crate::line::Line2;
use crate::rat::RatPoint;
use crate::vec2::cross;
use crate::vec2::cross_exec;
use crate::vec2::dist_sq;
use crate::vec2::dist_sq_exec;
use crate::vec2::dot;
use crate::vec2::dot_exec;
use crate::vec2::Vec2;

verus! {

/// A 2D line segment between two grid points. The endpoints may coincide;
/// such a degenerate segment contributes only its single point.
#[derive(Clone, Copy, Debug, PartialEq, Eq, Structural)]
pub struct LineSegment2 {
    pub start: Vec2,
    pub end: Vec2,
}

/// Clamped numerator of the projection parameter of `p` onto the segment
/// `(s, e)`: the closest point is `s + (t / len_sq) * (e - s)` where
/// `t = seg_tc(s, e, p)` and `len_sq = dist_sq(s, e)`. For a degenerate
/// segment the numerator is zero.
pub open spec fn seg_tc(s: Vec2, e: Vec2, p: Vec2) -> int {
    let t = dot(s, p, e);
    if s == e {
        0
    } else if t <= 0 {
        0
    } else if t >= dist_sq(s, e) {
        dist_sq(s, e)
    } else {
        t
    }
}

/// Denominator of the closest point on the segment `(s, e)`.
pub open spec fn seg_cp_den(s: Vec2, e: Vec2) -> int {
    if s == e {
        1
    } else {
        dist_sq(s, e)
    }
}

/// Numerator of the x coordinate of the closest point on `(s, e)` to `p`.
pub open spec fn seg_cp_xn(s: Vec2, e: Vec2, p: Vec2) -> int {
    s.x * seg_cp_den(s, e) + seg_tc(s, e, p) * (e.x - s.x)
}

/// Numerator of the y coordinate of the closest point on `(s, e)` to `p`.
pub open spec fn seg_cp_yn(s: Vec2, e: Vec2, p: Vec2) -> int {
    s.y * seg_cp_den(s, e) + seg_tc(s, e, p) * (e.y - s.y)
}

/// Numerator of the squared distance from `p` to the point of parameter
/// `tn / td` on the segment `(s, e)`; the denominator is `td * td`.
pub open spec fn param_dist_sq_num(s: Vec2, e: Vec2, p: Vec2, tn: int, td: int) -> int {
    let ax = (s.x - p.x) * td + tn * (e.x - s.x);
    let ay = (s.y - p.y) * td + tn * (e.y - s.y);
    ax * ax + ay * ay
}

/// Numerator of the squared distance from `p` to the segment `(s, e)`
/// (the distance to the closest point); the denominator is
/// `seg_dist_den(s, e, p)`.
pub open spec fn seg_dist_num(s: Vec2, e: Vec2, p: Vec2) -> int {
    let t = dot(s, p, e);
    if s == e {
        dist_sq(p, s)
    } else if t <= 0 {
        dist_sq(p, s)
    } else if t >= dist_sq(s, e) {
        dist_sq(p, e)
    } else {
        cross(s, e, p) * cross(s, e, p)
    }
}

/// Denominator of the squared distance from `p` to the segment `(s, e)`.
pub open spec fn seg_dist_den(s: Vec2, e: Vec2, p: Vec2) -> int {
    let t = dot(s, p, e);
    if s == e {
        1
    } else if t <= 0 {
        1
    } else if t >= dist_sq(s, e) {
        1
    } else {
        dist_sq(s, e)
    }
}

/// The closest point lies on the segment: its parameter numerator is
/// clamped between zero and the denominator, i.e. `t` lies in `[0, 1]`.
pub proof fn lemma_seg_closest_on_segment(s: Vec2, e: Vec2, p: Vec2)
    ensures
        0 <= seg_tc(s, e, p) <= seg_cp_den(s, e),
        seg_cp_den(s, e) > 0,
{
    if s == e {
    } else {
        lemma_square_nonneg((e.x - s.x) as int);
        lemma_square_nonneg((e.y - s.y) as int);
        if e.x != s.x {
            crate::arith::lemma_square_pos((e.x - s.x) as int);
        } else {
            crate::arith::lemma_square_pos((e.y - s.y) as int);
        }
    }
}

/// The distance ratio to a segment has a positive denominator and a
/// nonnegative numerator.
pub proof fn lemma_seg_dist_ratio_signs(s: Vec2, e: Vec2, p: Vec2)
    ensures
        seg_dist_den(s, e, p) > 0,
        seg_dist_num(s, e, p) >= 0,
{
    lemma_square_nonneg((s.x - p.x) as int);
    lemma_square_nonneg((s.y - p.y) as int);
    lemma_square_nonneg((e.x - p.x) as int);
    lemma_square_nonneg((e.y - p.y) as int);
    lemma_square_nonneg(cross(s, e, p));
}

/// Expansion of the parametric squared-distance numerator as a quadratic
/// in the parameter numerator.
proof fn lemma_pnum_expand(s: Vec2, e: Vec2, p: Vec2, tn: int, td: int)
    ensures
        param_dist_sq_num(s, e, p, tn, td) == dist_sq(p, s) * (td * td) - 2 * tn * td * dot(
            s,
            p,
            e,
        ) + tn * tn * dist_sq(s, e),
{
    let ux = e.x - s.x;
    let uy = e.y - s.y;
    let mx = s.x - p.x;
    let my = s.y - p.y;
    // each coordinate contribution, expanded
    lemma_sq_add(mx * td, tn * ux);
    lemma_mul_exchange(mx, td, mx, td);
    lemma_mul_exchange(tn, ux, tn, ux);
    lemma_mul_exchange_swap(mx, td, tn, ux);
    lemma_sq_add(my * td, tn * uy);
    lemma_mul_exchange(my, td, my, td);
    lemma_mul_exchange(tn, uy, tn, uy);
    lemma_mul_exchange_swap(my, td, tn, uy);
    assert(param_dist_sq_num(s, e, p, tn, td) == (mx * mx) * (td * td) + (my * my) * (td * td) + 2
        * ((tn * td) * (mx * ux)) + 2 * ((tn * td) * (my * uy)) + (tn * tn) * (ux * ux) + (tn * tn)
        * (uy * uy));
    // the squared distances, distributed
    lemma_mul_is_distributive_add_other_way(td * td, mx * mx, my * my);
    lemma_mul_is_distributive_add(tn * tn, ux * ux, uy * uy);
    // the dot product, written over the flipped displacement
    lemma_mul_unary_negation(mx as int, ux as int);
    lemma_mul_unary_negation(my as int, uy as int);
    assert(dot(s, p, e) == -(mx * ux) - (my * uy));
    // the scaled dot term, regrouped
    let x2 = (2 * tn) * td;
    lemma_mul_is_distributive_sub(x2, -(mx * ux), my * uy);
    lemma_mul_unary_negation(x2, mx * ux);
    lemma_double_product(tn, td, mx * ux);
    lemma_double_product(tn, td, my * uy);
    assert(2 * tn * td * dot(s, p, e) == -(2 * ((tn * td) * (mx * ux))) - 2 * ((tn * td) * (my
        * uy)));
}

/// Lagrange's identity in the plane: the product of two squared norms
/// splits into the squared dot product plus the squared cross product.
proof fn lemma_lagrange_scalar(ux: int, uy: int, vx: int, vy: int)
    ensures
        (vx * vx + vy * vy) * (ux * ux + uy * uy) - (vx * ux + vy * uy) * (vx * ux + vy * uy) == (
        ux * vy - vx * uy) * (ux * vy - vx * uy),
{
    // the norm product, distributed into four monomials
    lemma_mul_is_distributive_add_other_way(ux * ux + uy * uy, vx * vx, vy * vy);
    lemma_mul_is_distributive_add(vx * vx, ux * ux, uy * uy);
    lemma_mul_is_distributive_add(vy * vy, ux * ux, uy * uy);
    // the dot product squared
    lemma_sq_add(vx * ux, vy * uy);
    lemma_mul_exchange(vx, ux, vx, ux);
    lemma_mul_exchange(vy, uy, vy, uy);
    lemma_mul_exchange(vx, ux, vy, uy);
    // the cross product squared
    lemma_sq_sub(ux * vy, vx * uy);
    lemma_mul_exchange(ux, vy, ux, vy);
    lemma_mul_exchange(vx, uy, vx, uy);
    lemma_mul_exchange(ux, vy, vx, uy);
    // align the mixed monomials
    lemma_mul_is_commutative(ux, vx);
    lemma_mul_is_commutative(vy * vy, ux * ux);
    lemma_mul_is_commutative(ux * ux, vy * vy);
    assert((ux * vx) * (vy * uy) == (vx * vy) * (ux * uy)) by {
        lemma_mul_exchange(vx, ux, vy, uy);
    }
}

/// Pure ring identity behind the interior case: the quadratic's value at
/// any admissible parameter exceeds its value at the unclamped minimizer
/// by `lq` times a perfect square.
proof fn lemma_quad_interior(wq: int, dq: int, lq: int, tn: int, td: int)
    ensures
        (wq * (td * td) - 2 * tn * td * dq + tn * tn * lq) * (lq * lq) - (wq * (lq * lq) - 2 * dq
            * lq * dq + dq * dq * lq) * (td * td) == lq * ((lq * tn - td * dq) * (lq * tn - td
            * dq)),
{
    let tt = td * td;
    let ll = lq * lq;
    let av = wq * tt;
    let bv = 2 * tn * td * dq;
    let cv = (tn * tn) * lq;
    let a2 = wq * ll;
    let b2 = 2 * dq * lq * dq;
    let c2 = (dq * dq) * lq;
    let gv = lq * tn;
    let hv = td * dq;
    // distribute both brackets
    lemma_mul_is_distributive_add_other_way(ll, av - bv, cv);
    lemma_mul_is_distributive_sub_other_way(ll, av, bv);
    lemma_mul_is_distributive_add_other_way(tt, a2 - b2, c2);
    lemma_mul_is_distributive_sub_other_way(tt, a2, b2);
    // the leading terms agree
    assert(av * ll == a2 * tt) by {
        lemma_mul_is_associative(wq, tt, ll);
        lemma_mul_is_associative(wq, ll, tt);
        lemma_mul_is_commutative(tt, ll);
    }
    // the squared-parameter terms match the square's outer monomials
    assert(cv * ll == lq * (gv * gv)) by {
        lemma_mul_exchange(lq, tn, lq, tn);
        lemma_mul_is_associative(tn * tn, lq, ll);
        lemma_mul_is_associative(lq, ll, tn * tn);
        lemma_mul_is_commutative(lq * ll, tn * tn);
        lemma_mul_is_associative(lq, lq, lq);
        lemma_mul_is_commutative(lq, ll);
    }
    assert(c2 * tt == lq * (hv * hv)) by {
        lemma_mul_exchange(td, dq, td, dq);
        lemma_mul_is_associative(dq * dq, lq, tt);
        lemma_mul_is_associative(lq, tt, dq * dq);
        lemma_mul_is_commutative(lq * tt, dq * dq);
        lemma_mul_is_commutative(lq, tt);
    }
    // the mixed terms
    assert(b2 * tt == 2 * (lq * (hv * hv))) by {
        lemma_double_product(dq, lq, dq);
        lemma_mul_is_associative(dq, lq, dq);
        lemma_mul_is_commutative(lq, dq);
        lemma_mul_is_associative(dq, dq, lq);
        lemma_mul_is_associative(2, (dq * dq) * lq, tt);
        lemma_mul_exchange(td, dq, td, dq);
        lemma_mul_is_associative(dq * dq, lq, tt);
        lemma_mul_is_associative(lq, tt, dq * dq);
        lemma_mul_is_commutative(lq * tt, dq * dq);
    }
    assert(bv * ll == 2 * (lq * (gv * hv))) by {
        lemma_double_product(tn, td, dq);
        lemma_mul_is_associative(2, (tn * td) * dq, ll);
        lemma_mul_is_associative(lq, tn, td * dq);
        lemma_mul_is_associative(tn, td, dq);
        lemma_mul_is_associative(lq, lq, (tn * td) * dq);
        lemma_mul_is_commutative((tn * td) * dq, lq * lq);
    }
    // the square, expanded and scaled by lq
    lemma_sq_sub(gv, hv);
    lemma_mul_is_distributive_add(lq, gv * gv - 2 * (gv * hv), hv * hv);
    lemma_mul_is_distributive_sub(lq, gv * gv, 2 * (gv * hv));
    assert(lq * (2 * (gv * hv)) == 2 * (lq * (gv * hv))) by {
        lemma_mul_is_associative(lq, 2, gv * hv);
        lemma_mul_is_commutative(lq, 2);
        lemma_mul_is_associative(2, lq, gv * hv);
    }
}

/// The closest point attains the least squared distance among all points
/// of the segment: for any parameter `tn / td` in `[0, 1]`, the squared
/// distance from `p` to the closest point (a ratio over the square of
/// `seg_cp_den`) is at most the squared distance from `p` to the point of
/// parameter `tn / td` (a ratio over `td * td`), compared here with the
/// denominators cross-multiplied.
pub proof fn lemma_seg_closest_is_min(s: Vec2, e: Vec2, p: Vec2, tn: int, td: int)
    requires
        td > 0,
        0 <= tn <= td,
    ensures
        param_dist_sq_num(s, e, p, seg_tc(s, e, p), seg_cp_den(s, e)) * (td * td)
            <= param_dist_sq_num(s, e, p, tn, td) * (seg_cp_den(s, e) * seg_cp_den(s, e)),
{
    let wq = dist_sq(p, s);
    let dq = dot(s, p, e);
    let lq = dist_sq(s, e);
    let tc = seg_tc(s, e, p);
    let den = seg_cp_den(s, e);
    let n1 = param_dist_sq_num(s, e, p, tc, den);
    let n2 = param_dist_sq_num(s, e, p, tn, td);
    lemma_seg_closest_on_segment(s, e, p);
    lemma_pnum_expand(s, e, p, tc, den);
    lemma_pnum_expand(s, e, p, tn, td);
    if s == e {
        // den == 1, tc == 0, and lq == 0, dq == 0: both sides reduce to
        // the squared distance to the single point, times td * td
        assert(lq == 0 && dq == 0) by (nonlinear_arith)
            requires
                lq == (e.x - s.x) * (e.x - s.x) + (e.y - s.y) * (e.y - s.y),
                dq == (p.x - s.x) * (e.x - s.x) + (p.y - s.y) * (e.y - s.y),
                e.x == s.x,
                e.y == s.y,
        ;
        assert(n1 * (td * td) <= n2 * (den * den)) by (nonlinear_arith)
            requires
                n1 == wq * (den * den) - 2 * tc * den * dq + tc * tc * lq,
                n2 == wq * (td * td) - 2 * tn * td * dq + tn * tn * lq,
                lq == 0,
                dq == 0,
                den == 1,
                tc == 0,
        ;
    } else {
        assert(lq > 0) by {
            lemma_square_nonneg((e.x - s.x) as int);
            lemma_square_nonneg((e.y - s.y) as int);
            if e.x != s.x {
                crate::arith::lemma_square_pos((e.x - s.x) as int);
            } else {
                crate::arith::lemma_square_pos((e.y - s.y) as int);
            }
        }
        if dq <= 0 {
            // tc == 0: the start point; the quadratic only grows with tn
            assert(n1 * (td * td) <= n2 * (lq * lq)) by (nonlinear_arith)
                requires
                    n1 == wq * (den * den) - 2 * tc * den * dq + tc * tc * lq,
                    n2 == wq * (td * td) - 2 * tn * td * dq + tn * tn * lq,
                    den == lq,
                    tc == 0,
                    lq > 0,
                    dq <= 0,
                    td > 0,
                    0 <= tn <= td,
            ;
        } else if dq >= lq {
            // tc == lq: the end point
            assert(n1 * (td * td) <= n2 * (lq * lq)) by (nonlinear_arith)
                requires
                    n1 == wq * (den * den) - 2 * tc * den * dq + tc * tc * lq,
                    n2 == wq * (td * td) - 2 * tn * td * dq + tn * tn * lq,
                    den == lq,
                    tc == lq,
                    lq > 0,
                    dq >= lq,
                    td > 0,
                    0 <= tn <= td,
            ;
        } else {
            // interior: the difference is lq times a perfect square
            lemma_quad_interior(wq, dq, lq, tn, td);
            assert(n2 * (lq * lq) - n1 * (td * td) == lq * ((lq * tn - td * dq) * (lq * tn - td
                * dq))) by (nonlinear_arith)
                requires
                    n1 == wq * (den * den) - 2 * tc * den * dq + tc * tc * lq,
                    n2 == wq * (td * td) - 2 * tn * td * dq + tn * tn * lq,
                    den == lq,
                    tc == dq,
                    (wq * (td * td) - 2 * tn * td * dq + tn * tn * lq) * (lq * lq) - (wq * (lq
                        * lq) - 2 * dq * lq * dq + dq * dq * lq) * (td * td) == lq * ((lq * tn - td
                        * dq) * (lq * tn - td * dq)),
            ;
            assert(lq * ((lq * tn - td * dq) * (lq * tn - td * dq)) >= 0) by (nonlinear_arith)
                requires
                    lq > 0,
            ;
        }
    }
}

/// The squared distance from `p` to the closest point of the segment,
/// written as the parametric numerator over the closest-point
/// denominator squared, equals `seg_dist_num / seg_dist_den` exactly.
pub proof fn lemma_seg_dist_eq(s: Vec2, e: Vec2, p: Vec2)
    ensures
        param_dist_sq_num(s, e, p, seg_tc(s, e, p), seg_cp_den(s, e)) * seg_dist_den(s, e, p)
            == seg_dist_num(s, e, p) * (seg_cp_den(s, e) * seg_cp_den(s, e)),
{
    let wq = dist_sq(p, s);
    let dq = dot(s, p, e);
    let lq = dist_sq(s, e);
    let tc = seg_tc(s, e, p);
    let den = seg_cp_den(s, e);
    let n1 = param_dist_sq_num(s, e, p, tc, den);
    lemma_pnum_expand(s, e, p, tc, den);
    if s == e {
        assert(lq == 0 && dq == 0) by (nonlinear_arith)
            requires
                lq == (e.x - s.x) * (e.x - s.x) + (e.y - s.y) * (e.y - s.y),
                dq == (p.x - s.x) * (e.x - s.x) + (p.y - s.y) * (e.y - s.y),
                e.x == s.x,
                e.y == s.y,
        ;
        assert(n1 * 1 == wq * (den * den)) by (nonlinear_arith)
            requires
                n1 == wq * (den * den) - 2 * tc * den * dq + tc * tc * lq,
                lq == 0,
                dq == 0,
                den == 1,
                tc == 0,
        ;
    } else if dq <= 0 {
        assert(n1 * 1 == wq * (den * den)) by (nonlinear_arith)
            requires
                n1 == wq * (den * den) - 2 * tc * den * dq + tc * tc * lq,
                tc == 0,
        ;
    } else if dq >= lq {
        // the end point: |p - e|^2 == wq - 2 dq + lq
        assert(dist_sq(p, e) == wq - 2 * dq + lq) by (nonlinear_arith)
            requires
                dist_sq(p, e) == (e.x - p.x) * (e.x - p.x) + (e.y - p.y) * (e.y - p.y),
                wq == (s.x - p.x) * (s.x - p.x) + (s.y - p.y) * (s.y - p.y),
                dq == (p.x - s.x) * (e.x - s.x) + (p.y - s.y) * (e.y - s.y),
                lq == (e.x - s.x) * (e.x - s.x) + (e.y - s.y) * (e.y - s.y),
        ;
        assert(n1 * 1 == (wq - 2 * dq + lq) * (lq * lq)) by (nonlinear_arith)
            requires
                n1 == wq * (den * den) - 2 * tc * den * dq + tc * tc * lq,
                den == lq,
                tc == lq,
        ;
    } else {
        // interior: Lagrange's identity turns the residual into the cross
        // product squared
        let cr = cross(s, e, p);
        lemma_lagrange_scalar(
            (e.x - s.x) as int,
            (e.y - s.y) as int,
            (p.x - s.x) as int,
            (p.y - s.y) as int,
        );
        assert(wq * lq - dq * dq == cr * cr) by (nonlinear_arith)
            requires
                wq == (s.x - p.x) * (s.x - p.x) + (s.y - p.y) * (s.y - p.y),
                dq == (p.x - s.x) * (e.x - s.x) + (p.y - s.y) * (e.y - s.y),
                lq == (e.x - s.x) * (e.x - s.x) + (e.y - s.y) * (e.y - s.y),
                cr == (e.x - s.x) * (p.y - s.y) - (p.x - s.x) * (e.y - s.y),
                ((p.x - s.x) * (p.x - s.x) + (p.y - s.y) * (p.y - s.y)) * ((e.x - s.x) * (e.x
                    - s.x) + (e.y - s.y) * (e.y - s.y)) - ((p.x - s.x) * (e.x - s.x) + (p.y - s.y)
                    * (e.y - s.y)) * ((p.x - s.x) * (e.x - s.x) + (p.y - s.y) * (e.y - s.y)) == ((
                e.x - s.x) * (p.y - s.y) - (p.x - s.x) * (e.y - s.y)) * ((e.x - s.x) * (p.y - s.y)
                    - (p.x - s.x) * (e.y - s.y)),
        ;
        assert(n1 * lq == (cr * cr) * (lq * lq)) by (nonlinear_arith)
            requires
                n1 == wq * (den * den) - 2 * tc * den * dq + tc * tc * lq,
                den == lq,
                tc == dq,
                wq * lq - dq * dq == cr * cr,
        ;
    }
}

impl LineSegment2 {
    /// Both endpoints lie on the grid.
    pub open spec fn wf(self) -> bool {
        self.start.in_range() && self.end.in_range()
    }

    pub fn new(start: Vec2, end: Vec2) -> (r: LineSegment2)
        requires
            start.in_range(),
            end.in_range(),
        ensures
            r == (LineSegment2 { start, end }),
            r.wf(),
    {
        LineSegment2 { start, end }
    }

    /// Midpoint of the segment, exactly, over denominator two.
    pub fn center(&self) -> (r: RatPoint)
        requires
            self.wf(),
        ensures
            r.wf(),
            r.d == 2,
            r.xn == self.start.x + self.end.x,
            r.yn == self.start.y + self.end.y,
    {
        RatPoint {
            xn: self.start.x as i128 + self.end.x as i128,
            yn: self.start.y as i128 + self.end.y as i128,
            d: 2,
        }
    }

    /// Squared length of the segment, exactly.
    pub fn length_squared(&self) -> (r: i128)
        requires
            self.wf(),
        ensures
            r == dist_sq(self.start, self.end),
            0 <= r <= 2200000000,
    {
        dist_sq_exec(self.start, self.end)
    }

    /// Euclidean length rounded down to an integer: the exact length lies
    /// in `[r, r + 1)`.
    pub fn length(&self) -> (r: i64)
        requires
            self.wf(),
        ensures
            r >= 0,
            r * r <= dist_sq(self.start, self.end) < (r + 1) * (r + 1),
    {
        let sq = dist_sq_exec(self.start, self.end);
        let root = crate::arith::isqrt(sq);
        root as i64
    }

    /// Direction vector of the segment (not normalized: unit vectors are
    /// irrational in general, and every query here is scale-invariant).
    pub fn axis(&self) -> (r: Vec2)
        requires
            self.wf(),
        ensures
            r.x == self.end.x - self.start.x,
            r.y == self.end.y - self.start.y,
    {
        Vec2 { x: self.end.x - self.start.x, y: self.end.y - self.start.y }
    }

    /// The point of the segment nearest to `point`: the orthogonal
    /// projection with its parameter clamped into `[0, 1]`, as an exact
    /// rational point. A degenerate segment yields its single point.
    pub fn closest_point(&self, point: Vec2) -> (r: RatPoint)
        requires
            self.wf(),
            point.in_range(),
        ensures
            r.wf(),
            r.d == seg_cp_den(self.start, self.end),
            r.xn == seg_cp_xn(self.start, self.end, point),
            r.yn == seg_cp_yn(self.start, self.end, point),
            r.bounded(0x1000_0000_0000_0000, 0x100_0000_0000),
    {
        let s = self.start;
        let e = self.end;
        if s.x == e.x && s.y == e.y {
            proof {
                assert(s == e);
            }
            RatPoint { xn: s.x as i128, yn: s.y as i128, d: 1 }
        } else {
            let len_sq = dist_sq_exec(s, e);
            let t_raw = dot_exec(s, point, e);
            proof {
                assert(s != e);
                assert(dist_sq(s, e) > 0) by {
                    lemma_square_nonneg((e.x - s.x) as int);
                    lemma_square_nonneg((e.y - s.y) as int);
                    if e.x != s.x {
                        crate::arith::lemma_square_pos((e.x - s.x) as int);
                    } else {
                        crate::arith::lemma_square_pos((e.y - s.y) as int);
                    }
                }
            }
            let tc: i128 = if t_raw <= 0 {
                0
            } else if t_raw >= len_sq {
                len_sq
            } else {
                t_raw
            };
            proof {
                lemma_mul_bound(s.x as int, len_sq as int, 16384, 2200000000);
                lemma_mul_bound(s.y as int, len_sq as int, 16384, 2200000000);
                lemma_mul_bound(tc as int, (e.x - s.x) as int, 2200000000, 32768);
                lemma_mul_bound(tc as int, (e.y - s.y) as int, 2200000000, 32768);
            }
            RatPoint {
                xn: s.x as i128 * len_sq + tc * (e.x as i128 - s.x as i128),
                yn: s.y as i128 * len_sq + tc * (e.y as i128 - s.y as i128),
                d: len_sq,
            }
        }
    }

    /// The squared distance from `point` to the segment, as an exact
    /// ratio `num / den`: an integer (over one) when an endpoint is
    /// closest, else the squared cross product over the squared length.
    pub fn dist_sq_key(&self, point: Vec2) -> (r: (i128, i128))
        requires
            self.wf(),
            point.in_range(),
        ensures
            r.0 == seg_dist_num(self.start, self.end, point),
            r.1 == seg_dist_den(self.start, self.end, point),
            0 <= r.0 <= 0x1_0000_0000_0000_0000,
            0 < r.1 <= 0x1_0000_0000,
    {
        let s = self.start;
        let e = self.end;
        if s.x == e.x && s.y == e.y {
            proof {
                assert(s == e);
            }
            (dist_sq_exec(point, s), 1)
        } else {
            proof {
                assert(s != e);
            }
            let t = dot_exec(s, point, e);
            let len_sq = dist_sq_exec(s, e);
            if t <= 0 {
                (dist_sq_exec(point, s), 1)
            } else if t >= len_sq {
                (dist_sq_exec(point, e), 1)
            } else {
                let cr = cross_exec(s, e, point);
                proof {
                    lemma_mul_bound(cr as int, cr as int, 2200000000, 2200000000);
                    lemma_square_nonneg(cr as int);
                    lemma_seg_closest_on_segment(s, e, point);
                }
                (cr * cr, len_sq)
            }
        }
    }

    /// The line through the midpoint, perpendicular to the segment. The
    /// implicit coefficients are twice the segment direction, so the
    /// equation is exact over the grid.
    pub fn perpendicular_bisector(&self) -> (r: Line2)
        requires
            self.wf(),
            self.start != self.end,
        ensures
            r.wf(),
            r.a == 2 * (self.end.x - self.start.x),
            r.b == 2 * (self.end.y - self.start.y),
            // the midpoint satisfies the line equation
            r.a * (self.start.x + self.end.x) + r.b * (self.start.y + self.end.y) == 2 * r.c,
            // the normal (a, b) is parallel to the segment direction
            r.a * (self.end.y - self.start.y) == r.b * (self.end.x - self.start.x),
            r.c == (self.end.x - self.start.x) * (self.start.x + self.end.x) + (self.end.y
                - self.start.y) * (self.start.y + self.end.y),
            -0x8000_0000 <= r.c <= 0x8000_0000,
    {
        let s = self.start;
        let e = self.end;
        let dx = e.x as i128 - s.x as i128;
        let dy = e.y as i128 - s.y as i128;
        proof {
            lemma_mul_bound(dx as int, (s.x + e.x) as int, 32768, 32768);
            lemma_mul_bound(dy as int, (s.y + e.y) as int, 32768, 32768);
            assert(dx != 0 || dy != 0);
        }
        let a = 2 * dx;
        let b = 2 * dy;
        let c = dx * (s.x as i128 + e.x as i128) + dy * (s.y as i128 + e.y as i128);
        let r = Line2 { a: a as i64, b: b as i64, c: c as i64 };
        proof {
            assert(r.a * (self.end.y - self.start.y) == r.b * (self.end.x - self.start.x)
                && r.a * (self.start.x + self.end.x) + r.b * (self.start.y + self.end.y) == 2
                * r.c) by (nonlinear_arith)
                requires
                    r.a == 2 * dx,
                    r.b == 2 * dy,
                    r.c == dx * (self.start.x + self.end.x) + dy * (self.start.y + self.end.y),
                    dx == self.end.x - self.start.x,
                    dy == self.end.y - self.start.y,
            ;
        }
        r
    }

    /// Undirected equality: same endpoints in either order.
    pub fn is_same(&self, other: LineSegment2) -> (r: bool)
        ensures
            r == ((self.start == other.start && self.end == other.end) || (self.start == other.end
                && self.end == other.start)),
    {
        (self.start.x == other.start.x && self.start.y == other.start.y && self.end.x
            == other.end.x && self.end.y == other.end.y) || (self.start.x == other.end.x
            && self.start.y == other.end.y && self.end.x == other.start.x && self.end.y
            == other.start.y)
    }

    /// The infinite line the segment lies on.
    pub fn line(&self) -> (r: Line2)
        requires
            self.wf(),
            self.start != self.end,
        ensures
            r.wf(),
            r.contains_grid_point(self.start),
            r.contains_grid_point(self.end),
    {
        Line2::new_from_points(self.start, self.end)
    }
}

} // verus!
