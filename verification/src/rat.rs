//! Rational scalars and points.
//!
//! Queries whose mathematical answer is not a grid point (projections,
//! line intersections, circumcenters) return values of these types: an
//! integer numerator (or one per coordinate) over an explicit positive
//! denominator. All comparisons in contracts are cross-multiplied, so no
//! rounding is ever involved.

use vstd::prelude::*;

use crate::vec2::Vec2;

verus! {

/// A rational scalar `num / den` with a positive denominator.
#[derive(Clone, Copy, Debug, PartialEq, Eq, Structural)]
pub struct Ratio {
    pub num: i128,
    pub den: i128,
}

impl Ratio {
    /// The denominator is positive, so the represented value is `num / den`.
    pub open spec fn wf(self) -> bool {
        self.den > 0
    }

}

/// A point with rational coordinates `(xn / d, yn / d)`, `d > 0`.
#[derive(Clone, Copy, Debug, PartialEq, Eq, Structural)]
pub struct RatPoint {
    pub xn: i128,
    pub yn: i128,
    pub d: i128,
}

impl RatPoint {
    /// The shared denominator is positive.
    pub open spec fn wf(self) -> bool {
        self.d > 0
    }

    /// Numerators and denominator within the given magnitudes.
    pub open spec fn bounded(self, n: int, dmax: int) -> bool {
        -n <= self.xn <= n && -n <= self.yn <= n && 0 < self.d <= dmax
    }

    /// The rational point coincides with the grid point `v`.
    pub open spec fn is_point(self, v: Vec2) -> bool {
        self.xn == v.x * self.d && self.yn == v.y * self.d
    }

    /// Two rational points denote the same point of the plane.
    pub open spec fn same_point(self, other: RatPoint) -> bool {
        self.xn * other.d == other.xn * self.d && self.yn * other.d == other.yn * self.d
    }

    /// The exact rational point for a grid point.
    pub fn from_vec2(v: Vec2) -> (r: RatPoint)
        ensures
            r.wf(),
            r.is_point(v),
            r.d == 1,
            r.xn == v.x,
            r.yn == v.y,
    {
        RatPoint { xn: v.x as i128, yn: v.y as i128, d: 1 }
    }

    /// Does this point equal `(xn / xd, yn / yd)`? Exact, by cross
    /// multiplication; the magnitude bounds keep the products in `i128`.
    pub fn equals_ratio(&self, xn: i128, xd: i128, yn: i128, yd: i128) -> (r: bool)
        requires
            self.wf(),
            self.bounded(0x1000_0000_0000_0000, 0x100_0000_0000),
            xd > 0,
            yd > 0,
            -0x1000_0000_0000_0000 <= xn <= 0x1000_0000_0000_0000,
            -0x1000_0000_0000_0000 <= yn <= 0x1000_0000_0000_0000,
            0 < xd <= 0x100_0000_0000,
            0 < yd <= 0x100_0000_0000,
        ensures
            r == (self.xn * xd == xn * self.d && self.yn * yd == yn * self.d),
    {
        proof {
            crate::arith::lemma_mul_bound(
                self.xn as int,
                xd as int,
                0x1000_0000_0000_0000,
                0x100_0000_0000,
            );
            crate::arith::lemma_mul_bound(
                xn as int,
                self.d as int,
                0x1000_0000_0000_0000,
                0x100_0000_0000,
            );
            crate::arith::lemma_mul_bound(
                self.yn as int,
                yd as int,
                0x1000_0000_0000_0000,
                0x100_0000_0000,
            );
            crate::arith::lemma_mul_bound(
                yn as int,
                self.d as int,
                0x1000_0000_0000_0000,
                0x100_0000_0000,
            );
        }
        self.xn * xd == xn * self.d && self.yn * yd == yn * self.d
    }
}

} // verus!
