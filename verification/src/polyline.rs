//! Open vertex chains: consecutive edges without wrap-around.

use vstd::prelude::*;

use crate::line_segment::seg_cp_den;
use crate::line_segment::seg_cp_xn;
use crate::line_segment::seg_cp_yn;
use crate::line_segment::seg_dist_den;
use crate::line_segment::seg_dist_num;
use crate::line_segment::LineSegment2;
use crate::rat::RatPoint;
use crate::vec2::all_in_range;
use crate::vec2::Vec2;

verus! {

/// Whether the squared distance from `p` to edge `i` of the chain is
/// strictly smaller than the distance to edge `j` (edges run between
/// consecutive vertices); compared exactly by cross multiplication.
pub open spec fn edge_closer(vs: Seq<Vec2>, p: Vec2, i: int, j: int) -> bool {
    seg_dist_num(vs[i], vs[i + 1], p) * seg_dist_den(vs[j], vs[j + 1], p) < seg_dist_num(
        vs[j],
        vs[j + 1],
        p,
    ) * seg_dist_den(vs[i], vs[i + 1], p)
}

/// The index of the first edge among `[0, k)` attaining the least
/// distance to `p`: a later edge displaces the running best only when it
/// is strictly closer.
pub open spec fn best_edge(vs: Seq<Vec2>, p: Vec2, k: int) -> int
    decreases k,
{
    if k <= 1 {
        0
    } else {
        let b = best_edge(vs, p, k - 1);
        if edge_closer(vs, p, k - 1, b) {
            k - 1
        } else {
            b
        }
    }
}

/// The winning edge is no farther than any scanned edge.
pub proof fn lemma_best_edge_min(vs: Seq<Vec2>, p: Vec2, k: int, j: int)
    requires
        0 <= j < k,
    ensures
        0 <= best_edge(vs, p, k) < k || k <= 1,
        !edge_closer(vs, p, j, best_edge(vs, p, k)),
    decreases k,
{
    if k <= 1 {
        assert(best_edge(vs, p, k) == 0);
        assert(j == 0);
    } else {
        let b = best_edge(vs, p, k - 1);
        lemma_best_edge_min(vs, p, k - 1, if j < k - 1 {
            j
        } else {
            0
        });
        if edge_closer(vs, p, k - 1, b) && j < k - 1 {
            // the new edge displaced the best; what was no closer than
            // the old best is no closer than the new one either
            crate::line_segment::lemma_seg_dist_ratio_signs(vs[k - 1], vs[k], p);
            crate::line_segment::lemma_seg_dist_ratio_signs(vs[b], vs[b + 1], p);
            crate::line_segment::lemma_seg_dist_ratio_signs(vs[j], vs[j + 1], p);
            crate::arith::lemma_frac_lt_le_trans(
                seg_dist_num(vs[k - 1], vs[k], p),
                seg_dist_den(vs[k - 1], vs[k], p),
                seg_dist_num(vs[b], vs[b + 1], p),
                seg_dist_den(vs[b], vs[b + 1], p),
                seg_dist_num(vs[j], vs[j + 1], p),
                seg_dist_den(vs[j], vs[j + 1], p),
            );
        }
    }
}

/// An ordered open chain of vertices.
#[derive(Debug)]
pub struct Polyline(pub Vec<Vec2>);

impl Polyline {
    /// Every vertex lies on the grid.
    pub open spec fn wf(self) -> bool {
        all_in_range(self.0@)
    }

    pub fn new() -> (r: Polyline)
        ensures
            r.0@.len() == 0,
            r.wf(),
    {
        Polyline(Vec::new())
    }

    /// The consecutive-pair edges: one fewer than the vertices, none for
    /// an empty chain.
    pub fn line_segments(&self) -> (r: Vec<LineSegment2>)
        requires
            self.wf(),
        ensures
            self.0@.len() == 0 ==> r@.len() == 0,
            self.0@.len() > 0 ==> r@.len() == self.0@.len() - 1,
            forall|i: int|
                0 <= i < r@.len() ==> r@[i] == (LineSegment2 {
                    start: self.0@[i],
                    end: self.0@[i + 1],
                }),
    {
        let n = self.0.len();
        let mut edges: Vec<LineSegment2> = Vec::new();
        if n == 0 {
            return edges;
        }
        let mut i: usize = 0;
        while i < n - 1
            invariant
                n == self.0@.len(),
                n > 0,
                self.wf(),
                i <= n - 1,
                edges@.len() == i,
                forall|k: int|
                    0 <= k < i ==> edges@[k] == (LineSegment2 {
                        start: self.0@[k],
                        end: self.0@[k + 1],
                    }),
            decreases n - i,
        {
            edges.push(LineSegment2 { start: self.0[i], end: self.0[i + 1] });
            i = i + 1;
        }
        edges
    }

    /// The point of the chain nearest to `point`: the closest point of
    /// the first edge attaining the least distance, or the lone vertex
    /// of a one-vertex chain.
    pub fn closest_point(&self, point: Vec2) -> (r: RatPoint)
        requires
            self.wf(),
            point.in_range(),
            self.0@.len() > 0,
        ensures
            r.wf(),
            self.0@.len() == 1 ==> r.is_point(self.0@[0]),
            self.0@.len() > 1 ==> ({
                let bi = best_edge(self.0@, point, self.0@.len() - 1);
                &&& r.d == seg_cp_den(self.0@[bi], self.0@[bi + 1])
                &&& r.xn == seg_cp_xn(self.0@[bi], self.0@[bi + 1], point)
                &&& r.yn == seg_cp_yn(self.0@[bi], self.0@[bi + 1], point)
            }),
    {
        let n = self.0.len();
        if n == 1 {
            RatPoint::from_vec2(self.0[0])
        } else {
            let segments = self.line_segments();
            let mut best: usize = 0;
            let (mut bnum, mut bden) = segments[0].dist_sq_key(point);
            let mut i: usize = 1;
            while i < n - 1
                invariant
                    n == self.0@.len(),
                    n > 1,
                    self.wf(),
                    point.in_range(),
                    segments@.len() == n - 1,
                    forall|k: int|
                        0 <= k < segments@.len() ==> segments@[k] == (LineSegment2 {
                            start: self.0@[k],
                            end: self.0@[k + 1],
                        }),
                    1 <= i <= n - 1,
                    best == best_edge(self.0@, point, i as int),
                    0 <= best < i,
                    bnum == seg_dist_num(self.0@[best as int], self.0@[best as int + 1], point),
                    bden == seg_dist_den(self.0@[best as int], self.0@[best as int + 1], point),
                    0 <= bnum <= 0x1_0000_0000_0000_0000,
                    0 < bden <= 0x1_0000_0000,
                decreases n - i,
            {
                let (num, den) = segments[i].dist_sq_key(point);
                proof {
                    crate::arith::lemma_mul_bound(
                        num as int,
                        bden as int,
                        0x1_0000_0000_0000_0000,
                        0x1_0000_0000,
                    );
                    crate::arith::lemma_mul_bound(
                        bnum as int,
                        den as int,
                        0x1_0000_0000_0000_0000,
                        0x1_0000_0000,
                    );
                }
                if num * bden < bnum * den {
                    best = i;
                    bnum = num;
                    bden = den;
                }
                i = i + 1;
            }
            segments[best].closest_point(point)
        }
    }
}

} // verus!
