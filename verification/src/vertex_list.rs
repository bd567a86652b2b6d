//! Closed polygon boundaries: ordered vertices whose edges wrap around.

use vstd::prelude::*;

use crate::collision::segment_segment_colliding;
use crate::collision::Colliding;
use crate::line_segment::LineSegment2;
use crate::vec2::all_in_range;
use crate::vec2::Vec2;

verus! {

/// The wrapping edge starting at index `i`: from `vs[i]` to the next
/// vertex, the last edge closing back to the first vertex.
pub open spec fn wrap_edge(vs: Seq<Vec2>, i: int) -> LineSegment2 {
    LineSegment2 { start: vs[i], end: vs[(i + 1) % (vs.len() as int)] }
}

/// The pairwise test `is_simple_polygon` performs: every pair of edges
/// that share no vertex is free of collision. The inner range starts two
/// past the outer edge (skipping the edge itself and its successor), and
/// for the first edge also stops one short (skipping the wrap-around
/// neighbour).
pub open spec fn simple_polygon_spec(vs: Seq<Vec2>) -> bool {
    forall|i: int, j: int|
        0 <= i < vs.len() && i + 2 <= j < vs.len() - (if i == 0 {
            1int
        } else {
            0int
        }) ==> !segment_segment_colliding(#[trigger] wrap_edge(vs, i), #[trigger] wrap_edge(vs, j))
}

/// The shoelace accumulator over the first `k` wrapping edges: twice the
/// signed area once `k` reaches the vertex count.
pub open spec fn shoelace(vs: Seq<Vec2>, k: int) -> int
    decreases k,
{
    if k <= 0 {
        0
    } else {
        let i = k - 1;
        let j = k % (vs.len() as int);
        shoelace(vs, i) + vs[i].x * vs[j].y - vs[j].x * vs[i].y
    }
}

/// An ordered vertex sequence read as a closed polygon boundary.
#[derive(Debug)]
pub struct VertexList2(pub Vec<Vec2>);

impl VertexList2 {
    /// Every vertex lies on the grid.
    pub open spec fn wf(self) -> bool {
        all_in_range(self.0@)
    }

    pub fn new() -> (r: VertexList2)
        ensures
            r.0@.len() == 0,
            r.wf(),
    {
        VertexList2(Vec::new())
    }

    /// The wrapping edges, one per vertex.
    pub fn edges(&self) -> (r: Vec<LineSegment2>)
        requires
            self.wf(),
        ensures
            r@.len() == self.0@.len(),
            forall|i: int| 0 <= i < r@.len() ==> r@[i] == wrap_edge(self.0@, i),
            forall|i: int| 0 <= i < r@.len() ==> (#[trigger] r@[i]).wf(),
    {
        let n = self.0.len();
        let mut edges: Vec<LineSegment2> = Vec::new();
        let mut i: usize = 0;
        while i < n
            invariant
                n == self.0@.len(),
                self.wf(),
                i <= n,
                edges@.len() == i,
                forall|k: int| 0 <= k < i ==> edges@[k] == wrap_edge(self.0@, k),
                forall|k: int| 0 <= k < i ==> (#[trigger] edges@[k]).wf(),
            decreases n - i,
        {
            let next = (i + 1) % n;
            edges.push(LineSegment2 { start: self.0[i], end: self.0[next] });
            i = i + 1;
        }
        edges
    }

    /// Pairwise-exact approximation of simplicity: no two non-adjacent
    /// edges collide. Touching-but-not-crossing pairs fall out of the
    /// strict orientation test rather than being treated specially.
    pub fn is_simple_polygon(&self) -> (r: bool)
        requires
            self.wf(),
            self.0@.len() + 2 <= usize::MAX,
        ensures
            r == simple_polygon_spec(self.0@),
    {
        let edges = self.edges();
        let n = edges.len();
        let mut i: usize = 0;
        while i < n
            invariant
                n == edges@.len(),
                n == self.0@.len(),
                n + 2 <= usize::MAX,
                self.wf(),
                i <= n,
                forall|k: int| 0 <= k < n ==> edges@[k] == wrap_edge(self.0@, k),
                forall|k: int| 0 <= k < n ==> (#[trigger] edges@[k]).wf(),
                forall|a: int, b: int|
                    0 <= a < i && a + 2 <= b < n - (if a == 0 {
                        1int
                    } else {
                        0int
                    }) ==> !segment_segment_colliding(
                        #[trigger] wrap_edge(self.0@, a),
                        #[trigger] wrap_edge(self.0@, b),
                    ),
            decreases n - i,
        {
            let stop = if i == 0 {
                if n > 0 {
                    n - 1
                } else {
                    0
                }
            } else {
                n
            };
            let mut j = i + 2;
            while j < stop
                invariant
                    n == edges@.len(),
                    n == self.0@.len(),
                    n + 2 <= usize::MAX,
                    self.wf(),
                    i < n,
                    stop == n - (if i == 0 {
                        1int
                    } else {
                        0int
                    }),
                    i + 2 <= j,
                    forall|k: int| 0 <= k < n ==> edges@[k] == wrap_edge(self.0@, k),
                    forall|k: int| 0 <= k < n ==> (#[trigger] edges@[k]).wf(),
                    forall|b: int|
                        i + 2 <= b < j && b < stop ==> !segment_segment_colliding(
                            wrap_edge(self.0@, i as int),
                            #[trigger] wrap_edge(self.0@, b),
                        ),
                decreases stop - j,
            {
                if edges[i].colliding(&edges[j]) {
                    return false;
                }
                j = j + 1;
            }
            i = i + 1;
        }
        true
    }

    /// Whether the boundary winds clockwise: the doubled shoelace signed
    /// area is positive.
    pub fn is_clockwise(&self) -> (r: bool)
        requires
            self.wf(),
        ensures
            r == (shoelace(self.0@, self.0@.len() as int) > 0),
    {
        let n = self.0.len();
        let mut area: i128 = 0;
        let mut i: usize = 0;
        while i < n
            invariant
                n == self.0@.len(),
                self.wf(),
                i <= n,
                area == shoelace(self.0@, i as int),
                -0x2000_0000 * (i as int) <= area <= 0x2000_0000 * (i as int),
            decreases n - i,
        {
            let j = (i + 1) % n;
            proof {
                crate::arith::lemma_mul_bound(self.0@[i as int].x as int, self.0@[j as int].y as int, 16384, 16384);
                crate::arith::lemma_mul_bound(self.0@[j as int].x as int, self.0@[i as int].y as int, 16384, 16384);
                crate::arith::lemma_mul_le_mono(i as int, i as int + 1, 0x2000_0000);
                crate::arith::lemma_mul_le_mono(-(i as int) - 1, -(i as int), 0x2000_0000);
            }
            area = area + self.0[i].x as i128 * self.0[j].y as i128 - self.0[j].x as i128
                * self.0[i].y as i128;
            i = i + 1;
        }
        area > 0
    }

    /// Reverse the vertex order if the boundary is not already clockwise.
    pub fn make_clockwise(&mut self)
        requires
            old(self).wf(),
        ensures
            final (self).wf(),
            final (self).0@ == if shoelace(old(self).0@, old(self).0@.len() as int) > 0 {
                old(self).0@
            } else {
                old(self).0@.reverse()
            },
    {
        if !self.is_clockwise() {
            self.reverse_vertices();
        }
    }

    /// Reverse the vertex order if the boundary is clockwise.
    pub fn make_counterclockwise(&mut self)
        requires
            old(self).wf(),
        ensures
            final (self).wf(),
            final (self).0@ == if shoelace(old(self).0@, old(self).0@.len() as int) > 0 {
                old(self).0@.reverse()
            } else {
                old(self).0@
            },
    {
        if self.is_clockwise() {
            self.reverse_vertices();
        }
    }

    /// Replace the vertices with the same sequence read backwards.
    fn reverse_vertices(&mut self)
        requires
            old(self).wf(),
        ensures
            final (self).wf(),
            final (self).0@ == old(self).0@.reverse(),
    {
        let n = self.0.len();
        let mut rev: Vec<Vec2> = Vec::new();
        let mut i: usize = 0;
        while i < n
            invariant
                n == old(self).0@.len(),
                self.0@ == old(self).0@,
                old(self).wf(),
                i <= n,
                rev@.len() == i,
                forall|k: int| 0 <= k < i ==> rev@[k] == old(self).0@[n - 1 - k],
            decreases n - i,
        {
            rev.push(self.0[n - 1 - i]);
            i = i + 1;
        }
        proof {
            assert(rev@ =~= old(self).0@.reverse());
        }
        self.0 = rev;
    }
}

} // verus!
