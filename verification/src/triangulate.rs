//! Incremental circumcircle-repair triangulation of a point set.

use vstd::prelude::*;

use crate::arith::lemma_tdiv_bound;
use crate::arith::tdiv;
use crate::line_segment::LineSegment2;
use crate::vec2::cross;
use crate::triangle::in_circumcircle;
use crate::triangle::Triangle2;
use crate::vec2::Vec2;

verus! {

/// Largest coordinate magnitude a triangulation input point may carry:
/// tighter than the general grid bound, so that the enclosing
/// super-triangle still fits on the grid after its growth loop.
pub const TRI_POINT_LIMIT: i64 = 512;

/// Every point of the sequence lies within the triangulation bound.
pub open spec fn all_in_tri_range(vs: Seq<Vec2>) -> bool {
    forall|i: int|
        0 <= i < vs.len() ==> -512 <= (#[trigger] vs[i]).x <= 512 && -512 <= vs[i].y <= 512
}

/// A triangle's corners all come from the sequence.
pub open spec fn corners_from(t: Triangle2, vs: Seq<Vec2>) -> bool {
    vs.contains(t.a) && vs.contains(t.b) && vs.contains(t.c)
}

/// A triangle's corners all come from the sequence or are one of the
/// three given helper vertices.
pub open spec fn corners_from_or_super(t: Triangle2, vs: Seq<Vec2>, sa: Vec2, sb: Vec2, sc: Vec2) -> bool {
    &&& (vs.contains(t.a) || t.a == sa || t.a == sb || t.a == sc)
    &&& (vs.contains(t.b) || t.b == sa || t.b == sb || t.b == sc)
    &&& (vs.contains(t.c) || t.c == sa || t.c == sb || t.c == sc)
}

/// Running sums of the input coordinates, for the rounded centroid.
pub open spec fn coord_sum_x(vs: Seq<Vec2>, k: int) -> int
    decreases k,
{
    if k <= 0 {
        0
    } else {
        coord_sum_x(vs, k - 1) + vs[k - 1].x
    }
}

pub open spec fn coord_sum_y(vs: Seq<Vec2>, k: int) -> int
    decreases k,
{
    if k <= 0 {
        0
    } else {
        coord_sum_y(vs, k - 1) + vs[k - 1].y
    }
}

/// The three super-triangle vertices for the rounded centroid
/// `(gx, gy)` and offset factor `k`.
pub open spec fn super_vertex_a(gx: int, gy: int, k: int) -> Vec2 {
    Vec2 { x: (gx - 100 * k) as i64, y: (gy - 100 * k) as i64 }
}

pub open spec fn super_vertex_b(gx: int, gy: int, k: int) -> Vec2 {
    Vec2 { x: (gx - 100 * k) as i64, y: (gy + 100 * k) as i64 }
}

pub open spec fn super_vertex_c(gx: int, gy: int, k: int) -> Vec2 {
    Vec2 { x: (gx + 150 * k) as i64, y: gy as i64 }
}

/// Whether the super triangle of factor `k` holds every input point.
pub open spec fn super_contains_all(vs: Seq<Vec2>, gx: int, gy: int, k: int) -> bool {
    forall|i: int|
        0 <= i < vs.len() ==> (Triangle2 {
            a: super_vertex_a(gx, gy, k),
            b: super_vertex_b(gx, gy, k),
            c: super_vertex_c(gx, gy, k),
        }).contains_point_spec(#[trigger] vs[i])
}

/// The offset factor the growth loop settles on: scaled by 11/10
/// (rounded up) until every point is inside, capped so the vertices
/// provably stay on the grid.
pub open spec fn grow_offset(vs: Seq<Vec2>, gx: int, gy: int, k: int) -> int
    decreases 64 - k,
    via grow_offset_decreases
{
    if k < 1 || k >= 58 || super_contains_all(vs, gx, gy, k) {
        k
    } else {
        grow_offset(vs, gx, gy, (11 * k + 9) / 10)
    }
}

#[via_fn]
proof fn grow_offset_decreases(vs: Seq<Vec2>, gx: int, gy: int, k: int) {
    if !(k < 1 || k >= 58 || super_contains_all(vs, gx, gy, k)) {
        lemma_growth_step_bounds(k);
    }
}

/// One ceiling-scaled growth step strictly increases the factor and
/// stays under the cap.
proof fn lemma_growth_step_bounds(k: int)
    requires
        1 <= k < 58,
    ensures
        k < (11 * k + 9) / 10 <= 63,
{
    vstd::arithmetic::div_mod::lemma_div_multiples_vanish(k + 1, 10);
    vstd::arithmetic::div_mod::lemma_div_is_ordered(10 * (k + 1), 11 * k + 9, 10);
    vstd::arithmetic::div_mod::lemma_div_multiples_vanish(64, 10);
    vstd::arithmetic::div_mod::lemma_div_by_multiple_is_strongly_ordered(11 * k + 9, 640, 64, 10);
}

/// Whether a triangle has a circumcircle that catches `p`.
pub open spec fn is_bad_triangle(t: Triangle2, p: Vec2) -> bool {
    cross(t.a, t.b, t.c) != 0 && in_circumcircle(t, p)
}

/// The indices, in order, of the triangles among the first `k` whose
/// circumcircle catches `p`.
pub open spec fn bad_indices(tris: Seq<Triangle2>, p: Vec2, k: int) -> Seq<int>
    decreases k,
{
    if k <= 0 {
        Seq::empty()
    } else if is_bad_triangle(tris[k - 1], p) {
        bad_indices(tris, p, k - 1).push(k - 1)
    } else {
        bad_indices(tris, p, k - 1)
    }
}

/// One of the three directed edges of a triangle, in the order the
/// edge list presents them.
pub open spec fn tri_edge(t: Triangle2, e: int) -> LineSegment2 {
    if e == 0 {
        LineSegment2 { start: t.a, end: t.b }
    } else if e == 1 {
        LineSegment2 { start: t.b, end: t.c }
    } else {
        LineSegment2 { start: t.c, end: t.a }
    }
}

/// Undirected segment equality, as `LineSegment2::is_same` decides it.
pub open spec fn seg_same(e1: LineSegment2, e2: LineSegment2) -> bool {
    (e1.start == e2.start && e1.end == e2.end) || (e1.start == e2.end && e1.end == e2.start)
}

/// Whether an edge of the bad triangle at position `bi` also occurs on
/// another bad triangle: an interior edge of the hole, to be discarded.
pub open spec fn edge_shared(
    tris: Seq<Triangle2>,
    bad: Seq<int>,
    bi: int,
    edge: LineSegment2,
) -> bool {
    exists|obi: int, oe: int|
        0 <= obi < bad.len() && obi != bi && 0 <= oe < 3 && seg_same(
            edge,
            #[trigger] tri_edge(tris[bad[obi]], oe),
        )
}

/// The boundary edges contributed by the first `e` edges of the bad
/// triangle at position `bi`: those no other bad triangle shares.
pub open spec fn boundary_edges_of(tris: Seq<Triangle2>, bad: Seq<int>, bi: int, e: int) -> Seq<
    LineSegment2,
>
    decreases e,
{
    if e <= 0 {
        Seq::empty()
    } else if edge_shared(tris, bad, bi, tri_edge(tris[bad[bi]], e - 1)) {
        boundary_edges_of(tris, bad, bi, e - 1)
    } else {
        boundary_edges_of(tris, bad, bi, e - 1).push(tri_edge(tris[bad[bi]], e - 1))
    }
}

/// The boundary of the hole: the unshared edges of the first `k` bad
/// triangles, in scan order.
pub open spec fn collect_boundary(tris: Seq<Triangle2>, bad: Seq<int>, k: int) -> Seq<LineSegment2>
    decreases k,
{
    if k <= 0 {
        Seq::empty()
    } else {
        collect_boundary(tris, bad, k - 1) + boundary_edges_of(tris, bad, k - 1, 3)
    }
}

/// The triangles among the first `k` whose index is not listed in `bad`.
pub open spec fn keep_triangles(tris: Seq<Triangle2>, bad: Seq<int>, k: int) -> Seq<Triangle2>
    decreases k,
{
    if k <= 0 {
        Seq::empty()
    } else if bad.contains(k - 1) {
        keep_triangles(tris, bad, k - 1)
    } else {
        keep_triangles(tris, bad, k - 1).push(tris[k - 1])
    }
}

/// The hole retriangulated: one new triangle from each of the first `k`
/// boundary edges to the inserted point.
pub open spec fn fill_hole(
    tris: Seq<Triangle2>,
    edges: Seq<LineSegment2>,
    p: Vec2,
    k: int,
) -> Seq<Triangle2>
    decreases k,
{
    if k <= 0 {
        tris
    } else {
        fill_hole(tris, edges, p, k - 1).push(
            Triangle2 { a: edges[k - 1].start, b: edges[k - 1].end, c: p },
        )
    }
}

/// One insertion round: find the triangles whose circumcircle catches
/// the point, cut them out, and close the hole from its boundary edges
/// to the point.
pub open spec fn insert_point(tris: Seq<Triangle2>, p: Vec2) -> Seq<Triangle2> {
    let bad = bad_indices(tris, p, tris.len() as int);
    if bad.len() == 0 {
        tris
    } else {
        let edges = collect_boundary(tris, bad, bad.len() as int);
        fill_hole(keep_triangles(tris, bad, tris.len() as int), edges, p, edges.len() as int)
    }
}

/// All points inserted in order, starting from position `i`.
pub open spec fn insert_all(tris: Seq<Triangle2>, points: Seq<Vec2>, i: int) -> Seq<Triangle2>
    decreases points.len() - i,
{
    if i < 0 || i >= points.len() {
        tris
    } else {
        insert_all(insert_point(tris, points[i]), points, i + 1)
    }
}

/// Whether a triangle has a super-triangle vertex for a corner.
pub open spec fn touches_super(t: Triangle2, sa: Vec2, sb: Vec2, sc: Vec2) -> bool {
    t.a == sa || t.a == sb || t.a == sc || t.b == sa || t.b == sb || t.b == sc || t.c == sa || t.c
        == sb || t.c == sc
}

/// The first `k` triangles with every super-touching one removed.
pub open spec fn drop_super(tris: Seq<Triangle2>, sa: Vec2, sb: Vec2, sc: Vec2, k: int) -> Seq<
    Triangle2,
>
    decreases k,
{
    if k <= 0 {
        Seq::empty()
    } else if touches_super(tris[k - 1], sa, sb, sc) {
        drop_super(tris, sa, sb, sc, k - 1)
    } else {
        drop_super(tris, sa, sb, sc, k - 1).push(tris[k - 1])
    }
}

/// The whole incremental triangulation at the spec level: super
/// triangle around the rounded centroid, grown until it holds every
/// point, every point inserted in order, and every triangle still
/// touching a super vertex discarded.
pub open spec fn incremental_spec(points: Seq<Vec2>) -> Seq<Triangle2> {
    if points.len() == 0 {
        Seq::empty()
    } else {
        let n = points.len() as int;
        let gx = tdiv(coord_sum_x(points, n), n);
        let gy = tdiv(coord_sum_y(points, n), n);
        let k0 = grow_offset(points, gx, gy, 1);
        let k = (12 * k0 + 9) / 10;
        let sa = super_vertex_a(gx, gy, k);
        let sb = super_vertex_b(gx, gy, k);
        let sc = super_vertex_c(gx, gy, k);
        let all = insert_all(seq![Triangle2 { a: sa, b: sb, c: sc }], points, 0);
        drop_super(all, sa, sb, sc, all.len() as int)
    }
}

/// The integer view of a list of vector indices.
pub open spec fn idx_view(s: Seq<usize>) -> Seq<int> {
    s.map_values(|v: usize| v as int)
}

/// Incremental (circumcircle-repair) triangulation: grow a
/// super-triangle around the rounded input centroid until it holds every
/// point, insert the points one at a time — retriangulating the
/// polygonal hole left by the triangles whose circumcircle caught the
/// new point — and finally discard every triangle still touching a
/// super-triangle vertex. The result is exactly the insertion sequence
/// `incremental_spec` describes; in particular every triangle that
/// comes back has all three corners among the input points. A
/// degenerate triangle met along the way (no circumcircle) is skipped
/// defensively rather than measured.
pub fn triangulate_incremental(points: &Vec<Vec2>) -> (r: Vec<Triangle2>)
    requires
        all_in_tri_range(points@),
    ensures
        r@ == incremental_spec(points@),
        forall|i: int| 0 <= i < r@.len() ==> corners_from(#[trigger] r@[i], points@),
        forall|i: int| 0 <= i < r@.len() ==> (#[trigger] r@[i]).wf(),
{
    let n = points.len();
    if n == 0 {
        return Vec::new();
    }
    // centroid of the input, rounded toward zero
    let mut sx: i128 = 0;
    let mut sy: i128 = 0;
    let mut i: usize = 0;
    while i < n
        invariant
            n == points@.len(),
            all_in_tri_range(points@),
            i <= n,
            sx == coord_sum_x(points@, i as int),
            sy == coord_sum_y(points@, i as int),
            -512 * (i as int) <= sx <= 512 * (i as int),
            -512 * (i as int) <= sy <= 512 * (i as int),
        decreases n - i,
    {
        proof {
            crate::arith::lemma_mul_le_mono(i as int, i as int + 1, 512);
            crate::arith::lemma_mul_le_mono(-(i as int) - 1, -(i as int), 512);
        }
        sx = sx + points[i].x as i128;
        sy = sy + points[i].y as i128;
        i = i + 1;
    }
    let gx = div_toward_zero(sx, n as i128) as i64;
    let gy = div_toward_zero(sy, n as i128) as i64;
    proof {
        crate::arith::lemma_mul_le_mono(n as int, n as int, 512);
        lemma_tdiv_bound(sx as int, n as int, 512);
        lemma_tdiv_bound(sy as int, n as int, 512);
        assert(gx as int == tdiv(coord_sum_x(points@, n as int), n as int));
        assert(gy as int == tdiv(coord_sum_y(points@, n as int), n as int));
    }
    // grow the super-triangle about the centroid until every point is
    // inside; each failed test scales the offset by 11/10 (rounded up),
    // capped so the vertices provably stay on the grid
    let mut k: i64 = 1;
    loop
        invariant
            n == points@.len(),
            n > 0,
            all_in_tri_range(points@),
            -512 <= gx <= 512,
            -512 <= gy <= 512,
            1 <= k <= 63,
            grow_offset(points@, gx as int, gy as int, k as int) == grow_offset(
                points@,
                gx as int,
                gy as int,
                1,
            ),
        ensures
            1 <= k <= 63,
            k as int == grow_offset(points@, gx as int, gy as int, 1),
        decreases 64 - k,
    {
        let sa = Vec2 { x: gx - 100 * k, y: gy - 100 * k };
        let sb = Vec2 { x: gx - 100 * k, y: gy + 100 * k };
        let sc = Vec2 { x: gx + 150 * k, y: gy };
        let tri = Triangle2 { a: sa, b: sb, c: sc };
        proof {
            assert(sa == super_vertex_a(gx as int, gy as int, k as int));
            assert(sb == super_vertex_b(gx as int, gy as int, k as int));
            assert(sc == super_vertex_c(gx as int, gy as int, k as int));
        }
        let mut all_inside = true;
        let mut pi: usize = 0;
        while pi < n
            invariant
                n == points@.len(),
                all_in_tri_range(points@),
                tri.wf(),
                pi <= n,
                all_inside == (forall|j: int|
                    0 <= j < pi ==> tri.contains_point_spec(#[trigger] points@[j])),
            decreases n - pi,
        {
            if !tri.contains_point(points[pi]) {
                all_inside = false;
            }
            pi = pi + 1;
        }
        if all_inside || k >= 58 {
            proof {
                if all_inside {
                    assert(super_contains_all(points@, gx as int, gy as int, k as int));
                }
            }
            break ;
        }
        k = (11 * k + 9) / 10;
    }
    let ghost k0 = k as int;
    // safety margin
    k = (12 * k + 9) / 10;
    proof {
        assert(k as int == (12 * k0 + 9) / 10);
    }
    let sa = Vec2 { x: gx - 100 * k, y: gy - 100 * k };
    let sb = Vec2 { x: gx - 100 * k, y: gy + 100 * k };
    let sc = Vec2 { x: gx + 150 * k, y: gy };
    proof {
        assert(sa == super_vertex_a(gx as int, gy as int, k as int));
        assert(sb == super_vertex_b(gx as int, gy as int, k as int));
        assert(sc == super_vertex_c(gx as int, gy as int, k as int));
    }
    let tri0 = Triangle2 { a: sa, b: sb, c: sc };
    let mut tris: Vec<Triangle2> = Vec::new();
    tris.push(tri0);
    proof {
        assert(tris@ =~= seq![tri0]);
    }
    let mut pi: usize = 0;
    while pi < n
        invariant
            n == points@.len(),
            all_in_tri_range(points@),
            sa.in_range() && sb.in_range() && sc.in_range(),
            pi <= n,
            insert_all(tris@, points@, pi as int) == insert_all(seq![tri0], points@, 0),
            forall|t: int|
                0 <= t < tris@.len() ==> corners_from_or_super(
                    #[trigger] tris@[t],
                    points@,
                    sa,
                    sb,
                    sc,
                ),
            forall|t: int| 0 <= t < tris@.len() ==> (#[trigger] tris@[t]).wf(),
        decreases n - pi,
    {
        let ghost pre_tris = tris@;
        let p = points[pi];
        // triangles whose circumcircle caught the new point
        let mut bad: Vec<usize> = Vec::new();
        let mut ti: usize = 0;
        while ti < tris.len()
            invariant
                n == points@.len(),
                all_in_tri_range(points@),
                p == points@[pi as int],
                pi < n,
                ti <= tris@.len(),
                forall|t: int| 0 <= t < tris@.len() ==> (#[trigger] tris@[t]).wf(),
                forall|b: int| 0 <= b < bad@.len() ==> #[trigger] bad@[b] < tris@.len(),
                idx_view(bad@) == bad_indices(tris@, p, ti as int),
            decreases tris@.len() - ti,
        {
            let ghost pre_bad = bad@;
            match tris[ti].circumcircle() {
                Some(cc) => {
                    if cc.contains_point(p) {
                        proof {
                            assert(is_bad_triangle(tris@[ti as int], p));
                        }
                        bad.push(ti);
                        proof {
                            assert(idx_view(bad@) =~= idx_view(pre_bad).push(ti as int));
                        }
                    } else {
                        proof {
                            assert(!is_bad_triangle(tris@[ti as int], p));
                        }
                    }
                },
                None => {
                    proof {
                        assert(!is_bad_triangle(tris@[ti as int], p));
                    }
                },
            }
            ti = ti + 1;
        }
        let ghost badv = idx_view(bad@);
        if bad.len() > 0 {
            // boundary edges: those of exactly one bad triangle
            let mut edges: Vec<LineSegment2> = Vec::new();
            let mut bi: usize = 0;
            while bi < bad.len()
                invariant
                    n == points@.len(),
                    all_in_tri_range(points@),
                    bi <= bad@.len(),
                    badv == idx_view(bad@),
                    badv.len() == bad@.len(),
                    forall|b: int| 0 <= b < bad@.len() ==> #[trigger] bad@[b] < tris@.len(),
                    forall|t: int|
                        0 <= t < tris@.len() ==> corners_from_or_super(
                            #[trigger] tris@[t],
                            points@,
                            sa,
                            sb,
                            sc,
                        ),
                    forall|t: int| 0 <= t < tris@.len() ==> (#[trigger] tris@[t]).wf(),
                    edges@ == collect_boundary(tris@, badv, bi as int),
                    forall|e: int|
                        0 <= e < edges@.len() ==> ((points@.contains(
                            (#[trigger] edges@[e]).start,
                        ) || edges@[e].start == sa || edges@[e].start == sb || edges@[e].start
                            == sc) && (points@.contains(edges@[e].end) || edges@[e].end == sa
                            || edges@[e].end == sb || edges@[e].end == sc)),
                    forall|e: int| 0 <= e < edges@.len() ==> (#[trigger] edges@[e]).wf(),
                decreases bad@.len() - bi,
            {
                let bad_triangle = tris[bad[bi]];
                let tri_edges = bad_triangle.edges();
                proof {
                    assert(badv[bi as int] == bad@[bi as int]);
                    assert(bad_triangle == tris@[badv[bi as int]]);
                }
                let mut ei: usize = 0;
                while ei < 3
                    invariant
                        n == points@.len(),
                        all_in_tri_range(points@),
                        bi < bad@.len(),
                        ei <= 3,
                        badv == idx_view(bad@),
                        badv.len() == bad@.len(),
                        forall|b: int| 0 <= b < bad@.len() ==> #[trigger] bad@[b] < tris@.len(),
                        forall|t: int|
                            0 <= t < tris@.len() ==> corners_from_or_super(
                                #[trigger] tris@[t],
                                points@,
                                sa,
                                sb,
                                sc,
                            ),
                        forall|t: int| 0 <= t < tris@.len() ==> (#[trigger] tris@[t]).wf(),
                        bad_triangle == tris@[badv[bi as int]],
                        tri_edges[0] == tri_edge(bad_triangle, 0),
                        tri_edges[1] == tri_edge(bad_triangle, 1),
                        tri_edges[2] == tri_edge(bad_triangle, 2),
                        edges@ == collect_boundary(tris@, badv, bi as int) + boundary_edges_of(
                            tris@,
                            badv,
                            bi as int,
                            ei as int,
                        ),
                        forall|e: int|
                            0 <= e < edges@.len() ==> ((points@.contains(
                                (#[trigger] edges@[e]).start,
                            ) || edges@[e].start == sa || edges@[e].start == sb || edges@[e].start
                                == sc) && (points@.contains(edges@[e].end) || edges@[e].end == sa
                                || edges@[e].end == sb || edges@[e].end == sc)),
                        forall|e: int| 0 <= e < edges@.len() ==> (#[trigger] edges@[e]).wf(),
                    decreases 3 - ei,
                {
                    let edge = tri_edges[ei];
                    proof {
                        assert(edge == tri_edge(tris@[badv[bi as int]], ei as int));
                    }
                    let mut shares_edge = false;
                    let mut obi: usize = 0;
                    while obi < bad.len()
                        invariant
                            obi <= bad@.len(),
                            badv == idx_view(bad@),
                            badv.len() == bad@.len(),
                            forall|b: int| 0 <= b < bad@.len() ==> #[trigger] bad@[b]
                                < tris@.len(),
                            forall|t: int| 0 <= t < tris@.len() ==> (#[trigger] tris@[t]).wf(),
                            bi < bad@.len(),
                            edge == tri_edge(tris@[badv[bi as int]], ei as int),
                            ei < 3,
                            shares_edge ==> edge_shared(tris@, badv, bi as int, edge),
                            !shares_edge ==> forall|ob: int, oe: int|
                                0 <= ob < obi && ob != bi && 0 <= oe < 3 ==> !seg_same(
                                    edge,
                                    #[trigger] tri_edge(tris@[badv[ob]], oe),
                                ),
                        decreases bad@.len() - obi,
                    {
                        if obi != bi {
                            let other_triangle = tris[bad[obi]];
                            let other_edges = other_triangle.edges();
                            proof {
                                assert(badv[obi as int] == bad@[obi as int]);
                                assert(other_triangle == tris@[badv[obi as int]]);
                                assert(other_edges[0] == tri_edge(other_triangle, 0));
                                assert(other_edges[1] == tri_edge(other_triangle, 1));
                                assert(other_edges[2] == tri_edge(other_triangle, 2));
                            }
                            if edge.is_same(other_edges[0]) || edge.is_same(other_edges[1])
                                || edge.is_same(other_edges[2]) {
                                shares_edge = true;
                            }
                        }
                        obi = obi + 1;
                    }
                    if !shares_edge {
                        proof {
                            assert(!edge_shared(tris@, badv, bi as int, edge)) by {
                                if edge_shared(tris@, badv, bi as int, edge) {
                                    let (ob, oe): (int, int) = choose|ob: int, oe: int|
                                        0 <= ob < badv.len() && ob != bi && 0 <= oe < 3
                                            && seg_same(
                                            edge,
                                            #[trigger] tri_edge(tris@[badv[ob]], oe),
                                        );
                                    assert(!seg_same(edge, tri_edge(tris@[badv[ob]], oe)));
                                }
                            }
                        }
                        edges.push(edge);
                    }
                    ei = ei + 1;
                }
                proof {
                    assert(collect_boundary(tris@, badv, bi as int + 1) == collect_boundary(
                        tris@,
                        badv,
                        bi as int,
                    ) + boundary_edges_of(tris@, badv, bi as int, 3));
                }
                bi = bi + 1;
            }
            // drop the bad triangles, keeping the rest in order
            let mut kept: Vec<Triangle2> = Vec::new();
            let mut ti2: usize = 0;
            while ti2 < tris.len()
                invariant
                    ti2 <= tris@.len(),
                    badv == idx_view(bad@),
                    badv.len() == bad@.len(),
                    kept@ == keep_triangles(tris@, badv, ti2 as int),
                    forall|t: int|
                        0 <= t < tris@.len() ==> corners_from_or_super(
                            #[trigger] tris@[t],
                            points@,
                            sa,
                            sb,
                            sc,
                        ),
                    forall|t: int| 0 <= t < tris@.len() ==> (#[trigger] tris@[t]).wf(),
                    forall|t: int|
                        0 <= t < kept@.len() ==> corners_from_or_super(
                            #[trigger] kept@[t],
                            points@,
                            sa,
                            sb,
                            sc,
                        ),
                    forall|t: int| 0 <= t < kept@.len() ==> (#[trigger] kept@[t]).wf(),
                decreases tris@.len() - ti2,
            {
                if !index_in(&bad, ti2) {
                    proof {
                        assert(!badv.contains(ti2 as int));
                    }
                    kept.push(tris[ti2]);
                } else {
                    proof {
                        assert(badv.contains(ti2 as int));
                    }
                }
                ti2 = ti2 + 1;
            }
            proof {
                assert(edges@ == collect_boundary(tris@, badv, badv.len() as int));
                assert(kept@ == keep_triangles(tris@, badv, tris@.len() as int));
                assert(badv == bad_indices(tris@, p, tris@.len() as int));
                assert(badv.len() > 0);
            }
            let ghost cut_tris = tris@;
            tris = kept;
            // close the hole with triangles from each boundary edge to
            // the new point
            let mut ei2: usize = 0;
            while ei2 < edges.len()
                invariant
                    n == points@.len(),
                    all_in_tri_range(points@),
                    p == points@[pi as int],
                    pi < n,
                    ei2 <= edges@.len(),
                    tris@ == fill_hole(
                        keep_triangles(cut_tris, badv, cut_tris.len() as int),
                        edges@,
                        p,
                        ei2 as int,
                    ),
                    forall|e: int|
                        0 <= e < edges@.len() ==> ((points@.contains(
                            (#[trigger] edges@[e]).start,
                        ) || edges@[e].start == sa || edges@[e].start == sb || edges@[e].start
                            == sc) && (points@.contains(edges@[e].end) || edges@[e].end == sa
                            || edges@[e].end == sb || edges@[e].end == sc)),
                    forall|e: int| 0 <= e < edges@.len() ==> (#[trigger] edges@[e]).wf(),
                    forall|t: int|
                        0 <= t < tris@.len() ==> corners_from_or_super(
                            #[trigger] tris@[t],
                            points@,
                            sa,
                            sb,
                            sc,
                        ),
                    forall|t: int| 0 <= t < tris@.len() ==> (#[trigger] tris@[t]).wf(),
                decreases edges@.len() - ei2,
            {
                let edge = edges[ei2];
                proof {
                    assert(points@.contains(points@[pi as int]));
                }
                tris.push(Triangle2 { a: edge.start, b: edge.end, c: p });
                ei2 = ei2 + 1;
            }
            proof {
                assert(tris@ == insert_point(cut_tris, p));
            }
        } else {
            proof {
                assert(badv.len() == 0);
                assert(tris@ == insert_point(pre_tris, p));
            }
        }
        proof {
            assert(insert_all(tris@, points@, pi as int + 1) == insert_all(
                pre_tris,
                points@,
                pi as int,
            ));
        }
        pi = pi + 1;
    }
    proof {
        assert(insert_all(tris@, points@, n as int) == tris@);
    }
    // discard everything still touching a super-triangle vertex
    let mut out: Vec<Triangle2> = Vec::new();
    let mut ti3: usize = 0;
    while ti3 < tris.len()
        invariant
            ti3 <= tris@.len(),
            out@ == drop_super(tris@, sa, sb, sc, ti3 as int),
            forall|t: int|
                0 <= t < tris@.len() ==> corners_from_or_super(
                    #[trigger] tris@[t],
                    points@,
                    sa,
                    sb,
                    sc,
                ),
            forall|t: int| 0 <= t < tris@.len() ==> (#[trigger] tris@[t]).wf(),
            forall|t: int| 0 <= t < out@.len() ==> corners_from(#[trigger] out@[t], points@),
            forall|t: int| 0 <= t < out@.len() ==> (#[trigger] out@[t]).wf(),
        decreases tris@.len() - ti3,
    {
        let t = tris[ti3];
        let touches = same_point(t.a, sa) || same_point(t.a, sb) || same_point(t.a, sc)
            || same_point(t.b, sa) || same_point(t.b, sb) || same_point(t.b, sc) || same_point(
            t.c,
            sa,
        ) || same_point(t.c, sb) || same_point(t.c, sc);
        proof {
            assert(touches == touches_super(tris@[ti3 as int], sa, sb, sc));
        }
        if !touches {
            out.push(t);
        }
        ti3 = ti3 + 1;
    }
    proof {
        assert(out@ == incremental_spec(points@));
    }
    out
}

/// Whether two grid points coincide.
fn same_point(a: Vec2, b: Vec2) -> (r: bool)
    ensures
        r == (a == b),
{
    a.x == b.x && a.y == b.y
}

/// Whether the index occurs in the list.
fn index_in(indices: &Vec<usize>, value: usize) -> (r: bool)
    ensures
        r == idx_view(indices@).contains(value as int),
{
    let mut i: usize = 0;
    while i < indices.len()
        invariant
            i <= indices@.len(),
            forall|j: int| 0 <= j < i ==> #[trigger] indices@[j] != value,
        decreases indices@.len() - i,
    {
        if indices[i] == value {
            proof {
                assert(idx_view(indices@)[i as int] == value as int);
            }
            return true;
        }
        i = i + 1;
    }
    proof {
        assert(!idx_view(indices@).contains(value as int)) by {
            if idx_view(indices@).contains(value as int) {
                let j = choose|j: int|
                    0 <= j < idx_view(indices@).len() && idx_view(indices@)[j] == value as int;
                assert(indices@[j] != value);
                assert(idx_view(indices@)[j] == indices@[j] as int);
            }
        }
    }
    false
}

/// Division truncated toward zero, for a positive divisor.
fn div_toward_zero(a: i128, b: i128) -> (r: i128)
    requires
        b > 0,
        -0x7fff_ffff_ffff_ffff_ffff_ffff_ffff_ffff <= a,
    ensures
        r == tdiv(a as int, b as int),
{
    if a >= 0 {
        a / b
    } else {
        -((-a) / b)
    }
}

} // verus!
