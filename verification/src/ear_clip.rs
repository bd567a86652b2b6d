//! Ear-clipping triangulation of a simple polygon.

use vstd::prelude::*;

use crate::triangle::Triangle2;
use crate::vec2::all_in_range;
use crate::vec2::cross;
use crate::vec2::cross_exec;
use crate::vec2::Vec2;
use crate::vertex_list::shoelace;
use crate::vertex_list::simple_polygon_spec;
use crate::vertex_list::VertexList2;

verus! {

/// The candidate triangle at position `i` of the working boundary: the
/// vertex together with its two neighbours, wrapping around.
pub open spec fn ear_triangle(ws: Seq<Vec2>, i: int) -> Triangle2 {
    let len = ws.len() as int;
    Triangle2 { a: ws[(i + len - 1) % len], b: ws[i], c: ws[(i + 1) % len] }
}

/// Whether position `i` is an ear: its candidate triangle winds with a
/// negative signed area (a convex corner of the counter-clockwise-
/// normalized polygon) and no other boundary vertex lies inside it.
pub open spec fn is_ear_spec(ws: Seq<Vec2>, i: int) -> bool {
    let len = ws.len() as int;
    let prev = (i + len - 1) % len;
    let next = (i + 1) % len;
    &&& cross(ws[prev], ws[i], ws[next]) < 0
    &&& forall|o: int|
        0 <= o < len && o != prev && o != i && o != next ==> !ear_triangle(
            ws,
            i,
        ).contains_point_spec(#[trigger] ws[o])
}

/// The first ear at or after position `i`, or the vertex count when no
/// ear remains.
pub open spec fn first_ear_from(ws: Seq<Vec2>, i: int) -> int
    decreases ws.len() - i,
{
    if i < 0 || i >= ws.len() {
        ws.len() as int
    } else if is_ear_spec(ws, i) {
        i
    } else {
        first_ear_from(ws, i + 1)
    }
}

/// The scan start never overshoots: the first ear lies between the
/// start and the vertex count.
pub proof fn lemma_first_ear_range(ws: Seq<Vec2>, i: int)
    requires
        0 <= i <= ws.len(),
    ensures
        i <= first_ear_from(ws, i) <= ws.len(),
    decreases ws.len() - i,
{
    if i < ws.len() && !is_ear_spec(ws, i) {
        lemma_first_ear_range(ws, i + 1);
    }
}

/// A scan that found no ear before `i` finds the same first ear as a
/// scan from the beginning.
proof fn lemma_first_ear_skip(ws: Seq<Vec2>, i: int)
    requires
        0 <= i <= ws.len(),
        forall|j: int| 0 <= j < i ==> !is_ear_spec(ws, j),
    ensures
        first_ear_from(ws, 0) == first_ear_from(ws, i),
    decreases i,
{
    if i > 0 {
        lemma_first_ear_skip(ws, i - 1);
    }
}

/// The triangles clipped from a working boundary, first ear first:
/// each round removes the first ear's vertex and emits its triangle,
/// until three vertices remain and close the last triangle. A round
/// with no ear gives nothing at all.
pub open spec fn clip_rec(ws: Seq<Vec2>) -> Option<Seq<Triangle2>>
    decreases ws.len(),
    via clip_rec_decreases
{
    if ws.len() < 3 {
        None
    } else if ws.len() == 3 {
        Some(seq![Triangle2 { a: ws[0], b: ws[1], c: ws[2] }])
    } else {
        let e = first_ear_from(ws, 0);
        if e >= ws.len() {
            None
        } else {
            match clip_rec(ws.remove(e)) {
                Some(rest) => Some(seq![ear_triangle(ws, e)] + rest),
                None => None,
            }
        }
    }
}

#[via_fn]
proof fn clip_rec_decreases(ws: Seq<Vec2>) {
    if ws.len() > 3 {
        lemma_first_ear_range(ws, 0);
    }
}

/// Whether `v` is one of the triangle's corners.
pub open spec fn has_corner(t: Triangle2, v: Vec2) -> bool {
    t.a == v || t.b == v || t.c == v
}

/// A successful clip sequence holds exactly two triangles fewer than
/// the boundary has vertices.
pub proof fn lemma_clip_rec_count(ws: Seq<Vec2>)
    requires
        clip_rec(ws) is Some,
    ensures
        clip_rec(ws).unwrap().len() == ws.len() - 2,
    decreases ws.len(),
{
    if ws.len() == 3 {
    } else {
        let e = first_ear_from(ws, 0);
        lemma_first_ear_range(ws, 0);
        lemma_clip_rec_count(ws.remove(e));
    }
}

/// A successful clip sequence uses every boundary vertex: each one is a
/// corner of some emitted triangle.
pub proof fn lemma_clip_rec_covers(ws: Seq<Vec2>, v: Vec2)
    requires
        clip_rec(ws) is Some,
        ws.contains(v),
    ensures
        exists|i: int|
            0 <= i < clip_rec(ws).unwrap().len() && has_corner(
                #[trigger] clip_rec(ws).unwrap()[i],
                v,
            ),
    decreases ws.len(),
{
    let ts = clip_rec(ws).unwrap();
    if ws.len() == 3 {
        assert(has_corner(ts[0], v));
    } else {
        let e = first_ear_from(ws, 0);
        lemma_first_ear_range(ws, 0);
        if v == ws[e] {
            // the clipped vertex is the middle corner of the ear triangle
            assert(has_corner(ts[0], v));
        } else {
            // the vertex survives into the smaller boundary
            let j = choose|j: int| 0 <= j < ws.len() && ws[j] == v;
            assert(ws.remove(e).contains(v)) by {
                if j < e {
                    assert(ws.remove(e)[j] == v);
                } else {
                    assert(ws.remove(e)[j - 1] == v);
                }
            }
            lemma_clip_rec_covers(ws.remove(e), v);
            let i = choose|i: int|
                0 <= i < clip_rec(ws.remove(e)).unwrap().len() && has_corner(
                    #[trigger] clip_rec(ws.remove(e)).unwrap()[i],
                    v,
                );
            assert(has_corner(ts[i + 1], v));
        }
    }
}

/// When ear clipping succeeds (a nonempty result), every input polygon
/// vertex is a corner of some output triangle: together with the
/// corners-from-input clause, the output's vertex set equals the
/// input's.
pub proof fn lemma_ear_clip_covers_vertices(vertices: Seq<Vec2>, v: Vec2)
    requires
        ear_clip_spec(vertices).len() > 0,
        vertices.contains(v),
    ensures
        exists|i: int|
            0 <= i < ear_clip_spec(vertices).len() && has_corner(
                #[trigger] ear_clip_spec(vertices)[i],
                v,
            ),
{
    let ws = if shoelace(vertices, vertices.len() as int) > 0 {
        vertices.reverse()
    } else {
        vertices
    };
    assert(ws.contains(v)) by {
        let j = choose|j: int| 0 <= j < vertices.len() && vertices[j] == v;
        if shoelace(vertices, vertices.len() as int) > 0 {
            assert(ws[vertices.len() - 1 - j] == v);
        } else {
            assert(ws[j] == v);
        }
    }
    lemma_clip_rec_covers(ws, v);
}

/// The whole ear-clipping reduction at the spec level: degenerate or
/// non-simple input gives nothing; otherwise the boundary is normalized
/// to counter-clockwise order and clipped round by round.
pub open spec fn ear_clip_spec(vertices: Seq<Vec2>) -> Seq<Triangle2> {
    if vertices.len() < 3 || !simple_polygon_spec(vertices) {
        Seq::empty()
    } else {
        let ws = if shoelace(vertices, vertices.len() as int) > 0 {
            vertices.reverse()
        } else {
            vertices
        };
        match clip_rec(ws) {
            Some(ts) => ts,
            None => Seq::empty(),
        }
    }
}

/// Reduce a simple polygon to triangles by repeatedly clipping "ears":
/// convex vertices whose triangle with their two neighbours contains no
/// other polygon vertex. The input is normalized to counter-clockwise
/// order first. Degenerate input (fewer than three vertices, a
/// non-simple boundary, or a scan that finds no ear) yields no
/// triangles; otherwise exactly `n - 2` triangles come back, all of
/// whose corners are input vertices. The result is exactly the clip
/// sequence `ear_clip_spec` describes.
pub fn triangulate_ear_clipping(vertices: &Vec<Vec2>) -> (r: Vec<Triangle2>)
    requires
        all_in_range(vertices@),
        2 * vertices@.len() <= usize::MAX,
    ensures
        r@ == ear_clip_spec(vertices@),
        vertices@.len() < 3 || !simple_polygon_spec(vertices@) ==> r@.len() == 0,
        forall|i: int|
            0 <= i < r@.len() ==> vertices@.contains(#[trigger] r@[i].a) && vertices@.contains(
                r@[i].b,
            ) && vertices@.contains(r@[i].c),
        forall|i: int| 0 <= i < r@.len() ==> (#[trigger] r@[i]).wf(),
        r@.len() == 0 || r@.len() == vertices@.len() - 2,
{
    let n = vertices.len();
    if n < 3 {
        return Vec::new();
    }
    let mut vertex_list = VertexList2(clone_points(vertices));
    if !vertex_list.is_simple_polygon() {
        return Vec::new();
    }
    vertex_list.make_counterclockwise();
    let VertexList2(mut work) = vertex_list;
    proof {
        assert forall|k: int| 0 <= k < work@.len() implies vertices@.contains(
            #[trigger] work@[k],
        ) by {
            if work@ == vertices@.reverse() {
                assert(work@[k] == vertices@[vertices@.len() - 1 - k]);
            } else {
                assert(work@[k] == vertices@[k]);
            }
        }
        assert(all_in_range(work@));
    }
    let mut triangles: Vec<Triangle2> = Vec::new();
    while work.len() > 3
        invariant
            all_in_range(work@),
            forall|k: int| 0 <= k < work@.len() ==> vertices@.contains(#[trigger] work@[k]),
            work@.len() >= 3,
            2 * vertices@.len() <= usize::MAX,
            triangles@.len() + work@.len() == vertices@.len(),
            forall|i: int|
                0 <= i < triangles@.len() ==> vertices@.contains(#[trigger] triangles@[i].a)
                    && vertices@.contains(triangles@[i].b) && vertices@.contains(triangles@[i].c),
            forall|i: int| 0 <= i < triangles@.len() ==> (#[trigger] triangles@[i]).wf(),
            clip_rec(work@) is Some ==> ear_clip_spec(vertices@) == triangles@ + clip_rec(
                work@,
            ).unwrap(),
            clip_rec(work@) is None ==> ear_clip_spec(vertices@) == Seq::<Triangle2>::empty(),
        decreases work@.len(),
    {
        let ghost pre_work = work@;
        let ghost pre_triangles = triangles@;
        let len = work.len();
        let mut clipped = false;
        let mut vertex_index: usize = 0;
        while vertex_index < len && !clipped
            invariant
                2 * len <= usize::MAX,
                len > 3,
                2 * vertices@.len() <= usize::MAX,
                all_in_range(work@),
                forall|k: int| 0 <= k < work@.len() ==> vertices@.contains(#[trigger] work@[k]),
                triangles@.len() + work@.len() == vertices@.len(),
                vertex_index <= len,
                forall|i: int|
                    0 <= i < triangles@.len() ==> vertices@.contains(#[trigger] triangles@[i].a)
                        && vertices@.contains(triangles@[i].b) && vertices@.contains(
                        triangles@[i].c,
                    ),
                forall|i: int| 0 <= i < triangles@.len() ==> (#[trigger] triangles@[i]).wf(),
                clipped ==> work@.len() + 1 == len,
                !clipped ==> work@ == pre_work && work@.len() == len && triangles@
                    == pre_triangles,
                !clipped ==> forall|j: int| 0 <= j < vertex_index ==> !is_ear_spec(pre_work, j),
                clip_rec(work@) is Some ==> ear_clip_spec(vertices@) == triangles@ + clip_rec(
                    work@,
                ).unwrap(),
                clip_rec(work@) is None ==> ear_clip_spec(vertices@) == Seq::<
                    Triangle2,
                >::empty(),
            decreases len - vertex_index + (if clipped {
                0int
            } else {
                1int
            }),
        {
            let prev = (vertex_index + len - 1) % len;
            let next = (vertex_index + 1) % len;
            let triangle = Triangle2 { a: work[prev], b: work[vertex_index], c: work[next] };
            proof {
                assert(triangle == ear_triangle(pre_work, vertex_index as int));
            }
            // convexity at the vertex: in the counter-clockwise-normalized
            // polygon (negative shoelace), a convex corner's triangle winds
            // with a negative signed area
            let mut is_ear = cross_exec(triangle.a, triangle.b, triangle.c) < 0;
            let mut other: usize = 0;
            while other < len
                invariant
                    len == work@.len(),
                    work@ == pre_work,
                    all_in_range(work@),
                    prev == (vertex_index + len - 1) % (len as int),
                    next == (vertex_index + 1) % (len as int),
                    prev < len,
                    vertex_index < len,
                    next < len,
                    len > 3,
                    triangle == ear_triangle(pre_work, vertex_index as int),
                    triangle.wf(),
                    other <= len,
                    is_ear ==> cross(pre_work[prev as int], pre_work[vertex_index as int],
                        pre_work[next as int]) < 0,
                    is_ear ==> forall|o: int|
                        0 <= o < other && o != prev && o != vertex_index && o != next
                            ==> !ear_triangle(pre_work, vertex_index as int).contains_point_spec(
                            #[trigger] pre_work[o],
                        ),
                    !is_ear ==> !is_ear_spec(pre_work, vertex_index as int),
                decreases len - other,
            {
                if is_ear && other != prev && other != vertex_index && other != next {
                    if triangle.contains_point(work[other]) {
                        proof {
                            assert(!is_ear_spec(pre_work, vertex_index as int));
                        }
                        is_ear = false;
                    }
                }
                other = other + 1;
            }
            proof {
                assert(is_ear == is_ear_spec(pre_work, vertex_index as int));
            }
            if is_ear {
                proof {
                    lemma_first_ear_skip(pre_work, vertex_index as int);
                    assert(first_ear_from(pre_work, 0) == vertex_index as int);
                }
                triangles.push(triangle);
                work.remove(vertex_index);
                proof {
                    assert(work@ == pre_work.remove(vertex_index as int));
                    assert forall|k: int| 0 <= k < work@.len() implies vertices@.contains(
                        #[trigger] work@[k],
                    ) by {
                        if k < vertex_index {
                            assert(work@[k] == pre_work[k]);
                        } else {
                            assert(work@[k] == pre_work[k + 1]);
                        }
                    }
                    assert forall|k: int| 0 <= k < work@.len() implies (
                    #[trigger] work@[k]).in_range() by {
                        if k < vertex_index {
                            assert(work@[k] == pre_work[k]);
                        } else {
                            assert(work@[k] == pre_work[k + 1]);
                        }
                    }
                    // one unfolding of the clip sequence at the found ear
                    if clip_rec(pre_work) is Some {
                        assert(clip_rec(pre_work).unwrap() == seq![
                            ear_triangle(pre_work, vertex_index as int),
                        ] + clip_rec(work@).unwrap());
                        assert(pre_triangles + clip_rec(pre_work).unwrap() =~= triangles@
                            + clip_rec(work@).unwrap());
                    }
                }
                clipped = true;
            } else {
                vertex_index = vertex_index + 1;
            }
        }
        if !clipped {
            // a scan over every vertex found no ear: the polygon is
            // degenerate for this method, so give nothing back
            proof {
                lemma_first_ear_skip(pre_work, pre_work.len() as int);
                assert(first_ear_from(pre_work, 0) == pre_work.len());
                assert(clip_rec(pre_work) is None);
            }
            return Vec::new();
        }
    }
    proof {
        assert(clip_rec(work@) == Some(
            seq![Triangle2 { a: work@[0], b: work@[1], c: work@[2] }],
        ));
    }
    let last = Triangle2 { a: work[0], b: work[1], c: work[2] };
    triangles.push(last);
    proof {
        assert(triangles@ =~= ear_clip_spec(vertices@));
    }
    triangles
}

/// A plain element-by-element copy of the vertex vector.
fn clone_points(vertices: &Vec<Vec2>) -> (r: Vec<Vec2>)
    ensures
        r@ == vertices@,
{
    let mut out: Vec<Vec2> = Vec::new();
    let mut i: usize = 0;
    while i < vertices.len()
        invariant
            i <= vertices@.len(),
            out@ == vertices@.take(i as int),
        decreases vertices@.len() - i,
    {
        proof {
            assert(vertices@.take(i as int).push(vertices@[i as int]) =~= vertices@.take(
                i as int + 1,
            ));
        }
        out.push(vertices[i]);
        i = i + 1;
    }
    proof {
        assert(vertices@.take(vertices@.len() as int) =~= vertices@);
    }
    out
}

} // verus!
