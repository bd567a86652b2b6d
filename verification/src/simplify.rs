//! Polyline simplification: two interchangeable reduction strategies.

use vstd::prelude::*;

use crate::arith::lemma_mul_bound;
use crate::line_segment::seg_dist_den;
use crate::line_segment::seg_dist_num;
use crate::line_segment::LineSegment2;
use crate::polyline::Polyline;
use crate::vec2::all_in_range;
use crate::vec2::dist_sq;
use crate::vec2::dist_sq_exec;
use crate::vec2::Vec2;

verus! {

/// The tail of the greedy scan: starting at index `i` with `last` the
/// most recently kept vertex, keep each vertex farther than the
/// tolerance from `last` — and always the final vertex — and drop the
/// rest.
pub open spec fn greedy_rec(vs: Seq<Vec2>, tol: int, last: Vec2, i: int) -> Seq<Vec2>
    decreases vs.len() - i,
{
    if i < 0 || i >= vs.len() {
        Seq::empty()
    } else if dist_sq(last, vs[i]) > tol * tol || i == vs.len() - 1 {
        seq![vs[i]] + greedy_rec(vs, tol, vs[i], i + 1)
    } else {
        greedy_rec(vs, tol, last, i + 1)
    }
}

/// The greedy distance-threshold simplification: the first vertex is
/// always kept, then the scan above runs over the rest.
pub open spec fn greedy_spec(vs: Seq<Vec2>, tol: int) -> Seq<Vec2> {
    if vs.len() == 0 {
        Seq::empty()
    } else {
        seq![vs[0]] + greedy_rec(vs, tol, vs[0], 1)
    }
}

/// Greedy distance-threshold reduction of an open chain: keep the first
/// vertex, every vertex farther than `tolerance` from the last kept one,
/// and the final vertex.
pub fn simplify_greedy(vertices: &Vec<Vec2>, tolerance: i64) -> (r: Polyline)
    requires
        all_in_range(vertices@),
        tolerance >= 0,
    ensures
        r.wf(),
        r.0@ == greedy_spec(vertices@, tolerance as int),
        r.0@.len() > 0 ==> vertices@.len() > 0 && r.0@[0] == vertices@[0] && r.0@.last()
            == vertices@[vertices@.len() - 1],
{
    let n = vertices.len();
    let mut out: Vec<Vec2> = Vec::new();
    if n == 0 {
        return Polyline(out);
    }
    proof {
        lemma_greedy_endpoints(vertices@, tolerance as int);
    }
    out.push(vertices[0]);
    let mut last = vertices[0];
    let mut i: usize = 1;
    while i < n
        invariant
            n == vertices@.len(),
            n > 0,
            all_in_range(vertices@),
            1 <= i <= n,
            out@.len() > 0,
            all_in_range(out@),
            out@[out@.len() - 1] == last,
            greedy_spec(vertices@, tolerance as int) == out@ + greedy_rec(
                vertices@,
                tolerance as int,
                last,
                i as int,
            ),
        decreases n - i,
    {
        proof {
            lemma_mul_bound(tolerance as int, tolerance as int, 0x8000_0000_0000_0000, 0x8000_0000_0000_0000);
        }
        let d = dist_sq_exec(last, vertices[i]);
        if d > tolerance as i128 * tolerance as i128 || i == n - 1 {
            out.push(vertices[i]);
            last = vertices[i];
        }
        i = i + 1;
    }
    Polyline(out)
}

/// The scan's tail always ends with the chain's final vertex, begins
/// with a vertex beyond the tolerance whenever it keeps more than one,
/// and every kept pair except possibly the closing one is farther apart
/// than the tolerance.
pub proof fn lemma_greedy_rec_shape(vs: Seq<Vec2>, tol: int, last: Vec2, i: int)
    requires
        0 <= i < vs.len(),
    ensures
        greedy_rec(vs, tol, last, i).len() >= 1,
        greedy_rec(vs, tol, last, i).last() == vs[vs.len() - 1],
        greedy_rec(vs, tol, last, i).len() >= 2 ==> dist_sq(last, greedy_rec(vs, tol, last, i)[0])
            > tol * tol,
        forall|k: int|
            0 <= k < greedy_rec(vs, tol, last, i).len() - 2 ==> dist_sq(
                #[trigger] greedy_rec(vs, tol, last, i)[k],
                greedy_rec(vs, tol, last, i)[k + 1],
            ) > tol * tol,
    decreases vs.len() - i,
{
    let h = greedy_rec(vs, tol, last, i);
    if dist_sq(last, vs[i]) > tol * tol || i == vs.len() - 1 {
        if i == vs.len() - 1 {
            assert(greedy_rec(vs, tol, vs[i], i + 1) =~= Seq::<Vec2>::empty());
            assert(h =~= seq![vs[i]]);
        } else {
            lemma_greedy_rec_shape(vs, tol, vs[i], i + 1);
            let h2 = greedy_rec(vs, tol, vs[i], i + 1);
            assert(h == seq![vs[i]] + h2);
            assert(h.last() == h2.last());
            assert forall|k: int| 0 <= k < h.len() - 2 implies dist_sq(
                #[trigger] h[k],
                h[k + 1],
            ) > tol * tol by {
                if k == 0 {
                    assert(h[0] == vs[i] && h[1] == h2[0]);
                } else {
                    assert(h[k] == h2[k - 1] && h[k + 1] == h2[k]);
                }
            }
        }
    } else {
        lemma_greedy_rec_shape(vs, tol, last, i + 1);
    }
}

/// The simplified chain keeps the input chain's first and last vertices.
pub proof fn lemma_greedy_endpoints(vs: Seq<Vec2>, tol: int)
    requires
        vs.len() > 0,
    ensures
        greedy_spec(vs, tol).len() > 0,
        greedy_spec(vs, tol)[0] == vs[0],
        greedy_spec(vs, tol).last() == vs[vs.len() - 1],
{
    if vs.len() == 1 {
        assert(greedy_spec(vs, tol) =~= seq![vs[0]]);
    } else {
        lemma_greedy_rec_shape(vs, tol, vs[0], 1);
    }
}

/// On a chain whose kept pairs (except possibly the closing one) are
/// already beyond the tolerance, the scan keeps everything.
proof fn lemma_greedy_rec_saturated(w: Seq<Vec2>, tol: int, j: int)
    requires
        1 <= j < w.len(),
        forall|k: int| 0 <= k < w.len() - 2 ==> dist_sq(#[trigger] w[k], w[k + 1]) > tol * tol,
    ensures
        greedy_rec(w, tol, w[j - 1], j) == w.skip(j),
    decreases w.len() - j,
{
    if j == w.len() - 1 {
        assert(greedy_rec(w, tol, w[j], j + 1) =~= Seq::<Vec2>::empty());
        assert(greedy_rec(w, tol, w[j - 1], j) =~= w.skip(j));
    } else {
        assert(dist_sq(w[j - 1], w[j]) > tol * tol);
        lemma_greedy_rec_saturated(w, tol, j + 1);
        assert(seq![w[j]] + w.skip(j + 1) =~= w.skip(j));
    }
}

/// Simplifying an already-simplified chain with the same tolerance
/// changes nothing.
pub proof fn lemma_greedy_idempotent(vs: Seq<Vec2>, tol: int)
    ensures
        greedy_spec(greedy_spec(vs, tol), tol) == greedy_spec(vs, tol),
{
    let g = greedy_spec(vs, tol);
    if vs.len() == 0 {
        assert(g =~= Seq::<Vec2>::empty());
        assert(greedy_spec(g, tol) =~= Seq::<Vec2>::empty());
    } else if vs.len() == 1 {
        assert(g =~= seq![vs[0]]);
        assert(greedy_rec(g, tol, g[0], 1) =~= Seq::<Vec2>::empty());
        assert(greedy_spec(g, tol) =~= g);
    } else {
        lemma_greedy_rec_shape(vs, tol, vs[0], 1);
        let h = greedy_rec(vs, tol, vs[0], 1);
        assert(g == seq![vs[0]] + h);
        // transfer the gap facts from h to g
        assert forall|k: int| 0 <= k < g.len() - 2 implies dist_sq(
            #[trigger] g[k],
            g[k + 1],
        ) > tol * tol by {
            if k == 0 {
                assert(g[0] == vs[0] && g[1] == h[0]);
            } else {
                assert(g[k] == h[k - 1] && g[k + 1] == h[k]);
            }
        }
        if g.len() == 1 {
            assert(greedy_spec(g, tol) =~= g);
        } else {
            lemma_greedy_rec_saturated(g, tol, 1);
            assert(greedy_spec(g, tol) == seq![g[0]] + g.skip(1));
            assert(seq![g[0]] + g.skip(1) =~= g);
        }
    }
}

/// Does the deviation of `v` from the anchor segment `(s, e)` exceed the
/// tolerance? Exact: compares the squared distance ratio against the
/// squared tolerance.
pub open spec fn dp_exceeds(s: Vec2, e: Vec2, v: Vec2, tol: int) -> bool {
    seg_dist_num(s, e, v) > tol * tol * seg_dist_den(s, e, v)
}

/// Whether `vs[i]` deviates strictly more from the anchor than `vs[j]`.
pub open spec fn dp_farther(s: Vec2, e: Vec2, vs: Seq<Vec2>, i: int, j: int) -> bool {
    seg_dist_num(s, e, vs[i]) * seg_dist_den(s, e, vs[j]) > seg_dist_num(s, e, vs[j])
        * seg_dist_den(s, e, vs[i])
}

/// The first index among `[0, k)` of maximum deviation from the anchor.
pub open spec fn dp_furthest(s: Vec2, e: Vec2, vs: Seq<Vec2>, k: int) -> int
    decreases k,
{
    if k <= 1 {
        0
    } else {
        let b = dp_furthest(s, e, vs, k - 1);
        if dp_farther(s, e, vs, k - 1, b) {
            k - 1
        } else {
            b
        }
    }
}

/// The furthest index stays in range.
pub proof fn lemma_dp_furthest_range(s: Vec2, e: Vec2, vs: Seq<Vec2>, k: int)
    requires
        k >= 1,
    ensures
        0 <= dp_furthest(s, e, vs, k) < k,
    decreases k,
{
    if k > 1 {
        lemma_dp_furthest_range(s, e, vs, k - 1);
    }
}

/// Whether `u` deviates strictly less from the anchor than `v`: the
/// value-level form of `dp_farther`.
pub open spec fn dp_dev_lt(s: Vec2, e: Vec2, u: Vec2, v: Vec2) -> bool {
    seg_dist_num(s, e, u) * seg_dist_den(s, e, v) < seg_dist_num(s, e, v) * seg_dist_den(s, e, u)
}

/// The furthest index is a first argmax: every earlier vertex deviates
/// strictly less, and no vertex among the first `k` deviates strictly
/// more.
proof fn lemma_dp_furthest_first(s: Vec2, e: Vec2, vs: Seq<Vec2>, k: int, j: int)
    requires
        1 <= k,
        0 <= j < k,
    ensures
        j < dp_furthest(s, e, vs, k) ==> dp_dev_lt(s, e, vs[j], vs[dp_furthest(s, e, vs, k)]),
        !dp_dev_lt(s, e, vs[dp_furthest(s, e, vs, k)], vs[j]),
    decreases k,
{
    if k == 1 {
    } else {
        let b = dp_furthest(s, e, vs, k - 1);
        lemma_dp_furthest_range(s, e, vs, k - 1);
        lemma_dp_furthest_first(s, e, vs, k - 1, if j < k - 1 {
            j
        } else {
            0
        });
        crate::line_segment::lemma_seg_dist_ratio_signs(s, e, vs[j]);
        crate::line_segment::lemma_seg_dist_ratio_signs(s, e, vs[b]);
        crate::line_segment::lemma_seg_dist_ratio_signs(s, e, vs[k - 1]);
        if dp_farther(s, e, vs, k - 1, b) {
            // the newest vertex takes over
            if j < k - 1 && j != b {
                // the old best bounds j from above, strictly below the
                // newest vertex
                crate::arith::lemma_frac_le_lt_trans(
                    seg_dist_num(s, e, vs[j]),
                    seg_dist_den(s, e, vs[j]),
                    seg_dist_num(s, e, vs[b]),
                    seg_dist_den(s, e, vs[b]),
                    seg_dist_num(s, e, vs[k - 1]),
                    seg_dist_den(s, e, vs[k - 1]),
                );
            }
        }
    }
}

/// Recursive maximum-deviation simplification of the vertices strictly
/// between the anchor endpoints: when the worst deviation exceeds the
/// tolerance the span splits there, else it collapses to the anchor.
pub open spec fn dp_spec(s: Vec2, e: Vec2, vs: Seq<Vec2>, tol: int) -> Seq<Vec2>
    decreases vs.len(),
    via dp_spec_decreases
{
    if vs.len() == 0 {
        seq![s, e]
    } else {
        let f = dp_furthest(s, e, vs, vs.len() as int);
        if dp_exceeds(s, e, vs[f], tol) {
            dp_spec(s, vs[f], vs.take(f), tol) + dp_spec(vs[f], e, vs.skip(f + 1), tol).drop_first()
        } else {
            seq![s, e]
        }
    }
}

#[via_fn]
proof fn dp_spec_decreases(s: Vec2, e: Vec2, vs: Seq<Vec2>, tol: int) {
    if vs.len() > 0 {
        lemma_dp_furthest_range(s, e, vs, vs.len() as int);
    }
}

/// The simplification of a span always runs from one anchor endpoint to
/// the other, and never shrinks below those two vertices.
pub proof fn lemma_dp_shape(s: Vec2, e: Vec2, vs: Seq<Vec2>, tol: int)
    ensures
        dp_spec(s, e, vs, tol).len() >= 2,
        dp_spec(s, e, vs, tol)[0] == s,
        dp_spec(s, e, vs, tol).last() == e,
    decreases vs.len(),
{
    if vs.len() == 0 {
    } else {
        let f = dp_furthest(s, e, vs, vs.len() as int);
        lemma_dp_furthest_range(s, e, vs, vs.len() as int);
        if dp_exceeds(s, e, vs[f], tol) {
            lemma_dp_shape(s, vs[f], vs.take(f), tol);
            lemma_dp_shape(vs[f], e, vs.skip(f + 1), tol);
        }
    }
}

/// When a position strictly out-deviates everything before it and
/// nothing after it out-deviates it, it is the first argmax.
proof fn lemma_dp_furthest_pivot(s: Vec2, e: Vec2, w: Seq<Vec2>, k: int, pos: int)
    requires
        0 <= pos < k,
        forall|j: int| 0 <= j < pos ==> dp_dev_lt(s, e, #[trigger] w[j], w[pos]),
        forall|j: int| pos < j < k ==> !dp_dev_lt(s, e, w[pos], #[trigger] w[j]),
    ensures
        dp_furthest(s, e, w, k) == pos,
    decreases k,
{
    if k == pos + 1 {
        if pos > 0 {
            let b = dp_furthest(s, e, w, k - 1);
            lemma_dp_furthest_range(s, e, w, k - 1);
            assert(dp_dev_lt(s, e, w[b], w[pos]));
        }
    } else {
        lemma_dp_furthest_pivot(s, e, w, k - 1, pos);
        assert(!dp_dev_lt(s, e, w[pos], w[k - 1]));
    }
}

/// Every interior vertex of a simplified span comes from the span's own
/// vertices.
proof fn lemma_dp_members(s: Vec2, e: Vec2, vs: Seq<Vec2>, tol: int)
    ensures
        forall|i: int|
            0 < i < dp_spec(s, e, vs, tol).len() - 1 ==> vs.contains(
                #[trigger] dp_spec(s, e, vs, tol)[i],
            ),
    decreases vs.len(),
{
    let out = dp_spec(s, e, vs, tol);
    if vs.len() == 0 {
    } else {
        let f = dp_furthest(s, e, vs, vs.len() as int);
        lemma_dp_furthest_range(s, e, vs, vs.len() as int);
        if dp_exceeds(s, e, vs[f], tol) {
            let left = dp_spec(s, vs[f], vs.take(f), tol);
            let right = dp_spec(vs[f], e, vs.skip(f + 1), tol);
            lemma_dp_members(s, vs[f], vs.take(f), tol);
            lemma_dp_members(vs[f], e, vs.skip(f + 1), tol);
            lemma_dp_shape(s, vs[f], vs.take(f), tol);
            lemma_dp_shape(vs[f], e, vs.skip(f + 1), tol);
            assert(out == left + right.drop_first());
            assert forall|i: int| 0 < i < out.len() - 1 implies vs.contains(
                #[trigger] out[i],
            ) by {
                if i < left.len() - 1 {
                    // an interior vertex of the left span
                    assert(out[i] == left[i]);
                    assert(vs.take(f).contains(left[i]));
                    let j = choose|j: int|
                        0 <= j < vs.take(f).len() && #[trigger] vs.take(f)[j] == left[i];
                    assert(vs[j] == left[i]);
                } else if i == left.len() - 1 {
                    // the split vertex itself
                    assert(out[i] == left[left.len() - 1]);
                    assert(out[i] == vs[f]);
                } else {
                    // an interior vertex of the right span
                    let ri = i - left.len() + 1;
                    assert(out[i] == right[ri]);
                    assert(0 < ri < right.len() - 1);
                    assert(vs.skip(f + 1).contains(right[ri]));
                    let j = choose|j: int|
                        0 <= j < vs.skip(f + 1).len() && #[trigger] vs.skip(f + 1)[j] == right[
                            ri
                        ];
                    assert(vs[f + 1 + j] == right[ri]);
                }
            }
        }
    }
}

/// Simplifying an already-simplified span again with the same tolerance
/// changes nothing: re-running the recursion on the kept interior
/// vertices splits at the same places, because the kept split vertex of
/// each span is still its first vertex of maximum deviation.
pub proof fn lemma_dp_idempotent(s: Vec2, e: Vec2, vs: Seq<Vec2>, tol: int)
    ensures
        dp_spec(
            s,
            e,
            dp_spec(s, e, vs, tol).subrange(1, dp_spec(s, e, vs, tol).len() - 1),
            tol,
        ) == dp_spec(s, e, vs, tol),
    decreases vs.len(),
{
    let out = dp_spec(s, e, vs, tol);
    lemma_dp_shape(s, e, vs, tol);
    let w = out.subrange(1, out.len() - 1);
    if vs.len() == 0 {
        assert(w =~= Seq::<Vec2>::empty());
        assert(dp_spec(s, e, w, tol) =~= out);
    } else {
        let f = dp_furthest(s, e, vs, vs.len() as int);
        lemma_dp_furthest_range(s, e, vs, vs.len() as int);
        if !dp_exceeds(s, e, vs[f], tol) {
            assert(w =~= Seq::<Vec2>::empty());
            assert(dp_spec(s, e, w, tol) =~= out);
        } else {
            let fv = vs[f];
            let left = dp_spec(s, fv, vs.take(f), tol);
            let right = dp_spec(fv, e, vs.skip(f + 1), tol);
            lemma_dp_shape(s, fv, vs.take(f), tol);
            lemma_dp_shape(fv, e, vs.skip(f + 1), tol);
            lemma_dp_members(s, fv, vs.take(f), tol);
            lemma_dp_members(fv, e, vs.skip(f + 1), tol);
            assert(out == left + right.drop_first());
            // where the split vertex sits inside the rerun sequence
            let pos = left.len() - 2;
            assert(w[pos] == left[left.len() - 1]);
            assert(w[pos] == fv);
            // everything before it deviates strictly less, everything
            // after no more
            assert forall|j: int| 0 <= j < pos implies dp_dev_lt(
                s,
                e,
                #[trigger] w[j],
                w[pos],
            ) by {
                assert(w[j] == left[j + 1]);
                assert(vs.take(f).contains(left[j + 1]));
                let jj = choose|jj: int|
                    0 <= jj < vs.take(f).len() && #[trigger] vs.take(f)[jj] == left[j + 1];
                assert(vs[jj] == w[j] && jj < f);
                lemma_dp_furthest_first(s, e, vs, vs.len() as int, jj);
            }
            assert forall|j: int| pos < j < w.len() implies !dp_dev_lt(
                s,
                e,
                w[pos],
                #[trigger] w[j],
            ) by {
                let ri = j + 1 - left.len() + 1;
                assert(w[j] == out[j + 1]);
                assert(out[j + 1] == right[ri]);
                assert(0 < ri < right.len() - 1);
                assert(vs.skip(f + 1).contains(right[ri]));
                let jj = choose|jj: int|
                    0 <= jj < vs.skip(f + 1).len() && #[trigger] vs.skip(f + 1)[jj] == right[ri];
                assert(vs[f + 1 + jj] == w[j]);
                lemma_dp_furthest_first(s, e, vs, vs.len() as int, f + 1 + jj);
            }
            // so the rerun splits at the same vertex
            lemma_dp_furthest_pivot(s, e, w, w.len() as int, pos);
            assert(dp_exceeds(s, e, w[pos], tol));
            // and each side reproduces itself by induction
            lemma_dp_idempotent(s, fv, vs.take(f), tol);
            lemma_dp_idempotent(fv, e, vs.skip(f + 1), tol);
            assert(w.take(pos) =~= left.subrange(1, left.len() - 1));
            assert(w.skip(pos + 1) =~= right.subrange(1, right.len() - 1));
            assert(dp_spec(s, e, w, tol) == dp_spec(s, fv, w.take(pos), tol) + dp_spec(
                fv,
                e,
                w.skip(pos + 1),
                tol,
            ).drop_first());
            assert(dp_spec(s, e, w, tol) =~= out);
        }
    }
}

/// One recursive subdivision step of the recursive strategy, on the
/// vertices strictly between the anchor endpoints.
fn dp_subdivide(s: Vec2, e: Vec2, vs: &Vec<Vec2>, tolerance: i64) -> (r: Vec<Vec2>)
    requires
        s.in_range(),
        e.in_range(),
        all_in_range(vs@),
        0 <= tolerance <= 65536,
    ensures
        r@ == dp_spec(s, e, vs@, tolerance as int),
        all_in_range(r@),
    decreases vs@.len(),
{
    let n = vs.len();
    if n == 0 {
        let mut out: Vec<Vec2> = Vec::new();
        out.push(s);
        out.push(e);
        proof {
            assert(out@ =~= seq![s, e]);
        }
        return out;
    }
    let anchor = LineSegment2 { start: s, end: e };
    let (mut bnum, mut bden) = anchor.dist_sq_key(vs[0]);
    let mut fi: usize = 0;
    let mut i: usize = 1;
    while i < n
        invariant
            n == vs@.len(),
            n > 0,
            s.in_range(),
            e.in_range(),
            all_in_range(vs@),
            anchor == (LineSegment2 { start: s, end: e }),
            1 <= i <= n,
            fi == dp_furthest(s, e, vs@, i as int),
            0 <= fi < i,
            bnum == seg_dist_num(s, e, vs@[fi as int]),
            bden == seg_dist_den(s, e, vs@[fi as int]),
            0 <= bnum <= 0x1_0000_0000_0000_0000,
            0 < bden <= 0x1_0000_0000,
        decreases n - i,
    {
        let (num, den) = anchor.dist_sq_key(vs[i]);
        proof {
            lemma_mul_bound(num as int, bden as int, 0x1_0000_0000_0000_0000, 0x1_0000_0000);
            lemma_mul_bound(bnum as int, den as int, 0x1_0000_0000_0000_0000, 0x1_0000_0000);
        }
        if num * bden > bnum * den {
            fi = i;
            bnum = num;
            bden = den;
        }
        i = i + 1;
    }
    proof {
        lemma_mul_bound(tolerance as int, tolerance as int, 65536, 65536);
        lemma_mul_bound(
            (tolerance * tolerance) as int,
            bden as int,
            0x1_0000_0000,
            0x1_0000_0000,
        );
    }
    if bnum > tolerance as i128 * tolerance as i128 * bden {
        // split at the worst vertex and recurse on both sides
        let mut left: Vec<Vec2> = Vec::new();
        let mut k: usize = 0;
        while k < fi
            invariant
                n == vs@.len(),
                fi < n,
                all_in_range(vs@),
                k <= fi,
                left@ == vs@.take(fi as int).take(k as int),
            decreases fi - k,
        {
            proof {
                assert(vs@.take(fi as int).take(k as int).push(vs@[k as int]) =~= vs@.take(
                    fi as int,
                ).take(k as int + 1));
            }
            left.push(vs[k]);
            k = k + 1;
        }
        proof {
            assert(left@ =~= vs@.take(fi as int));
        }
        let mut right: Vec<Vec2> = Vec::new();
        let mut k2: usize = fi + 1;
        while k2 < n
            invariant
                n == vs@.len(),
                fi < n,
                all_in_range(vs@),
                fi + 1 <= k2 <= n,
                right@ == vs@.skip(fi as int + 1).take(k2 as int - fi - 1),
            decreases n - k2,
        {
            proof {
                assert(vs@.skip(fi as int + 1).take(k2 as int - fi - 1).push(vs@[k2 as int]) =~= vs@.skip(
                    fi as int + 1,
                ).take(k2 as int + 1 - fi - 1));
            }
            right.push(vs[k2]);
            k2 = k2 + 1;
        }
        proof {
            assert(right@ =~= vs@.skip(fi as int + 1));
            assert(all_in_range(left@));
            assert(all_in_range(right@));
        }
        let left_part = dp_subdivide(s, vs[fi], &left, tolerance);
        let right_part = dp_subdivide(vs[fi], e, &right, tolerance);
        let mut out = left_part;
        let mut k3: usize = 1;
        proof {
            lemma_dp_shape(vs@[fi as int], e, right@, tolerance as int);
        }
        while k3 < right_part.len()
            invariant
                right_part@.len() >= 2,
                all_in_range(right_part@),
                1 <= k3 <= right_part@.len(),
                out@ == dp_spec(s, vs@[fi as int], vs@.take(fi as int), tolerance as int)
                    + right_part@.drop_first().take(k3 as int - 1),
                all_in_range(out@),
                n == vs@.len(),
                fi < n,
                right_part@ == dp_spec(
                    vs@[fi as int],
                    e,
                    vs@.skip(fi as int + 1),
                    tolerance as int,
                ),
            decreases right_part@.len() - k3,
        {
            proof {
                assert(right_part@.drop_first().take(k3 as int - 1).push(
                    right_part@[k3 as int],
                ) =~= right_part@.drop_first().take(k3 as int));
            }
            out.push(right_part[k3]);
            k3 = k3 + 1;
        }
        proof {
            assert(right_part@.drop_first().take(right_part@.len() - 1) =~= right_part@.drop_first());
        }
        out
    } else {
        let mut out: Vec<Vec2> = Vec::new();
        out.push(s);
        out.push(e);
        proof {
            assert(out@ =~= seq![s, e]);
        }
        out
    }
}

/// Recursive maximum-deviation (split-at-worst) reduction of an open
/// chain: anchored on the first and last vertices, spans whose worst
/// deviation is within tolerance collapse to their anchors.
pub fn simplify_recursive(vertices: &Vec<Vec2>, tolerance: i64) -> (r: Polyline)
    requires
        all_in_range(vertices@),
        0 <= tolerance <= 65536,
    ensures
        r.wf(),
        vertices@.len() == 0 ==> r.0@.len() == 0,
        vertices@.len() == 1 ==> r.0@ == seq![vertices@[0]],
        vertices@.len() >= 2 ==> r.0@ == dp_spec(
            vertices@[0],
            vertices@[vertices@.len() - 1],
            vertices@.subrange(1, vertices@.len() - 1),
            tolerance as int,
        ),
        r.0@.len() > 0 ==> vertices@.len() > 0 && r.0@[0] == vertices@[0] && r.0@.last()
            == vertices@[vertices@.len() - 1],
{
    let n = vertices.len();
    if n == 0 {
        Polyline(Vec::new())
    } else if n == 1 {
        let mut out: Vec<Vec2> = Vec::new();
        out.push(vertices[0]);
        proof {
            assert(out@ =~= seq![vertices@[0]]);
        }
        Polyline(out)
    } else {
        let mut middle: Vec<Vec2> = Vec::new();
        let mut i: usize = 1;
        while i < n - 1
            invariant
                n == vertices@.len(),
                n >= 2,
                all_in_range(vertices@),
                1 <= i <= n - 1,
                middle@ == vertices@.subrange(1, i as int),
            decreases n - i,
        {
            proof {
                assert(vertices@.subrange(1, i as int).push(vertices@[i as int])
                    =~= vertices@.subrange(1, i as int + 1));
            }
            middle.push(vertices[i]);
            i = i + 1;
        }
        let r = dp_subdivide(vertices[0], vertices[n - 1], &middle, tolerance);
        proof {
            lemma_dp_shape(
                vertices@[0],
                vertices@[n - 1],
                vertices@.subrange(1, n as int - 1),
                tolerance as int,
            );
        }
        Polyline(r)
    }
}

} // verus!
