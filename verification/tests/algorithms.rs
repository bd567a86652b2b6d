use bodge::ear_clip::triangulate_ear_clipping;
use bodge::simplify::simplify_greedy;
use bodge::simplify::simplify_recursive;
use bodge::triangle::Triangle2;
use bodge::triangulate::triangulate_incremental;
use bodge::vec2::Vec2;

fn triangle_has_vertex(t: &Triangle2, v: Vec2) -> bool {
    t.a == v || t.b == v || t.c == v
}

fn all_corners_in(triangles: &[Triangle2], points: &[Vec2]) -> bool {
    triangles.iter().all(|t| {
        points.contains(&t.a) && points.contains(&t.b) && points.contains(&t.c)
    })
}

fn every_point_used(triangles: &[Triangle2], points: &[Vec2]) -> bool {
    points.iter().all(|p| triangles.iter().any(|t| triangle_has_vertex(t, *p)))
}

#[test]
fn incremental_triangulation_of_a_square() {
    let points = vec![
        Vec2::new(0, 0),
        Vec2::new(100, 0),
        Vec2::new(100, 100),
        Vec2::new(0, 100),
    ];
    let triangles = triangulate_incremental(&points);
    assert_eq!(triangles.len(), 2);
    assert!(all_corners_in(&triangles, &points));
    assert!(every_point_used(&triangles, &points));
}

#[test]
fn incremental_triangulation_of_a_triangle() {
    let points = vec![Vec2::new(0, 0), Vec2::new(40, 0), Vec2::new(0, 30)];
    let triangles = triangulate_incremental(&points);
    assert_eq!(triangles.len(), 1);
    assert!(all_corners_in(&triangles, &points));
    assert!(every_point_used(&triangles, &points));
}

#[test]
fn incremental_triangulation_of_nothing() {
    let triangles = triangulate_incremental(&Vec::new());
    assert!(triangles.is_empty());
}

#[test]
fn ear_clipping_square() {
    let points = vec![
        Vec2::new(0, 0),
        Vec2::new(10, 0),
        Vec2::new(10, 10),
        Vec2::new(0, 10),
    ];
    let triangles = triangulate_ear_clipping(&points);
    assert_eq!(triangles.len(), 2);
    assert!(all_corners_in(&triangles, &points));
    assert!(every_point_used(&triangles, &points));
}

#[test]
fn ear_clipping_concave_polygon() {
    // an arrowhead: one reflex vertex
    let points = vec![
        Vec2::new(0, 0),
        Vec2::new(10, 0),
        Vec2::new(10, 10),
        Vec2::new(4, 3),
        Vec2::new(0, 10),
    ];
    let triangles = triangulate_ear_clipping(&points);
    assert_eq!(triangles.len(), 3);
    assert!(all_corners_in(&triangles, &points));
    assert!(every_point_used(&triangles, &points));
}

#[test]
fn ear_clipping_rejects_degenerate_input() {
    let two = vec![Vec2::new(0, 0), Vec2::new(1, 0)];
    assert!(triangulate_ear_clipping(&two).is_empty());
    let bowtie = vec![
        Vec2::new(0, 0),
        Vec2::new(10, 10),
        Vec2::new(10, 0),
        Vec2::new(0, 10),
    ];
    assert!(triangulate_ear_clipping(&bowtie).is_empty());
}

#[test]
fn ear_clipping_collinear_boundary_finds_no_ear() {
    // four collinear vertices pass the pairwise simplicity test (the
    // strict orientation test sees no crossing), but no corner is
    // strictly convex, so the scan aborts with nothing
    let flat = vec![
        Vec2::new(0, 0),
        Vec2::new(1, 0),
        Vec2::new(2, 0),
        Vec2::new(3, 0),
    ];
    assert!(triangulate_ear_clipping(&flat).is_empty());
}

#[test]
fn greedy_simplification_keeps_far_vertices() {
    // the second vertex lies just beyond the tolerance from the first,
    // so the greedy scan keeps every vertex of this chain
    let chain = vec![
        Vec2::new(0, 0),
        Vec2::new(10, 1),
        Vec2::new(20, -1),
        Vec2::new(30, 0),
    ];
    let out = simplify_greedy(&chain, 10);
    assert_eq!(out.0, chain);
}

#[test]
fn greedy_simplification_drops_near_vertices() {
    let chain = vec![
        Vec2::new(0, 0),
        Vec2::new(3, 0),
        Vec2::new(6, 0),
        Vec2::new(30, 0),
    ];
    let out = simplify_greedy(&chain, 10);
    assert_eq!(out.0, vec![Vec2::new(0, 0), Vec2::new(30, 0)]);
}

#[test]
fn greedy_simplification_is_idempotent() {
    let chain = vec![
        Vec2::new(0, 0),
        Vec2::new(3, 0),
        Vec2::new(14, 0),
        Vec2::new(17, 2),
        Vec2::new(30, 0),
    ];
    let once = simplify_greedy(&chain, 10);
    let twice = simplify_greedy(&once.0, 10);
    assert_eq!(once.0, twice.0);
}

#[test]
fn recursive_simplification_collapses_within_tolerance() {
    // a shallow wiggle flattens to its two anchors
    let chain = vec![
        Vec2::new(0, 0),
        Vec2::new(10, 1),
        Vec2::new(20, -1),
        Vec2::new(30, 0),
    ];
    let out = simplify_recursive(&chain, 10);
    assert_eq!(out.0, vec![Vec2::new(0, 0), Vec2::new(30, 0)]);
}

#[test]
fn recursive_simplification_splits_at_the_worst_vertex() {
    let chain = vec![
        Vec2::new(0, 0),
        Vec2::new(10, 40),
        Vec2::new(20, 0),
    ];
    let out = simplify_recursive(&chain, 10);
    assert_eq!(out.0, chain);
}

#[test]
fn recursive_simplification_is_idempotent() {
    let chain = vec![
        Vec2::new(0, 0),
        Vec2::new(5, 30),
        Vec2::new(10, 1),
        Vec2::new(20, -1),
        Vec2::new(25, -40),
        Vec2::new(30, 0),
    ];
    let once = simplify_recursive(&chain, 10);
    let twice = simplify_recursive(&once.0, 10);
    assert_eq!(once.0, twice.0);
}

#[test]
fn simplification_keeps_endpoints() {
    let chain = vec![
        Vec2::new(7, 3),
        Vec2::new(9, 3),
        Vec2::new(11, 4),
        Vec2::new(13, 3),
    ];
    let greedy = simplify_greedy(&chain, 100);
    assert_eq!(greedy.0.first(), chain.first());
    assert_eq!(greedy.0.last(), chain.last());
    let recursive = simplify_recursive(&chain, 100);
    assert_eq!(recursive.0.first(), chain.first());
    assert_eq!(recursive.0.last(), chain.last());
}

#[test]
fn simplification_of_tiny_chains() {
    assert!(simplify_greedy(&Vec::new(), 5).0.is_empty());
    assert!(simplify_recursive(&Vec::new(), 5).0.is_empty());
    let single = vec![Vec2::new(1, 2)];
    assert_eq!(simplify_greedy(&single, 5).0, single);
    assert_eq!(simplify_recursive(&single, 5).0, single);
}
