use bodge::aabb::Aabb;
use bodge::circle::Circle;
use bodge::collision::Colliding;
use bodge::line::Line2;
use bodge::line_ray::LineRay2;
use bodge::line_segment::LineSegment2;
use bodge::polyline::Polyline;
use bodge::triangle::Triangle2;
use bodge::vec2::Vec2;
use bodge::vertex_list::VertexList2;

#[test]
fn circle_contains_point() {
    let circle = Circle::new(Vec2::new(10, 10), 10);
    assert!(circle.contains_point(Vec2::new(15, 10)));
    assert!(!circle.contains_point(Vec2::new(16, 10)));
}

#[test]
fn circle_contains_its_center() {
    let circle = Circle::new(Vec2::new(-3, 7), 1);
    assert!(circle.contains_point(Vec2::new(-3, 7)));
}

#[test]
fn circle_closest_point_inside_is_identity() {
    let circle = Circle::new(Vec2::new(0, 0), 10);
    let q = circle.closest_point(Vec2::new(2, 1));
    assert!(q.equals_ratio(2, 1, 1, 1));
}

#[test]
fn circle_closest_point_outside_lands_on_boundary() {
    // the closest point to (10, 0) from a circle of effective radius 5
    // about the origin is exactly (5, 0)
    let circle = Circle::new(Vec2::new(0, 0), 10);
    let q = circle.closest_point(Vec2::new(10, 0));
    assert!(q.equals_ratio(5, 1, 0, 1));
}

#[test]
fn aabb_closest_point_clamps() {
    let b = Aabb::new(Vec2::new(0, 0), Vec2::new(10, 4));
    let q = b.closest_point(Vec2::new(9, 1));
    assert!(q.equals_ratio(5, 1, 1, 1));
    assert!(b.contains_point(Vec2::new(2, 1)));
    assert!(!b.contains_point(Vec2::new(6, 0)));
    let inside = b.closest_point(Vec2::new(2, 1));
    assert!(inside.equals_ratio(2, 1, 1, 1));
}

#[test]
fn line_axes_and_coordinates() {
    // x + y = 4
    let line = Line2::new(1, 1, 4);
    let x = line.x(1).unwrap();
    assert!(x.num == 3 && x.den == 1);
    let y = line.y(3).unwrap();
    assert!(y.num == 1 && y.den == 1);
    let horizontal = Line2::new(0, 1, 2);
    assert!(horizontal.x(1).is_none());
}

#[test]
fn line_intersection() {
    // x = 2 meets y = 3
    let v = Line2::new(1, 0, 2);
    let h = Line2::new(0, 1, 3);
    let q = v.intersection_point(h).unwrap();
    assert!(q.equals_ratio(2, 1, 3, 1));
    // parallel lines give nothing
    let v2 = Line2::new(1, 0, 5);
    assert!(v.intersection_point(v2).is_none());
}

#[test]
fn line_round_trip_through_its_points() {
    let p1 = Vec2::new(3, 4);
    let p2 = Vec2::new(9, -2);
    let line = Line2::new_from_points(p1, p2);
    let back = line.closest_point(p1);
    assert!(back.equals_ratio(3, 1, 4, 1));
    let back2 = line.closest_point(p2);
    assert!(back2.equals_ratio(9, 1, -2, 1));
}

#[test]
fn segment_closest_point_cases() {
    let seg = LineSegment2::new(Vec2::new(0, 0), Vec2::new(10, 0));
    // interior projection
    let q = seg.closest_point(Vec2::new(5, 3));
    assert!(q.equals_ratio(5, 1, 0, 1));
    // clamped to the start
    let qs = seg.closest_point(Vec2::new(-4, 2));
    assert!(qs.equals_ratio(0, 1, 0, 1));
    // clamped to the end
    let qe = seg.closest_point(Vec2::new(14, -2));
    assert!(qe.equals_ratio(10, 1, 0, 1));
    // degenerate segment
    let point_seg = LineSegment2::new(Vec2::new(2, 2), Vec2::new(2, 2));
    let qd = point_seg.closest_point(Vec2::new(7, 7));
    assert!(qd.equals_ratio(2, 1, 2, 1));
}

#[test]
fn segment_length_and_center() {
    let seg = LineSegment2::new(Vec2::new(0, 0), Vec2::new(3, 4));
    assert_eq!(seg.length_squared(), 25);
    assert_eq!(seg.length(), 5);
    let c = seg.center();
    assert!(c.xn == 3 && c.yn == 4 && c.d == 2);
    let diag = LineSegment2::new(Vec2::new(0, 0), Vec2::new(1, 1));
    assert_eq!(diag.length(), 1);
}

#[test]
fn segment_is_same_ignores_direction() {
    let a = LineSegment2::new(Vec2::new(0, 0), Vec2::new(5, 5));
    let b = LineSegment2::new(Vec2::new(5, 5), Vec2::new(0, 0));
    let c = LineSegment2::new(Vec2::new(0, 0), Vec2::new(5, 4));
    assert!(a.is_same(b));
    assert!(a.is_same(a));
    assert!(!a.is_same(c));
}

#[test]
fn ray_closest_point_never_behind_start() {
    let ray = LineRay2::new(Vec2::new(0, 0), Vec2::new(1, 0));
    let ahead = ray.closest_point(Vec2::new(5, 2));
    assert!(ahead.equals_ratio(5, 1, 0, 1));
    let behind = ray.closest_point(Vec2::new(-5, 2));
    assert!(behind.equals_ratio(0, 1, 0, 1));
    let seg = ray.segment(7);
    assert_eq!(seg.end, Vec2::new(7, 0));
}

#[test]
fn collision_scenarios() {
    // a vertical segment crossing a horizontal one
    let horizontal = LineSegment2::new(Vec2::new(0, 0), Vec2::new(10, 0));
    let crossing = LineSegment2::new(Vec2::new(5, -5), Vec2::new(5, 5));
    assert!(horizontal.colliding(&crossing));
    let above = LineSegment2::new(Vec2::new(5, 1), Vec2::new(5, 5));
    assert!(!horizontal.colliding(&above));
}

#[test]
fn collision_is_symmetric() {
    let c1 = Circle::new(Vec2::new(0, 0), 10);
    let c2 = Circle::new(Vec2::new(7, 0), 6);
    assert_eq!(c1.colliding(&c2), c2.colliding(&c1));
    let seg = LineSegment2::new(Vec2::new(-4, 2), Vec2::new(4, 2));
    assert_eq!(c1.colliding(&seg), seg.colliding(&c1));
    let other = LineSegment2::new(Vec2::new(0, -3), Vec2::new(0, 3));
    assert_eq!(seg.colliding(&other), other.colliding(&seg));
    let far = LineSegment2::new(Vec2::new(100, 100), Vec2::new(101, 100));
    assert_eq!(seg.colliding(&far), far.colliding(&seg));
    assert!(!seg.colliding(&far));
}

#[test]
fn circle_segment_collision() {
    let c = Circle::new(Vec2::new(0, 0), 10);
    let near = LineSegment2::new(Vec2::new(-10, 4), Vec2::new(10, 4));
    assert!(c.colliding(&near));
    let tangent = LineSegment2::new(Vec2::new(-10, 5), Vec2::new(10, 5));
    assert!(!c.colliding(&tangent));
}

#[test]
fn right_triangle_circumcenter_and_centroid() {
    let t = Triangle2::new(Vec2::new(0, 0), Vec2::new(4, 0), Vec2::new(0, 3));
    let cc = t.circumcenter().unwrap();
    assert!(cc.equals_ratio(2, 1, 3, 2));
    let g = t.centroid().unwrap();
    assert!(g.equals_ratio(4, 3, 1, 1));
}

#[test]
fn degenerate_triangle_has_no_circumcenter() {
    let t = Triangle2::new(Vec2::new(0, 0), Vec2::new(2, 2), Vec2::new(5, 5));
    assert!(t.circumcenter().is_none());
    assert!(t.circumcircle().is_none());
    assert!(t.centroid().is_none());
}

#[test]
fn triangle_contains_point() {
    let t = Triangle2::new(Vec2::new(0, 0), Vec2::new(10, 0), Vec2::new(0, 10));
    assert!(t.contains_point(Vec2::new(2, 2)));
    assert!(t.contains_point(Vec2::new(5, 0)));
    assert!(!t.contains_point(Vec2::new(8, 8)));
}

#[test]
fn triangle_winding_and_edges() {
    let ccw = Triangle2::new(Vec2::new(0, 0), Vec2::new(0, 4), Vec2::new(4, 0));
    assert!(!ccw.is_clockwise());
    let cw = Triangle2::new(Vec2::new(0, 0), Vec2::new(4, 0), Vec2::new(0, 4));
    assert!(cw.is_clockwise());
    let edges = cw.edges();
    assert_eq!(edges[0].start, Vec2::new(0, 0));
    assert_eq!(edges[1].start, Vec2::new(4, 0));
    assert_eq!(edges[2].end, Vec2::new(0, 0));
}

#[test]
fn triangle_circumcircle_contains() {
    let t = Triangle2::new(Vec2::new(0, 0), Vec2::new(4, 0), Vec2::new(0, 4));
    let cc = t.circumcircle().unwrap();
    assert!(cc.contains_point(Vec2::new(2, 2)));
    assert!(cc.contains_point(Vec2::new(4, 0)));
    assert!(!cc.contains_point(Vec2::new(5, 5)));
}

#[test]
fn triangle_setters_and_scale() {
    let mut t = Triangle2::new(Vec2::new(0, 0), Vec2::new(1, 0), Vec2::new(0, 1));
    t.set_a(Vec2::new(0, 0));
    t.set_b(Vec2::new(3, 0));
    t.set_c(Vec2::new(0, 3));
    assert_eq!(t.a(), Vec2::new(0, 0));
    assert_eq!(t.b(), Vec2::new(3, 0));
    assert_eq!(t.c(), Vec2::new(0, 3));
    // doubling about the centroid (1, 1)
    let doubled = t.scaled(2, 1);
    assert_eq!(doubled.a(), Vec2::new(-1, -1));
    assert_eq!(doubled.b(), Vec2::new(5, -1));
    assert_eq!(doubled.c(), Vec2::new(-1, 5));
}

#[test]
fn polyline_closest_point() {
    let chain = Polyline(vec![Vec2::new(0, 0), Vec2::new(10, 0), Vec2::new(10, 10)]);
    let q = chain.closest_point(Vec2::new(3, 4));
    assert!(q.equals_ratio(3, 1, 0, 1));
    let q2 = chain.closest_point(Vec2::new(14, 9));
    assert!(q2.equals_ratio(10, 1, 9, 1));
    let lone = Polyline(vec![Vec2::new(2, 5)]);
    let q3 = lone.closest_point(Vec2::new(0, 0));
    assert!(q3.equals_ratio(2, 1, 5, 1));
}

#[test]
fn polyline_line_segments() {
    let chain = Polyline(vec![Vec2::new(0, 0), Vec2::new(1, 0), Vec2::new(2, 0)]);
    let segs = chain.line_segments();
    assert_eq!(segs.len(), 2);
    assert_eq!(segs[0].start, Vec2::new(0, 0));
    assert_eq!(segs[1].end, Vec2::new(2, 0));
    assert_eq!(Polyline::new().line_segments().len(), 0);
}

#[test]
fn vertex_list_orientation() {
    // the library's convention: positive shoelace area counts as clockwise
    let mut square = VertexList2(vec![
        Vec2::new(0, 0),
        Vec2::new(10, 0),
        Vec2::new(10, 10),
        Vec2::new(0, 10),
    ]);
    assert!(square.is_clockwise());
    square.make_counterclockwise();
    assert!(!square.is_clockwise());
    assert_eq!(square.0[0], Vec2::new(0, 10));
    square.make_counterclockwise();
    assert!(!square.is_clockwise());
    square.make_clockwise();
    assert!(square.is_clockwise());
}

#[test]
fn vertex_list_simple_polygon() {
    let square = VertexList2(vec![
        Vec2::new(0, 0),
        Vec2::new(10, 0),
        Vec2::new(10, 10),
        Vec2::new(0, 10),
    ]);
    assert!(square.is_simple_polygon());
    let bowtie = VertexList2(vec![
        Vec2::new(0, 0),
        Vec2::new(10, 10),
        Vec2::new(10, 0),
        Vec2::new(0, 10),
    ]);
    assert!(!bowtie.is_simple_polygon());
}

#[test]
fn vertex_list_edges_wrap() {
    let tri = VertexList2(vec![Vec2::new(0, 0), Vec2::new(4, 0), Vec2::new(0, 4)]);
    let edges = tri.edges();
    assert_eq!(edges.len(), 3);
    assert_eq!(edges[2].start, Vec2::new(0, 4));
    assert_eq!(edges[2].end, Vec2::new(0, 0));
}
