//! A 2D computational-geometry toolkit over an exact integer grid.
//!
//! Shapes are built from grid points whose coordinates are bounded integers,
//! so every geometric predicate (orientation, containment, collision) is
//! computed exactly. Queries whose mathematical answer is not a grid point
//! (closest points, line intersections, circumcenters) return rational
//! points with an explicit positive denominator.

use vstd::prelude::*;

pub mod aabb;
pub mod arith;
pub mod circle;
pub mod collision;
pub mod ear_clip;
pub mod line;
pub mod line_ray;
pub mod line_segment;
pub mod polyline;
pub mod rat;
pub mod simplify;
pub mod sortable;
pub mod triangle;
pub mod triangulate;
pub mod vec2;
pub mod vertex_list;

verus! {

/// Largest coordinate magnitude a grid point may carry. The bound keeps
/// every polynomial the library evaluates (degree six in the coordinates,
/// with small constant factors) well inside `i128`.
pub const COORD_LIMIT: i64 = 16384;

} // verus!
