use vstd::prelude::*;
use crate::id::ShapeId;

verus! {

// Geometry as the world stores, copies and records it. Every real-valued
// coordinate is held as its IEEE-754 single precision bit pattern
// (`f32::to_bits`): the code here only moves these values around and writes
// them to the wire, which carries exactly these bits. The arithmetic on them
// lives with the solver, outside this library.

/// Most vertices a convex polygon may have.
pub const MAX_POLYGON_VERTICES: usize = 8;

/// A 2D vector.
#[derive(Clone, Copy, Debug, PartialEq, Eq, Structural)]
pub struct Vec2 {
    pub x: u32,
    pub y: u32,
}

/// A 2D rotation as cosine and sine.
#[derive(Clone, Copy, Debug, PartialEq, Eq, Structural)]
pub struct Rot {
    pub c: u32,
    pub s: u32,
}

/// A 2D rigid transform.
#[derive(Clone, Copy, Debug, PartialEq, Eq, Structural)]
pub struct Transform {
    pub p: Vec2,
    pub q: Rot,
}

/// A world position; single precision in this build.
pub type Pos = Vec2;

/// A world transform; the same as a transform in this build.
pub type WorldTransform = Transform;

/// A 2-by-2 matrix stored as columns.
#[derive(Clone, Copy, Debug, PartialEq, Eq, Structural)]
pub struct Mat22 {
    pub cx: Vec2,
    pub cy: Vec2,
}

/// Axis-aligned bounding box.
#[derive(Clone, Copy, Debug, PartialEq, Eq, Structural)]
pub struct Aabb {
    pub lower_bound: Vec2,
    pub upper_bound: Vec2,
}

/// A plane: separation = dot(normal, point) - offset.
#[derive(Clone, Copy, Debug, PartialEq, Eq, Structural)]
pub struct Plane {
    pub normal: Vec2,
    pub offset: u32,
}

/// A solid circle.
#[derive(Clone, Copy, Debug, PartialEq, Eq, Structural)]
pub struct Circle {
    pub center: Vec2,
    pub radius: u32,
}

/// A solid capsule: two semicircles joined by a rectangle.
#[derive(Clone, Copy, Debug, PartialEq, Eq, Structural)]
pub struct Capsule {
    pub center1: Vec2,
    pub center2: Vec2,
    pub radius: u32,
}

/// A line segment with two-sided collision.
#[derive(Clone, Copy, Debug, PartialEq, Eq, Structural)]
pub struct Segment {
    pub point1: Vec2,
    pub point2: Vec2,
}

/// A solid convex polygon, possibly rounded.
#[derive(Clone, Copy, Debug)]
pub struct Polygon {
    pub vertices: [Vec2; 8],
    pub normals: [Vec2; 8],
    pub centroid: Vec2,
    pub radius: u32,
    pub count: i32,
}

/// A segment of a chain, with the neighbouring vertices that smooth its
/// collision.
#[derive(Clone, Copy, Debug, PartialEq, Eq, Structural)]
pub struct ChainSegment {
    pub ghost1: Vec2,
    pub segment: Segment,
    pub ghost2: Vec2,
    /// The owning chain's index, or `NULL_INDEX` for a stand-alone segment.
    pub chain_id: i32,
}

/// Mass properties of a shape.
#[derive(Clone, Copy, Debug, PartialEq, Eq, Structural)]
pub struct MassData {
    pub mass: u32,
    pub center: Vec2,
    pub rotational_inertia: u32,
}

/// A convex point cloud with a radius, used by distance and cast queries.
#[derive(Clone, Copy, Debug)]
pub struct ShapeProxy {
    pub points: [Vec2; 8],
    pub count: i32,
    pub radius: u32,
}

/// Result of a world shape cast or mover cast.
#[derive(Clone, Copy, Debug, PartialEq, Eq, Structural)]
pub struct WorldCastOutput {
    pub normal: Vec2,
    pub point: Pos,
    pub fraction: u32,
    pub iterations: i32,
    pub hit: bool,
}

/// Result of a world ray cast.
#[derive(Clone, Copy, Debug, PartialEq, Eq, Structural)]
pub struct RayResult {
    pub shape_id: ShapeId,
    pub point: Pos,
    pub normal: Vec2,
    pub fraction: u32,
    pub node_visits: i32,
    pub leaf_visits: i32,
    pub hit: bool,
}

/// Result of a mover plane query.
#[derive(Clone, Copy, Debug, PartialEq, Eq, Structural)]
pub struct PlaneResult {
    pub plane: Plane,
    pub point: Vec2,
    pub hit: bool,
}

} // verus!
