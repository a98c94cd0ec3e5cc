use vstd::prelude::*;
use crate::geometry::{Aabb, Capsule, ChainSegment, Circle, Polygon, Segment, Vec2};
use crate::types::{Filter, QueryFilter, SurfaceMaterial};

verus! {

/// The kind of a shape's geometry.
#[derive(Clone, Copy, Debug, PartialEq, Eq, Structural)]
pub enum ShapeType {
    Circle,
    Capsule,
    Segment,
    Polygon,
    ChainSegment,
}

/// A shape's geometry, one of the primitive kinds.
#[derive(Clone, Copy, Debug)]
pub enum ShapeGeometry {
    Circle(Circle),
    Capsule(Capsule),
    Segment(Segment),
    Polygon(Polygon),
    ChainSegment(ChainSegment),
}

/// The kind of a geometry.
pub open spec fn geometry_type(g: ShapeGeometry) -> ShapeType {
    match g {
        ShapeGeometry::Circle(_) => ShapeType::Circle,
        ShapeGeometry::Capsule(_) => ShapeType::Capsule,
        ShapeGeometry::Segment(_) => ShapeType::Segment,
        ShapeGeometry::Polygon(_) => ShapeType::Polygon,
        ShapeGeometry::ChainSegment(_) => ShapeType::ChainSegment,
    }
}

/// A shape slot of the world: identity, owner, links, material, bounds,
/// filtering, geometry and event switches.
///
/// Real values are held as their IEEE-754 single precision bit patterns.
#[derive(Clone, Copy, Debug)]
pub struct Shape {
    /// Its own index, or `NULL_INDEX` when the slot is free.
    pub id: i32,
    pub body_id: i32,
    pub prev_shape_id: i32,
    pub next_shape_id: i32,
    pub sensor_index: i32,
    pub material: SurfaceMaterial,
    pub density: u32,
    pub aabb_margin: u32,
    pub aabb: Aabb,
    pub fat_aabb: Aabb,
    pub local_centroid: Vec2,
    pub proxy_key: i32,
    pub filter: Filter,
    pub user_data: u64,
    pub geometry: ShapeGeometry,
    pub generation: u16,
    pub enable_sensor_events: bool,
    pub enable_contact_events: bool,
    pub enable_custom_filtering: bool,
    pub enable_hit_events: bool,
    pub enable_pre_solve_events: bool,
    pub enlarged_aabb: bool,
}

impl Shape {
    /// The kind of the shape's geometry.
    pub fn shape_type(&self) -> (t: ShapeType)
        ensures
            t == geometry_type(self.geometry),
    {
        match self.geometry {
            ShapeGeometry::Circle(_) => ShapeType::Circle,
            ShapeGeometry::Capsule(_) => ShapeType::Capsule,
            ShapeGeometry::Segment(_) => ShapeType::Segment,
            ShapeGeometry::Polygon(_) => ShapeType::Polygon,
            ShapeGeometry::ChainSegment(_) => ShapeType::ChainSegment,
        }
    }

    /// The rounding radius of the shape's geometry, as a bit pattern: that of
    /// a circle, capsule or polygon, zero for segments.
    pub fn radius(&self) -> (r: u32)
        ensures
            r == match self.geometry {
                ShapeGeometry::Capsule(c) => c.radius,
                ShapeGeometry::Circle(c) => c.radius,
                ShapeGeometry::Polygon(p) => p.radius,
                _ => 0u32,
            },
    {
        match self.geometry {
            ShapeGeometry::Capsule(capsule) => capsule.radius,
            ShapeGeometry::Circle(circle) => circle.radius,
            ShapeGeometry::Polygon(polygon) => polygon.radius,
            _ => 0,
        }
    }
}

/// A chain: a run of chain-segment shapes owned by one body, with one
/// shared material or one per segment.
#[derive(Debug)]
pub struct ChainShape {
    /// Its own index, or `NULL_INDEX` when the slot is free.
    pub id: i32,
    pub body_id: i32,
    pub next_chain_id: i32,
    pub shape_indices: Vec<i32>,
    pub materials: Vec<SurfaceMaterial>,
    pub generation: u16,
}

/// Whether shapes with these filters may collide: a shared non-zero group
/// decides by its sign, otherwise each category must be in the other's mask.
pub open spec fn shapes_collide(a: Filter, b: Filter) -> bool {
    if a.group_index == b.group_index && a.group_index != 0 {
        a.group_index > 0
    } else {
        (a.mask_bits & b.category_bits) != 0 && (a.category_bits & b.mask_bits) != 0
    }
}

/// Whether a query with this filter may see a shape with that filter.
pub open spec fn query_collides(shape: Filter, query: QueryFilter) -> bool {
    (shape.category_bits & query.mask_bits) != 0 && (shape.mask_bits & query.category_bits) != 0
}

/// Whether two shapes with these filters may collide.
pub fn should_shapes_collide(filter_a: Filter, filter_b: Filter) -> (r: bool)
    ensures
        r == shapes_collide(filter_a, filter_b),
{
    if filter_a.group_index == filter_b.group_index && filter_a.group_index != 0 {
        return filter_a.group_index > 0;
    }
    (filter_a.mask_bits & filter_b.category_bits) != 0 && (filter_a.category_bits
        & filter_b.mask_bits) != 0
}

/// Whether a query with this filter may see a shape with that filter.
pub fn should_query_collide(shape_filter: Filter, query_filter: QueryFilter) -> (r: bool)
    ensures
        r == query_collides(shape_filter, query_filter),
{
    (shape_filter.category_bits & query_filter.mask_bits) != 0 && (shape_filter.mask_bits
        & query_filter.category_bits) != 0
}

/// Collision filtering does not depend on the order of the two shapes.
pub proof fn law_shapes_collide_symmetric(a: Filter, b: Filter)
    ensures
        shapes_collide(a, b) == shapes_collide(b, a),
{
    let (am, ac, bm, bc) = (a.mask_bits, a.category_bits, b.mask_bits, b.category_bits);
    assert((am & bc) == (bc & am)) by (bit_vector);
    assert((ac & bm) == (bm & ac)) by (bit_vector);
}

/// Shapes in the same positive group always collide and in the same
/// negative group never do, whatever their categories and masks.
pub proof fn law_shared_group_decides(a: Filter, b: Filter)
    requires
        a.group_index == b.group_index,
        a.group_index != 0,
    ensures
        shapes_collide(a, b) == (a.group_index > 0),
{
}

/// Unless both shapes share one non-zero group, the group indices play no
/// part, whatever their signs: the shapes collide exactly when each one's
/// mask takes the other's category.
pub proof fn law_groups_apart_masks_decide(a: Filter, b: Filter)
    requires
        a.group_index != b.group_index || a.group_index == 0,
    ensures
        shapes_collide(a, b) == ((a.mask_bits & b.category_bits) != 0 && (a.category_bits & b.mask_bits) != 0),
{
}

/// Two shapes in different groups collide or not regardless of which
/// groups they are in: moving either to another group they do not share
/// leaves the answer unchanged.
pub proof fn law_other_groups_change_nothing(a: Filter, b: Filter, ga: i32, gb: i32)
    requires
        a.group_index != b.group_index || a.group_index == 0,
        ga != gb || ga == 0,
    ensures
        shapes_collide(a, b) == shapes_collide(Filter { group_index: ga, ..a }, Filter { group_index: gb, ..b }),
{
}

/// A query never sees a shape whose category its mask leaves out.
pub proof fn law_query_mask_excludes(shape: Filter, query: QueryFilter)
    requires
        (shape.category_bits & query.mask_bits) == 0,
    ensures
        !query_collides(shape, query),
{
}

/// A query never sees a shape whose mask leaves out the query's category.
pub proof fn law_shape_mask_excludes_query(shape: Filter, query: QueryFilter)
    requires
        (shape.mask_bits & query.category_bits) == 0,
    ensures
        !query_collides(shape, query),
{
}

/// A query sees a shape when each one's mask takes the other's category;
/// the shape's group plays no part.
pub proof fn law_query_sees_when_masks_agree(shape: Filter, query: QueryFilter)
    requires
        (shape.category_bits & query.mask_bits) != 0,
        (shape.mask_bits & query.category_bits) != 0,
    ensures
        query_collides(shape, query),
        query_collides(Filter { group_index: 0, ..shape }, query),
{
}

} // verus!
