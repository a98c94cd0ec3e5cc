use vstd::prelude::*;
use crate::geometry::{Aabb, Capsule, ChainSegment, Circle, Polygon, Segment};
use crate::id::{BodyId, ChainId, ShapeId};
use crate::recording::ops::{
    write_shape_bool, write_shape_f32, write_shape_set_filter, OP_SHAPE_SET_FILTER, write_shape_set_surface_material, write_shape_set_user_material,
    OP_SHAPE_SET_FRICTION, OP_SHAPE_SET_RESTITUTION,
    OP_SHAPE_ENABLE_CONTACT_EVENTS, OP_SHAPE_ENABLE_HIT_EVENTS, OP_SHAPE_ENABLE_PRE_SOLVE_EVENTS,
    OP_SHAPE_ENABLE_SENSOR_EVENTS, OP_SHAPE_SET_SURFACE_MATERIAL, OP_SHAPE_SET_USER_MATERIAL,
};
use crate::sensor::NULL_INDEX;
use crate::shape::{geometry_type, Shape, ShapeGeometry, ShapeType};
use crate::types::{Filter, SurfaceMaterial};
use crate::world::{recorded, World};
use crate::write::{bool_byte, filter_bytes, id64_bytes, material_bytes, u32_bytes, u64_bytes};
use crate::scalar::nonneg_finite_bits;

verus! {

/// Validate a shape id and return the shape's index.
pub fn get_shape_index(world: &World, shape_id: ShapeId) -> (index: i32)
    requires
        world.valid_shape_id(shape_id),
    ensures
        index == shape_id.index1 - 1,
{
    shape_id.index1 - 1
}

/// Whether an id names a live shape: in range, used, and of the slot's
/// current generation.
pub fn shape_is_valid(world: &World, id: ShapeId) -> (r: bool)
    requires
        world.wf(),
        id.index1 != i32::MIN,
    ensures
        r == world.valid_shape_id(id),
{
    let shape_id = id.index1 - 1;
    if shape_id < 0 || world.shapes.len() as i32 <= shape_id {
        return false;
    }
    let shape = world.shapes[shape_id as usize];
    if shape.id == NULL_INDEX {
        return false;
    }
    proof {
        assert(world.shape_slot_ok(world.shapes@[shape_id as int], shape_id as int));
    }
    id.generation == shape.generation
}

/// The id of the body a shape is attached to.
pub fn shape_get_body(world: &World, shape_id: ShapeId) -> (b: BodyId)
    requires
        world.wf(),
        world.valid_shape_id(shape_id),
    ensures
        b == (BodyId {
            index1: (world.shape_of(shape_id).body_id + 1) as i32,
            world0: world.world_id,
            generation: world.bodies@[world.shape_of(shape_id).body_id as int].generation,
        }),
{
    let shape_index = get_shape_index(world, shape_id);
    proof {
        assert(world.shape_slot_ok(world.shapes@[shape_index as int], shape_index as int));
    }
    let body_id = world.shapes[shape_index as usize].body_id;
    BodyId { index1: body_id + 1, world0: world.world_id, generation: world.bodies[body_id as usize].generation }
}

/// Set the user data of a shape.
pub fn shape_set_user_data(world: &mut World, shape_id: ShapeId, user_data: u64)
    requires
        old(world).valid_shape_id(shape_id),
    ensures
        final(world).shapes@ == old(world).shapes@.update(shape_id.index1 - 1, (Shape { user_data: user_data, ..old(world).shape_of(shape_id) })),
        final(world).same_but_shapes(old(world)),
        final(world).recording == old(world).recording,
{
    let shape_index = get_shape_index(world, shape_id);
    let mut shape = world.shapes[shape_index as usize];
    shape.user_data = user_data;
    world.shapes.set(shape_index as usize, shape);
}

/// The user data of a shape.
pub fn shape_get_user_data(world: &World, shape_id: ShapeId) -> (r: u64)
    requires
        world.valid_shape_id(shape_id),
    ensures
        r == world.shape_of(shape_id).user_data,
{
    let shape_index = get_shape_index(world, shape_id);
    world.shapes[shape_index as usize].user_data
}

/// Whether the shape is a sensor.
pub fn shape_is_sensor(world: &World, shape_id: ShapeId) -> (r: bool)
    requires
        world.valid_shape_id(shape_id),
    ensures
        r == (world.shape_of(shape_id).sensor_index != NULL_INDEX),
{
    let shape_index = get_shape_index(world, shape_id);
    world.shapes[shape_index as usize].sensor_index != NULL_INDEX
}

/// Set the user material id of a shape; refused while the world steps.
pub fn shape_set_user_material(world: &mut World, shape_id: ShapeId, material: u64)
    requires
        old(world).valid_shape_id(shape_id),
        !old(world).locked,
    ensures
        final(world).shapes@ == old(world).shapes@.update(shape_id.index1 - 1, (Shape { material: SurfaceMaterial { user_material_id: material, ..old(world).shape_of(shape_id).material }, ..old(world).shape_of(shape_id) })),
        final(world).same_but_shapes(old(world)),
        recorded(old(world).recording, final(world).recording, OP_SHAPE_SET_USER_MATERIAL, id64_bytes(shape_id.index1, shape_id.world0, shape_id.generation) + u64_bytes(material)),
{
    if let Some(mut rec) = world.recording.take() {
        write_shape_set_user_material(&mut rec, shape_id, material);
        world.recording = Some(rec);
    }
    if world.locked {
        return;
    }
    let shape_index = get_shape_index(world, shape_id);
    let mut shape = world.shapes[shape_index as usize];
    shape.material.user_material_id = material;
    world.shapes.set(shape_index as usize, shape);
}

/// The user material id of a shape.
pub fn shape_get_user_material(world: &World, shape_id: ShapeId) -> (r: u64)
    requires
        world.valid_shape_id(shape_id),
    ensures
        r == world.shape_of(shape_id).material.user_material_id,
{
    let shape_index = get_shape_index(world, shape_id);
    world.shapes[shape_index as usize].material.user_material_id
}

/// The surface material of a shape.
pub fn shape_get_surface_material(world: &World, shape_id: ShapeId) -> (r: SurfaceMaterial)
    requires
        world.valid_shape_id(shape_id),
    ensures
        r == world.shape_of(shape_id).material,
{
    let shape_index = get_shape_index(world, shape_id);
    world.shapes[shape_index as usize].material
}

/// Set the surface material of a shape.
pub fn shape_set_surface_material(world: &mut World, shape_id: ShapeId, surface_material: SurfaceMaterial)
    requires
        old(world).valid_shape_id(shape_id),
    ensures
        final(world).shapes@ == old(world).shapes@.update(shape_id.index1 - 1, (Shape { material: surface_material, ..old(world).shape_of(shape_id) })),
        final(world).same_but_shapes(old(world)),
        recorded(old(world).recording, final(world).recording, OP_SHAPE_SET_SURFACE_MATERIAL, id64_bytes(shape_id.index1, shape_id.world0, shape_id.generation) + material_bytes(surface_material)),
{
    if let Some(mut rec) = world.recording.take() {
        write_shape_set_surface_material(&mut rec, shape_id, surface_material);
        world.recording = Some(rec);
    }
    let shape_index = get_shape_index(world, shape_id);
    let mut shape = world.shapes[shape_index as usize];
    shape.material = surface_material;
    world.shapes.set(shape_index as usize, shape);
}

/// Set the friction of a shape, as a bit pattern; refused while the world
/// steps.
pub fn shape_set_friction(world: &mut World, shape_id: ShapeId, friction: u32)
    requires
        old(world).valid_shape_id(shape_id),
        !old(world).locked,
        nonneg_finite_bits(friction),
    ensures
        final(world).shapes@ == old(world).shapes@.update(shape_id.index1 - 1, (Shape { material: SurfaceMaterial { friction: friction, ..old(world).shape_of(shape_id).material }, ..old(world).shape_of(shape_id) })),
        final(world).same_but_shapes(old(world)),
        recorded(old(world).recording, final(world).recording, OP_SHAPE_SET_FRICTION, id64_bytes(shape_id.index1, shape_id.world0, shape_id.generation) + u32_bytes(friction)),
{
    if let Some(mut rec) = world.recording.take() {
        write_shape_f32(&mut rec, OP_SHAPE_SET_FRICTION, shape_id, friction);
        world.recording = Some(rec);
    }
    if world.locked {
        return;
    }
    let shape_index = get_shape_index(world, shape_id);
    let mut shape = world.shapes[shape_index as usize];
    shape.material.friction = friction;
    world.shapes.set(shape_index as usize, shape);
}

/// The friction of a shape, as a bit pattern.
pub fn shape_get_friction(world: &World, shape_id: ShapeId) -> (r: u32)
    requires
        world.valid_shape_id(shape_id),
    ensures
        r == world.shape_of(shape_id).material.friction,
{
    let shape_index = get_shape_index(world, shape_id);
    world.shapes[shape_index as usize].material.friction
}

/// Set the restitution of a shape, as a bit pattern; refused while the world
/// steps.
pub fn shape_set_restitution(world: &mut World, shape_id: ShapeId, restitution: u32)
    requires
        old(world).valid_shape_id(shape_id),
        !old(world).locked,
        nonneg_finite_bits(restitution),
    ensures
        final(world).shapes@ == old(world).shapes@.update(shape_id.index1 - 1, (Shape { material: SurfaceMaterial { restitution: restitution, ..old(world).shape_of(shape_id).material }, ..old(world).shape_of(shape_id) })),
        final(world).same_but_shapes(old(world)),
        recorded(old(world).recording, final(world).recording, OP_SHAPE_SET_RESTITUTION, id64_bytes(shape_id.index1, shape_id.world0, shape_id.generation) + u32_bytes(restitution)),
{
    if let Some(mut rec) = world.recording.take() {
        write_shape_f32(&mut rec, OP_SHAPE_SET_RESTITUTION, shape_id, restitution);
        world.recording = Some(rec);
    }
    if world.locked {
        return;
    }
    let shape_index = get_shape_index(world, shape_id);
    let mut shape = world.shapes[shape_index as usize];
    shape.material.restitution = restitution;
    world.shapes.set(shape_index as usize, shape);
}

/// The restitution of a shape, as a bit pattern.
pub fn shape_get_restitution(world: &World, shape_id: ShapeId) -> (r: u32)
    requires
        world.valid_shape_id(shape_id),
    ensures
        r == world.shape_of(shape_id).material.restitution,
{
    let shape_index = get_shape_index(world, shape_id);
    world.shapes[shape_index as usize].material.restitution
}

/// The mass density of a shape, as a bit pattern.
pub fn shape_get_density(world: &World, shape_id: ShapeId) -> (r: u32)
    requires
        world.valid_shape_id(shape_id),
    ensures
        r == world.shape_of(shape_id).density,
{
    let shape_index = get_shape_index(world, shape_id);
    world.shapes[shape_index as usize].density
}

/// The current world bounding box of a shape.
pub fn shape_get_aabb(world: &World, shape_id: ShapeId) -> (r: Aabb)
    requires
        world.valid_shape_id(shape_id),
    ensures
        r == world.shape_of(shape_id).aabb,
{
    let shape_index = get_shape_index(world, shape_id);
    world.shapes[shape_index as usize].aabb
}

/// The collision filter of a shape.
pub fn shape_get_filter(world: &World, shape_id: ShapeId) -> (r: Filter)
    requires
        world.valid_shape_id(shape_id),
    ensures
        r == world.shape_of(shape_id).filter,
{
    let shape_index = get_shape_index(world, shape_id);
    world.shapes[shape_index as usize].filter
}

/// What a filter change asks of the broad phase, which refreshes a shape's
/// presence there: nothing, or that the shape's contacts be destroyed and
/// its proxy refreshed, recreated when the category bits changed since they
/// order the tree.
#[derive(Clone, Copy, Debug, PartialEq, Eq, Structural)]
pub enum ProxyRefresh {
    Unchanged,
    Refresh { destroy_proxy: bool },
}

/// Set the collision filter of a shape; refused while the world steps. An
/// unchanged filter changes nothing; otherwise the filter is stored and the
/// refresh the broad phase owes the shape is returned. Sensor overlaps
/// follow at the next step.
pub fn shape_set_filter(world: &mut World, shape_id: ShapeId, filter: Filter) -> (r: ProxyRefresh)
    requires
        old(world).valid_shape_id(shape_id),
        !old(world).locked,
    ensures
        recorded(old(world).recording, final(world).recording, OP_SHAPE_SET_FILTER, id64_bytes(shape_id.index1, shape_id.world0, shape_id.generation) + filter_bytes(filter)),
        final(world).same_but_shapes(old(world)),
        old(world).shape_of(shape_id).filter == filter ==> final(world).shapes@ == old(world).shapes@ && r == ProxyRefresh::Unchanged,
        old(world).shape_of(shape_id).filter != filter ==> final(world).shapes@ == old(world).shapes@.update(shape_id.index1 - 1, (Shape { filter: filter, ..old(world).shape_of(shape_id) })) && r == (ProxyRefresh::Refresh { destroy_proxy: filter.category_bits != old(world).shape_of(shape_id).filter.category_bits }),
{
    if let Some(mut rec) = world.recording.take() {
        write_shape_set_filter(&mut rec, shape_id, filter);
        world.recording = Some(rec);
    }
    if world.locked {
        return ProxyRefresh::Unchanged;
    }
    let shape_index = get_shape_index(world, shape_id);
    let mut shape = world.shapes[shape_index as usize];
    if filter.mask_bits == shape.filter.mask_bits && filter.category_bits == shape.filter.category_bits
        && filter.group_index == shape.filter.group_index {
        return ProxyRefresh::Unchanged;
    }
    let destroy_proxy = filter.category_bits != shape.filter.category_bits;
    shape.filter = filter;
    world.shapes.set(shape_index as usize, shape);
    ProxyRefresh::Refresh { destroy_proxy }
}

/// Turn sensor events of a shape on or off; refused while the world steps.
pub fn shape_enable_sensor_events(world: &mut World, shape_id: ShapeId, flag: bool)
    requires
        old(world).valid_shape_id(shape_id),
        !old(world).locked,
    ensures
        final(world).shapes@ == old(world).shapes@.update(shape_id.index1 - 1, (Shape { enable_sensor_events: flag, ..old(world).shape_of(shape_id) })),
        final(world).same_but_shapes(old(world)),
        recorded(old(world).recording, final(world).recording, OP_SHAPE_ENABLE_SENSOR_EVENTS, id64_bytes(shape_id.index1, shape_id.world0, shape_id.generation) + seq![bool_byte(flag)]),
{
    if let Some(mut rec) = world.recording.take() {
        write_shape_bool(&mut rec, OP_SHAPE_ENABLE_SENSOR_EVENTS, shape_id, flag);
        world.recording = Some(rec);
    }
    if world.locked {
        return;
    }
    let shape_index = get_shape_index(world, shape_id);
    let mut shape = world.shapes[shape_index as usize];
    shape.enable_sensor_events = flag;
    world.shapes.set(shape_index as usize, shape);
}

/// Whether sensor events of a shape are on.
pub fn shape_are_sensor_events_enabled(world: &World, shape_id: ShapeId) -> (r: bool)
    requires
        world.valid_shape_id(shape_id),
    ensures
        r == world.shape_of(shape_id).enable_sensor_events,
{
    let shape_index = get_shape_index(world, shape_id);
    world.shapes[shape_index as usize].enable_sensor_events
}

/// Turn contact begin and end events of a shape on or off; refused while the world steps.
pub fn shape_enable_contact_events(world: &mut World, shape_id: ShapeId, flag: bool)
    requires
        old(world).valid_shape_id(shape_id),
        !old(world).locked,
    ensures
        final(world).shapes@ == old(world).shapes@.update(shape_id.index1 - 1, (Shape { enable_contact_events: flag, ..old(world).shape_of(shape_id) })),
        final(world).same_but_shapes(old(world)),
        recorded(old(world).recording, final(world).recording, OP_SHAPE_ENABLE_CONTACT_EVENTS, id64_bytes(shape_id.index1, shape_id.world0, shape_id.generation) + seq![bool_byte(flag)]),
{
    if let Some(mut rec) = world.recording.take() {
        write_shape_bool(&mut rec, OP_SHAPE_ENABLE_CONTACT_EVENTS, shape_id, flag);
        world.recording = Some(rec);
    }
    if world.locked {
        return;
    }
    let shape_index = get_shape_index(world, shape_id);
    let mut shape = world.shapes[shape_index as usize];
    shape.enable_contact_events = flag;
    world.shapes.set(shape_index as usize, shape);
}

/// Whether contact begin and end events of a shape are on.
pub fn shape_are_contact_events_enabled(world: &World, shape_id: ShapeId) -> (r: bool)
    requires
        world.valid_shape_id(shape_id),
    ensures
        r == world.shape_of(shape_id).enable_contact_events,
{
    let shape_index = get_shape_index(world, shape_id);
    world.shapes[shape_index as usize].enable_contact_events
}

/// Turn pre-solve callbacks of a shape on or off; refused while the world steps.
pub fn shape_enable_pre_solve_events(world: &mut World, shape_id: ShapeId, flag: bool)
    requires
        old(world).valid_shape_id(shape_id),
        !old(world).locked,
    ensures
        final(world).shapes@ == old(world).shapes@.update(shape_id.index1 - 1, (Shape { enable_pre_solve_events: flag, ..old(world).shape_of(shape_id) })),
        final(world).same_but_shapes(old(world)),
        recorded(old(world).recording, final(world).recording, OP_SHAPE_ENABLE_PRE_SOLVE_EVENTS, id64_bytes(shape_id.index1, shape_id.world0, shape_id.generation) + seq![bool_byte(flag)]),
{
    if let Some(mut rec) = world.recording.take() {
        write_shape_bool(&mut rec, OP_SHAPE_ENABLE_PRE_SOLVE_EVENTS, shape_id, flag);
        world.recording = Some(rec);
    }
    if world.locked {
        return;
    }
    let shape_index = get_shape_index(world, shape_id);
    let mut shape = world.shapes[shape_index as usize];
    shape.enable_pre_solve_events = flag;
    world.shapes.set(shape_index as usize, shape);
}

/// Whether pre-solve callbacks of a shape are on.
pub fn shape_are_pre_solve_events_enabled(world: &World, shape_id: ShapeId) -> (r: bool)
    requires
        world.valid_shape_id(shape_id),
    ensures
        r == world.shape_of(shape_id).enable_pre_solve_events,
{
    let shape_index = get_shape_index(world, shape_id);
    world.shapes[shape_index as usize].enable_pre_solve_events
}

/// Turn hit events of a shape on or off; refused while the world steps.
pub fn shape_enable_hit_events(world: &mut World, shape_id: ShapeId, flag: bool)
    requires
        old(world).valid_shape_id(shape_id),
        !old(world).locked,
    ensures
        final(world).shapes@ == old(world).shapes@.update(shape_id.index1 - 1, (Shape { enable_hit_events: flag, ..old(world).shape_of(shape_id) })),
        final(world).same_but_shapes(old(world)),
        recorded(old(world).recording, final(world).recording, OP_SHAPE_ENABLE_HIT_EVENTS, id64_bytes(shape_id.index1, shape_id.world0, shape_id.generation) + seq![bool_byte(flag)]),
{
    if let Some(mut rec) = world.recording.take() {
        write_shape_bool(&mut rec, OP_SHAPE_ENABLE_HIT_EVENTS, shape_id, flag);
        world.recording = Some(rec);
    }
    if world.locked {
        return;
    }
    let shape_index = get_shape_index(world, shape_id);
    let mut shape = world.shapes[shape_index as usize];
    shape.enable_hit_events = flag;
    world.shapes.set(shape_index as usize, shape);
}

/// Whether hit events of a shape are on.
pub fn shape_are_hit_events_enabled(world: &World, shape_id: ShapeId) -> (r: bool)
    requires
        world.valid_shape_id(shape_id),
    ensures
        r == world.shape_of(shape_id).enable_hit_events,
{
    let shape_index = get_shape_index(world, shape_id);
    world.shapes[shape_index as usize].enable_hit_events
}

/// The kind of a shape's geometry.
pub fn shape_get_type(world: &World, shape_id: ShapeId) -> (r: ShapeType)
    requires
        world.valid_shape_id(shape_id),
    ensures
        r == geometry_type(world.shape_of(shape_id).geometry),
{
    let shape_index = get_shape_index(world, shape_id);
    world.shapes[shape_index as usize].shape_type()
}

/// Room needed to fetch all contacts touching the shape's body: none for a
/// sensor.
pub fn shape_get_contact_capacity(world: &World, shape_id: ShapeId) -> (r: i32)
    requires
        world.wf(),
        !world.locked,
        world.valid_shape_id(shape_id),
    ensures
        r == if world.shape_of(shape_id).sensor_index != NULL_INDEX {
            0
        } else {
            world.bodies@[world.shape_of(shape_id).body_id as int].contact_count
        },
{
    if world.locked {
        return 0;
    }
    let shape_index = get_shape_index(world, shape_id);
    proof {
        assert(world.shape_slot_ok(world.shapes@[shape_index as int], shape_index as int));
    }
    let shape = world.shapes[shape_index as usize];
    if shape.sensor_index != NULL_INDEX {
        return 0;
    }
    world.bodies[shape.body_id as usize].contact_count
}

/// Room needed to fetch all shapes a sensor shape overlaps; zero if the
/// shape is not a sensor.
pub fn shape_get_sensor_capacity(world: &World, shape_id: ShapeId) -> (r: i32)
    requires
        world.wf(),
        !world.locked,
        world.valid_shape_id(shape_id),
    ensures
        r == if world.shape_of(shape_id).sensor_index == NULL_INDEX {
            0
        } else {
            world.sensors@[world.shape_of(shape_id).sensor_index as int].overlaps2@.len() as i32
        },
{
    if world.locked {
        return 0;
    }
    let shape_index = get_shape_index(world, shape_id);
    proof {
        assert(world.shape_slot_ok(world.shapes@[shape_index as int], shape_index as int));
    }
    let shape = world.shapes[shape_index as usize];
    if shape.sensor_index == NULL_INDEX {
        return 0;
    }
    world.sensors[shape.sensor_index as usize].overlaps2.len() as i32
}

/// The shapes a sensor shape overlaps, at most `capacity` of them, as ids
/// of this world; none if the shape is not a sensor. An overlap may name a
/// shape destroyed since.
pub fn shape_get_sensor_data(world: &World, shape_id: ShapeId, capacity: usize) -> (r: Vec<ShapeId>)
    requires
        world.wf(),
        !world.locked,
        world.valid_shape_id(shape_id),
    ensures
        world.shape_of(shape_id).sensor_index == NULL_INDEX ==> r@.len() == 0,
        world.shape_of(shape_id).sensor_index != NULL_INDEX ==> ({
            let overlaps = world.sensors@[world.shape_of(shape_id).sensor_index as int].overlaps2@;
            &&& r@.len() == if overlaps.len() < capacity { overlaps.len() } else { capacity as nat }
            &&& forall|k: int| 0 <= k < r@.len() ==> #[trigger] r@[k] == (ShapeId {
                index1: (overlaps[k].shape_id + 1) as i32,
                world0: world.world_id,
                generation: overlaps[k].generation,
            })
        }),
{
    if world.locked {
        return Vec::new();
    }
    let shape_index = get_shape_index(world, shape_id);
    proof {
        assert(world.shape_slot_ok(world.shapes@[shape_index as int], shape_index as int));
    }
    let shape = world.shapes[shape_index as usize];
    if shape.sensor_index == NULL_INDEX {
        return Vec::new();
    }
    let sensor = &world.sensors[shape.sensor_index as usize];
    let count = if sensor.overlaps2.len() < capacity { sensor.overlaps2.len() } else { capacity };
    let mut out: Vec<ShapeId> = Vec::new();
    let mut i: usize = 0;
    while i < count
        invariant
            world.wf(),
            0 <= shape.sensor_index < world.sensors@.len(),
            *sensor == world.sensors@[shape.sensor_index as int],
            count <= sensor.overlaps2@.len(),
            0 <= i <= count,
            out@.len() == i,
            forall|k: int| 0 <= k < i ==> #[trigger] out@[k] == (ShapeId {
                index1: (sensor.overlaps2@[k].shape_id + 1) as i32,
                world0: world.world_id,
                generation: sensor.overlaps2@[k].generation,
            }),
        decreases count - i,
    {
        let visitor = sensor.overlaps2[i];
        proof {
            assert(0 <= world.sensors@[shape.sensor_index as int].overlaps2@[i as int].shape_id < world.shapes@.len());
        }
        out.push(ShapeId { index1: visitor.shape_id + 1, world0: world.world_id, generation: visitor.generation });
        i = i + 1;
    }
    out
}

/// A copy of the shape's circle; the shape must be a circle.
pub fn shape_get_circle(world: &World, shape_id: ShapeId) -> (c: Circle)
    requires
        world.wf(),
        world.valid_shape_id(shape_id),
        world.shape_of(shape_id).geometry is Circle,
    ensures
        world.shape_of(shape_id).geometry == ShapeGeometry::Circle(c),
{
    let shape_index = get_shape_index(world, shape_id);
    match world.shapes[shape_index as usize].geometry {
        ShapeGeometry::Circle(circle) => circle,
        _ => vstd::pervasive::unreached(),
    }
}

/// A copy of the shape's line segment; the shape must be a segment.
pub fn shape_get_segment(world: &World, shape_id: ShapeId) -> (g: Segment)
    requires
        world.wf(),
        world.valid_shape_id(shape_id),
        world.shape_of(shape_id).geometry is Segment,
    ensures
        world.shape_of(shape_id).geometry == ShapeGeometry::Segment(g),
{
    let shape_index = get_shape_index(world, shape_id);
    match world.shapes[shape_index as usize].geometry {
        ShapeGeometry::Segment(segment) => segment,
        _ => vstd::pervasive::unreached(),
    }
}

/// A copy of the shape's chain segment; the shape must be one.
pub fn shape_get_chain_segment(world: &World, shape_id: ShapeId) -> (g: ChainSegment)
    requires
        world.wf(),
        world.valid_shape_id(shape_id),
        world.shape_of(shape_id).geometry is ChainSegment,
    ensures
        world.shape_of(shape_id).geometry == ShapeGeometry::ChainSegment(g),
{
    let shape_index = get_shape_index(world, shape_id);
    match world.shapes[shape_index as usize].geometry {
        ShapeGeometry::ChainSegment(chain_segment) => chain_segment,
        _ => vstd::pervasive::unreached(),
    }
}

/// A copy of the shape's capsule; the shape must be a capsule.
pub fn shape_get_capsule(world: &World, shape_id: ShapeId) -> (g: Capsule)
    requires
        world.wf(),
        world.valid_shape_id(shape_id),
        world.shape_of(shape_id).geometry is Capsule,
    ensures
        world.shape_of(shape_id).geometry == ShapeGeometry::Capsule(g),
{
    let shape_index = get_shape_index(world, shape_id);
    match world.shapes[shape_index as usize].geometry {
        ShapeGeometry::Capsule(capsule) => capsule,
        _ => vstd::pervasive::unreached(),
    }
}

/// A copy of the shape's convex polygon; the shape must be a polygon.
pub fn shape_get_polygon(world: &World, shape_id: ShapeId) -> (g: Polygon)
    requires
        world.wf(),
        world.valid_shape_id(shape_id),
        world.shape_of(shape_id).geometry is Polygon,
    ensures
        world.shape_of(shape_id).geometry == ShapeGeometry::Polygon(g),
{
    let shape_index = get_shape_index(world, shape_id);
    match world.shapes[shape_index as usize].geometry {
        ShapeGeometry::Polygon(polygon) => polygon,
        _ => vstd::pervasive::unreached(),
    }
}

/// The chain a chain-segment shape belongs to, or the null chain id for
/// any other shape or a segment made on its own.
pub fn shape_get_parent_chain(world: &World, shape_id: ShapeId) -> (c: ChainId)
    requires
        world.wf(),
        world.valid_shape_id(shape_id),
    ensures
        c == match world.shape_of(shape_id).geometry {
            ShapeGeometry::ChainSegment(seg) => if seg.chain_id != NULL_INDEX {
                ChainId { index1: (seg.chain_id + 1) as i32, world0: world.world_id, generation: world.chain_shapes@[seg.chain_id as int].generation }
            } else {
                ChainId { index1: 0, world0: 0, generation: 0 }
            },
            _ => ChainId { index1: 0, world0: 0, generation: 0 },
        },
{
    let shape_index = get_shape_index(world, shape_id);
    proof {
        assert(world.shape_slot_ok(world.shapes@[shape_index as int], shape_index as int));
    }
    if let ShapeGeometry::ChainSegment(seg) = world.shapes[shape_index as usize].geometry {
        let chain_id = seg.chain_id;
        if chain_id != NULL_INDEX {
            let chain = &world.chain_shapes[chain_id as usize];
            return ChainId { index1: chain_id + 1, world0: world.world_id, generation: chain.generation };
        }
    }
    ChainId { index1: 0, world0: 0, generation: 0 }
}

/// A shape changed through the API stays a live shape under the same id,
/// and each accessor then reads back what was set.
pub proof fn law_shape_update_reads_back(world: World, next: World, shape_id: ShapeId, s: Shape)
    requires
        world.valid_shape_id(shape_id),
        s.id == world.shape_of(shape_id).id,
        s.generation == world.shape_of(shape_id).generation,
        next.shapes@ == world.shapes@.update(shape_id.index1 - 1, s),
    ensures
        next.valid_shape_id(shape_id),
        next.shape_of(shape_id) == s,
        forall|j: int| 0 <= j < world.shapes@.len() && j != shape_id.index1 - 1 ==> #[trigger] next.shapes@[j] == world.shapes@[j],
{
}

} // verus!
