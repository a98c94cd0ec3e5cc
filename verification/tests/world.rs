use lib::recording::apply::apply_shape_command;
use lib::recording::shape_ops::ShapeCommand;
use lib::recording::ops::{OP_SHAPE_ENABLE_HIT_EVENTS, OP_SHAPE_SET_FRICTION};
use lib::containers::{HashSet, IdPool};
use lib::world::BroadPhase;
use lib::snapshot_tree::{Capacity as WorldCapacity, WorldConfig as Settings};
use lib::chain::{
    chain_get_segment_count, chain_get_segments, chain_get_surface_material,
    chain_get_surface_material_count, chain_is_valid, chain_set_surface_material, get_chain_index,
};
use lib::geometry::{Aabb, Capsule, ChainSegment, Circle, Polygon, Segment, Vec2};
use lib::id::{BodyId, ChainId, JointId, ShapeId};
use lib::recording::Recording;
use lib::sensor::{Sensor, Visitor, NULL_INDEX};
use lib::shape::{ChainShape, Shape, ShapeGeometry, ShapeType};
use lib::shape_api::{
    get_shape_index, shape_are_contact_events_enabled, shape_are_hit_events_enabled,
    shape_are_pre_solve_events_enabled, shape_are_sensor_events_enabled,
    shape_enable_contact_events, shape_enable_hit_events, shape_enable_pre_solve_events,
    shape_enable_sensor_events, shape_get_body, shape_get_capsule, shape_get_chain_segment, shape_get_circle,
    shape_get_contact_capacity, shape_get_filter, shape_get_polygon, shape_get_segment,
    shape_get_parent_chain, shape_get_sensor_capacity, shape_get_sensor_data,
    shape_get_surface_material, shape_get_type, shape_get_user_data, shape_get_user_material,
    shape_is_sensor, shape_is_valid, shape_set_surface_material, shape_set_user_data,
    shape_set_user_material, shape_get_aabb, shape_get_density, shape_get_friction, shape_get_restitution,
    shape_set_friction, shape_set_restitution, shape_set_filter, ProxyRefresh,
};
use lib::types::{default_filter, BodyType, Filter, SurfaceMaterial};
use lib::world::{Body, World};

fn body(id: i32, generation: u16, contact_count: i32, head_chain_id: i32) -> Body {
    Body {
        user_data: 0,
        set_index: 0,
        local_index: id,
        head_contact_key: NULL_INDEX,
        contact_count,
        head_shape_id: NULL_INDEX,
        shape_count: 0,
        head_chain_id,
        head_joint_key: NULL_INDEX,
        joint_count: 0,
        island_id: NULL_INDEX,
        island_index: NULL_INDEX,
        mass: 0,
        inertia: 0,
        sleep_threshold: 0,
        sleep_time: 0,
        body_move_index: NULL_INDEX,
        id,
        flags: 0,
        type_: BodyType::Static,
        generation,
        name: String::new(),
    }
}

fn material(id: u64) -> SurfaceMaterial {
    SurfaceMaterial {
        friction: 0.6f32.to_bits(),
        restitution: 0,
        rolling_resistance: 0,
        tangent_speed: 0,
        user_material_id: id,
        custom_color: 0,
    }
}

fn shape(id: i32, body_id: i32, geometry: ShapeGeometry) -> Shape {
    Shape {
        id,
        body_id,
        prev_shape_id: NULL_INDEX,
        next_shape_id: NULL_INDEX,
        sensor_index: NULL_INDEX,
        material: material(0),
        density: 1.0f32.to_bits(),
        aabb_margin: 0.1f32.to_bits(),
        aabb: Aabb { lower_bound: v2(-1.0, -1.0), upper_bound: v2(1.0, 1.0) },
        fat_aabb: Aabb { lower_bound: v2(-1.1, -1.1), upper_bound: v2(1.1, 1.1) },
        local_centroid: v2(0.0, 0.0),
        proxy_key: 2 * id,
        filter: default_filter(),
        user_data: 0,
        geometry,
        generation: 1,
        enable_sensor_events: false,
        enable_contact_events: true,
        enable_custom_filtering: false,
        enable_hit_events: false,
        enable_pre_solve_events: false,
        enlarged_aabb: false,
    }
}

fn v2(x: f32, y: f32) -> Vec2 {
    Vec2 { x: x.to_bits(), y: y.to_bits() }
}

fn circle() -> Circle {
    Circle { center: v2(1.0, 2.0), radius: 0.5f32.to_bits() }
}

fn square() -> Polygon {
    let zero = v2(0.0, 0.0);
    let mut vertices = [zero; 8];
    vertices[0] = v2(-1.0, -1.0);
    vertices[1] = v2(1.0, -1.0);
    vertices[2] = v2(1.0, 1.0);
    vertices[3] = v2(-1.0, 1.0);
    let mut normals = [zero; 8];
    normals[0] = v2(0.0, -1.0);
    normals[1] = v2(1.0, 0.0);
    normals[2] = v2(0.0, 1.0);
    normals[3] = v2(-1.0, 0.0);
    Polygon { vertices, normals, centroid: zero, radius: 0, count: 4 }
}

fn link(x: f32, chain_id: i32) -> ChainSegment {
    ChainSegment {
        ghost1: v2(x - 1.0, 0.0),
        segment: Segment { point1: v2(x, 0.0), point2: v2(x + 1.0, 0.0) },
        ghost2: v2(x + 2.0, 0.0),
        chain_id,
    }
}

/// Two bodies; a circle, a sensor box, and two segments of a chain.
fn scene(recording: bool) -> World {
    let mut sensor_shape = shape(1, 0, ShapeGeometry::Polygon(square()));
    sensor_shape.sensor_index = 0;
    let mut sensor = Sensor::new(1);
    sensor.overlaps2 = vec![Visitor { shape_id: 0, generation: 1 }, Visitor { shape_id: 2, generation: 4 }];
    World {
        world_id: 0,
        generation: 1,
        locked: false,
        recording: if recording { Some(Recording::new(0)) } else { None },
        bodies: vec![
            body(0, 3, 2, NULL_INDEX),
            body(1, 5, 0, 0),
        ],
        shapes: vec![
            shape(0, 0, ShapeGeometry::Circle(circle())),
            sensor_shape,
            shape(2, 1, ShapeGeometry::ChainSegment(link(0.0, 0))),
            shape(3, 1, ShapeGeometry::ChainSegment(link(1.0, 0))),
        ],
        chain_shapes: vec![ChainShape {
            id: 0,
            body_id: 1,
            next_chain_id: NULL_INDEX,
            shape_indices: vec![2, 3],
            materials: vec![material(7)],
            generation: 2,
        }],
        joints: vec![],
        sensors: vec![sensor],
        solver_sets: vec![],
        graph_colors: vec![],
        ..blank_world()
    }
}

fn sid(index: i32, generation: u16) -> ShapeId {
    ShapeId { index1: index + 1, world0: 0, generation }
}

#[test]
fn shape_validity_and_index() {
    let world = scene(false);
    assert!(shape_is_valid(&world, sid(0, 1)));
    assert!(!shape_is_valid(&world, sid(0, 2)));
    assert!(!shape_is_valid(&world, sid(9, 1)));
    assert!(!shape_is_valid(&world, ShapeId { index1: 0, world0: 0, generation: 1 }));
    assert_eq!(get_shape_index(&world, sid(3, 1)), 3);
    let mut freed = scene(false);
    freed.shapes[0].id = NULL_INDEX;
    assert!(!shape_is_valid(&freed, sid(0, 1)));
}

#[test]
fn shape_accessors() {
    let mut world = scene(false);
    assert_eq!(shape_get_body(&world, sid(2, 1)), BodyId { index1: 2, world0: 0, generation: 5 });
    shape_set_user_data(&mut world, sid(0, 1), 42);
    assert_eq!(shape_get_user_data(&world, sid(0, 1)), 42);
    assert!(shape_is_sensor(&world, sid(1, 1)));
    assert!(!shape_is_sensor(&world, sid(0, 1)));
    assert_eq!(shape_get_filter(&world, sid(0, 1)), default_filter());
    assert_eq!(shape_get_type(&world, sid(0, 1)), ShapeType::Circle);
    assert_eq!(shape_get_type(&world, sid(2, 1)), ShapeType::ChainSegment);
    shape_set_user_material(&mut world, sid(0, 1), 11);
    assert_eq!(shape_get_user_material(&world, sid(0, 1)), 11);
    shape_set_surface_material(&mut world, sid(0, 1), material(5));
    assert_eq!(shape_get_surface_material(&world, sid(0, 1)), material(5));
}

#[test]
fn shape_event_switches_read_back() {
    let mut world = scene(false);
    shape_enable_sensor_events(&mut world, sid(0, 1), true);
    assert!(shape_are_sensor_events_enabled(&world, sid(0, 1)));
    shape_enable_contact_events(&mut world, sid(0, 1), false);
    assert!(!shape_are_contact_events_enabled(&world, sid(0, 1)));
    shape_enable_pre_solve_events(&mut world, sid(0, 1), true);
    assert!(shape_are_pre_solve_events_enabled(&world, sid(0, 1)));
    shape_enable_hit_events(&mut world, sid(0, 1), true);
    assert!(shape_are_hit_events_enabled(&world, sid(0, 1)));
    // The other shapes are untouched.
    assert!(!shape_are_sensor_events_enabled(&world, sid(3, 1)));
}

#[test]
fn shape_switch_is_recorded_as_one_record() {
    let mut world = scene(true);
    shape_enable_hit_events(&mut world, sid(2, 1), true);
    let buf = &world.recording.as_ref().unwrap().buffer;
    assert_eq!(buf.len(), 4 + 9);
    assert_eq!(buf[0], 0x59);
    assert_eq!(&buf[1..4], &[9, 0, 0]);
    assert_eq!(&buf[4..12], &sid(2, 1).store().to_le_bytes());
    assert_eq!(buf[12], 1);
    // A change with no session records nothing and needs no session.
    let mut quiet = scene(false);
    shape_enable_hit_events(&mut quiet, sid(2, 1), true);
    assert!(quiet.recording.is_none());
}

#[test]
fn contact_and_sensor_queries() {
    let world = scene(false);
    assert_eq!(shape_get_contact_capacity(&world, sid(0, 1)), 2);
    assert_eq!(shape_get_contact_capacity(&world, sid(1, 1)), 0);
    assert_eq!(shape_get_sensor_capacity(&world, sid(1, 1)), 2);
    assert_eq!(shape_get_sensor_capacity(&world, sid(0, 1)), 0);
    let data = shape_get_sensor_data(&world, sid(1, 1), 8);
    assert_eq!(data, vec![sid(0, 1), sid(2, 4)]);
    let data = shape_get_sensor_data(&world, sid(1, 1), 1);
    assert_eq!(data, vec![sid(0, 1)]);
    assert!(shape_get_sensor_data(&world, sid(0, 1), 8).is_empty());
}

#[test]
fn parent_chain() {
    let world = scene(false);
    assert_eq!(shape_get_parent_chain(&world, sid(2, 1)), ChainId { index1: 1, world0: 0, generation: 2 });
    assert_eq!(shape_get_parent_chain(&world, sid(0, 1)), ChainId { index1: 0, world0: 0, generation: 0 });
}

#[test]
fn chain_accessors() {
    let mut world = scene(true);
    let chain = ChainId { index1: 1, world0: 0, generation: 2 };
    assert!(chain_is_valid(&world, chain));
    assert!(!chain_is_valid(&world, ChainId { index1: 1, world0: 0, generation: 3 }));
    assert!(!chain_is_valid(&world, ChainId { index1: 5, world0: 0, generation: 2 }));
    assert_eq!(get_chain_index(&world, chain), 0);
    assert_eq!(chain_get_segment_count(&world, chain), 2);
    assert_eq!(chain_get_segments(&world, chain, 10), vec![sid(2, 1), sid(3, 1)]);
    assert_eq!(chain_get_segments(&world, chain, 1), vec![sid(2, 1)]);
    assert_eq!(chain_get_surface_material_count(&world, chain), 1);
    assert_eq!(chain_get_surface_material(&world, chain, 1), material(7));

    // One shared material reaches every segment.
    chain_set_surface_material(&mut world, chain, material(9), 0);
    assert_eq!(chain_get_surface_material(&world, chain, 0), material(9));
    assert_eq!(shape_get_surface_material(&world, sid(2, 1)), material(9));
    assert_eq!(shape_get_surface_material(&world, sid(3, 1)), material(9));
    assert_eq!(shape_get_surface_material(&world, sid(0, 1)), material(0));
    let buf = &world.recording.as_ref().unwrap().buffer;
    assert_eq!(buf[0], 0x72);
    assert_eq!(buf.len(), 4 + 8 + 28 + 4);

    // Per-segment materials reach only their segment.
    world.chain_shapes[0].materials = vec![material(1), material(2)];
    chain_set_surface_material(&mut world, chain, material(3), 1);
    assert_eq!(shape_get_surface_material(&world, sid(3, 1)), material(3));
    assert_eq!(shape_get_surface_material(&world, sid(2, 1)), material(9));
    assert_eq!(chain_get_surface_material(&world, chain, 0), material(1));
}

#[test]
fn geometry_getters_copy_the_stored_geometry() {
    let world = scene(false);
    assert_eq!(shape_get_circle(&world, sid(0, 1)), circle());
    let polygon = shape_get_polygon(&world, sid(1, 1));
    assert_eq!(polygon.count, 4);
    assert_eq!(polygon.vertices, square().vertices);
    assert_eq!(polygon.normals, square().normals);
    assert_eq!(shape_get_chain_segment(&world, sid(2, 1)), link(0.0, 0));
    assert_eq!(shape_get_chain_segment(&world, sid(3, 1)).segment.point1, v2(1.0, 0.0));

    let mut other = scene(false);
    let segment = Segment { point1: v2(0.0, 0.0), point2: v2(3.0, 4.0) };
    let capsule = Capsule { center1: v2(0.0, 0.0), center2: v2(0.0, 2.0), radius: 0.25f32.to_bits() };
    other.shapes[0].geometry = ShapeGeometry::Segment(segment);
    other.shapes[1].geometry = ShapeGeometry::Capsule(capsule);
    assert_eq!(shape_get_segment(&other, sid(0, 1)), segment);
    assert_eq!(shape_get_capsule(&other, sid(1, 1)), capsule);
    assert_eq!(shape_get_type(&other, sid(0, 1)), ShapeType::Segment);
    assert_eq!(shape_get_type(&other, sid(1, 1)), ShapeType::Capsule);
}


#[test]
fn shape_friction_restitution_density_and_box() {
    let mut world = scene(false);
    assert_eq!(shape_get_friction(&world, sid(0, 1)), 0.6f32.to_bits());
    shape_set_friction(&mut world, sid(0, 1), 0.9f32.to_bits());
    assert_eq!(shape_get_friction(&world, sid(0, 1)), 0.9f32.to_bits());
    shape_set_restitution(&mut world, sid(0, 1), 0.3f32.to_bits());
    assert_eq!(shape_get_restitution(&world, sid(0, 1)), 0.3f32.to_bits());
    // the rest of the material stays
    assert_eq!(shape_get_user_material(&world, sid(0, 1)), 0);
    assert_eq!(shape_get_friction(&world, sid(1, 1)), 0.6f32.to_bits());
    assert_eq!(shape_get_density(&world, sid(0, 1)), 1.0f32.to_bits());
    assert_eq!(
        shape_get_aabb(&world, sid(0, 1)),
        Aabb { lower_bound: v2(-1.0, -1.0), upper_bound: v2(1.0, 1.0) }
    );
}

#[test]
fn shape_friction_change_is_recorded() {
    let mut world = scene(true);
    shape_set_friction(&mut world, sid(2, 1), 0.25f32.to_bits());
    let buf = &world.recording.as_ref().unwrap().buffer;
    assert_eq!(buf.len(), 4 + 12);
    assert_eq!(buf[0], 0x51);
    assert_eq!(&buf[1..4], &[12, 0, 0]);
    assert_eq!(&buf[4..12], &sid(2, 1).store().to_le_bytes());
    assert_eq!(&buf[12..16], &0.25f32.to_le_bytes());
}

#[test]
fn filter_changes_ask_for_a_proxy_refresh() {
    let mut world = scene(true);
    // the same filter changes nothing
    assert_eq!(shape_set_filter(&mut world, sid(0, 1), default_filter()), ProxyRefresh::Unchanged);
    // a new group keeps the proxy
    let grouped = Filter { group_index: -2, ..default_filter() };
    assert_eq!(shape_set_filter(&mut world, sid(0, 1), grouped), ProxyRefresh::Refresh { destroy_proxy: false });
    assert_eq!(shape_get_filter(&world, sid(0, 1)), grouped);
    // new category bits recreate it
    let moved = Filter { category_bits: 4, ..grouped };
    assert_eq!(shape_set_filter(&mut world, sid(0, 1), moved), ProxyRefresh::Refresh { destroy_proxy: true });
    assert_eq!(shape_get_filter(&world, sid(0, 1)), moved);
    assert_eq!(shape_get_filter(&world, sid(1, 1)), default_filter());
    // every call is recorded, the unchanged one too
    let buf = &world.recording.as_ref().unwrap().buffer;
    assert_eq!(buf.len(), 3 * (4 + 8 + 20));
    assert_eq!(buf[0], 0x55);
}

#[test]
fn shape_radius_by_kind() {
    let world = scene(false);
    assert_eq!(world.shapes[0].radius(), 0.5f32.to_bits());
    assert_eq!(world.shapes[1].radius(), square().radius);
    assert_eq!(world.shapes[2].radius(), 0);
}

/// A world with empty tables, settings and broad phase.
fn blank_world() -> World {
    World {
        world_id: 0,
        generation: 1,
        locked: false,
        recording: None,
        bodies: vec![],
        shapes: vec![],
        chain_shapes: vec![],
        joints: vec![],
        sensors: vec![],
        solver_sets: vec![],
        graph_colors: vec![],
        config: Settings {
            gravity: Vec2 { x: 0, y: 0 },
            hit_event_threshold: 0,
            restitution_threshold: 0,
            max_linear_speed: 0,
            contact_speed: 0,
            contact_hertz: 0,
            contact_damping_ratio: 0,
            contact_recycle_distance: 0,
            step_index: 0,
            split_island_id: -1,
            inv_h: 0,
            inv_dt: 0,
            end_event_array_index: 0,
            max_capacity: WorldCapacity {
                static_shape_count: 0,
                dynamic_shape_count: 0,
                static_body_count: 0,
                dynamic_body_count: 0,
                contact_count: 0,
            },
            enable_sleep: true,
            enable_warm_starting: true,
            enable_contact_softening: false,
            enable_continuous: true,
            enable_speculative: true,
        },
        body_id_pool: IdPool::new(),
        shape_id_pool: IdPool::new(),
        chain_id_pool: IdPool::new(),
        contact_id_pool: IdPool::new(),
        joint_id_pool: IdPool::new(),
        island_id_pool: IdPool::new(),
        solver_set_id_pool: IdPool::new(),
        contacts: vec![],
        islands: vec![],
        broad_phase: BroadPhase { trees: vec![], moved_proxies: vec![], move_array: vec![], pair_set: HashSet::new(16) },
    }
}

#[test]
fn replayed_shape_setters_are_performed() {
    let mut world = scene(false);
    let cmd = ShapeCommand::SetReal { opcode: OP_SHAPE_SET_FRICTION, shape: sid(0, 1), value: 0.25f32.to_bits() };
    assert!(apply_shape_command(&mut world, &cmd));
    assert_eq!(world.shapes[0].material.friction, 0.25f32.to_bits());
    let hits = ShapeCommand::Enable { opcode: OP_SHAPE_ENABLE_HIT_EVENTS, shape: sid(0, 1), flag: true };
    assert!(apply_shape_command(&mut world, &hits));
    assert!(world.shapes[0].enable_hit_events);
}

#[test]
fn replayed_shape_calls_the_world_performs_elsewhere_are_left() {
    let mut world = scene(false);
    let before = world.shapes[0].material;
    let negative = ShapeCommand::SetReal { opcode: OP_SHAPE_SET_FRICTION, shape: sid(0, 1), value: (-1.0f32).to_bits() };
    assert!(!apply_shape_command(&mut world, &negative));
    let stale = ShapeCommand::SetUserMaterial { shape: sid(0, 9), material: 3 };
    assert!(!apply_shape_command(&mut world, &stale));
    let destroy = ShapeCommand::Destroy { shape: sid(0, 1), update_body_mass: true };
    assert!(!apply_shape_command(&mut world, &destroy));
    assert_eq!(world.shapes[0].material, before);
    assert_eq!(world.shapes.len(), 4);
}
