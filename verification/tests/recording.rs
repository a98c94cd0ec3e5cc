use lib::containers::{HashSet, IdPool};
use lib::world::BroadPhase;
use lib::snapshot_tree::{Capacity as WorldCapacity, WorldConfig as Settings};
use lib::geometry::{Aabb, Circle, MassData, Rot, Segment, Transform, Vec2};
use lib::id::{BodyId, ChainId, JointId, ShapeId, WorldId};
use lib::recording::ops::{
    world_stop_recording,
    write_body_bool, write_body_f32, write_body_f32_bool, write_body_marker, write_body_set_mass_data,
    write_body_set_motion_locks, write_body_set_name, write_body_set_target_transform, write_body_set_transform,
    write_body_set_type, write_body_vec2, write_body_vec2_bool, write_body_vec2_point_bool, write_chain_set_surface_material,
    write_create_body, write_create_chain, write_create_joint, write_create_shape, write_destroy_chain,
    write_destroy_joint, write_destroy_shape, write_destroy_world, write_joint_f32, write_joint_f32_pair,
    write_joint_marker, write_joint_vec2, write_joint_xf, write_recording_bounds, write_shape_apply_wind,
    write_shape_bool, write_shape_f32, write_shape_geometry, write_shape_set_density, write_shape_set_filter,
    write_shape_set_user_material, write_state_hash, write_step, write_world_bool, write_world_explode,
    write_world_f32, write_world_marker, write_world_set_contact_tuning, write_world_set_gravity,
    OP_BODY_APPLY_FORCE, OP_BODY_APPLY_FORCE_TO_CENTER, OP_BODY_APPLY_TORQUE, OP_BODY_ENABLE_SLEEP,
    OP_BODY_SET_LINEAR_VELOCITY, OP_BODY_WAKE_TOUCHING, OP_CREATE_BODY, OP_CREATE_CHAIN, OP_CREATE_CIRCLE_SHAPE,
    OP_CREATE_FILTER_JOINT, OP_DESTROY_WORLD, OP_JOINT_SET_LOCAL_FRAME_A, OP_JOINT_WAKE_BODIES,
    OP_PRISMATIC_SET_LIMITS, OP_PRISMATIC_SET_SPRING_HERTZ, OP_RECORDING_BOUNDS, OP_SHAPE_ENABLE_HIT_EVENTS,
    OP_SHAPE_SET_FRICTION, OP_SHAPE_SET_SEGMENT, OP_STATE_HASH, OP_STEP, OP_WORLD_ENABLE_SLEEPING,
    OP_WORLD_EXPLODE, OP_WORLD_REBUILD_STATIC_TREE, OP_WORLD_SET_GRAVITY, OP_WORLD_SET_RESTITUTION_THRESHOLD,
    OP_MOTOR_SET_LINEAR_VELOCITY, OP_BODY_SET_TRANSFORM, OP_BODY_SET_TARGET_TRANSFORM, OP_BODY_SET_MASS_DATA,
    OP_SHAPE_SET_DENSITY, OP_SHAPE_APPLY_WIND, OP_WORLD_SET_CONTACT_TUNING,
};
use lib::recording::query::{
    record_query_result, QueryRecorder, OP_QUERY_CAST_RAY_CLOSEST, OP_QUERY_OVERLAP_AABB, OP_SHAPE_TEST_POINT,
};
use lib::recording::read::{r_overlap_hits, OverlapHit};
use lib::recording::{fnv_mix_bytes, fnv_mix_float, fnv_mix_int, fnv_mix_position, fnv_mix_vec2_bytes, read_record_frame, Recording, SNAP_FNV_INIT, SNAP_FNV_PRIME};
use lib::shape::ShapeGeometry;
use lib::snapshot::SnapReader;
use lib::types::{
    BodyDef, BodyType, ChainDef, ExplosionDef, Filter, MotionLocks, ShapeDef, SurfaceMaterial, TreeStats,
};
use lib::world::World;

fn b(v: f32) -> u32 {
    v.to_bits()
}

fn v2(x: f32, y: f32) -> Vec2 {
    Vec2 { x: b(x), y: b(y) }
}

/// The opcode and payload of each record of a buffer, in order.
fn records(buf: &[u8]) -> Vec<(u8, Vec<u8>)> {
    let mut out = Vec::new();
    let mut r = SnapReader::new(buf);
    while r.cursor < buf.len() {
        let frame = read_record_frame(&mut r).expect("framed record");
        let start = r.cursor;
        out.push((frame.opcode, buf[start..start + frame.payload_size].to_vec()));
        r.cursor = start + frame.payload_size;
    }
    out
}

fn wid() -> WorldId {
    WorldId { index1: 1, generation: 2 }
}

fn bid() -> BodyId {
    BodyId { index1: 3, world0: 0, generation: 4 }
}

fn sid() -> ShapeId {
    ShapeId { index1: 5, world0: 0, generation: 6 }
}

fn jid() -> JointId {
    JointId { index1: 7, world0: 0, generation: 8 }
}

fn material() -> SurfaceMaterial {
    SurfaceMaterial {
        friction: b(0.6),
        restitution: 0,
        rolling_resistance: 0,
        tangent_speed: 0,
        user_material_id: 2,
        custom_color: 0,
    }
}

const WORLD: [u8; 4] = [2, 0, 1, 0];
const BODY: [u8; 8] = [4, 0, 0, 0, 3, 0, 0, 0];
const SHAPE: [u8; 8] = [6, 0, 0, 0, 5, 0, 0, 0];
const JOINT: [u8; 8] = [8, 0, 0, 0, 7, 0, 0, 0];

#[test]
fn world_ops_are_framed() {
    let mut rec = Recording::new(0);
    write_world_bool(&mut rec, OP_WORLD_ENABLE_SLEEPING, wid(), true);
    write_world_f32(&mut rec, OP_WORLD_SET_RESTITUTION_THRESHOLD, wid(), b(1.5));
    write_world_marker(&mut rec, OP_WORLD_REBUILD_STATIC_TREE, wid());
    write_world_set_gravity(&mut rec, wid(), v2(0.0, -10.0));
    write_world_set_contact_tuning(&mut rec, wid(), b(30.0), b(10.0), b(3.0));
    write_world_explode(
        &mut rec,
        wid(),
        &ExplosionDef { mask_bits: 1, position: v2(0.0, 0.0), radius: b(2.0), falloff: 0, impulse_per_length: b(5.0) },
    );
    write_step(&mut rec, wid(), b(1.0 / 60.0), 4);
    write_state_hash(&mut rec, wid(), 0x0102030405060708);
    write_recording_bounds(&mut rec, Aabb { lower_bound: v2(-1.0, -1.0), upper_bound: v2(1.0, 1.0) });
    write_destroy_world(&mut rec, wid());
    let rs = records(&rec.buffer);
    assert_eq!(rs.len(), 10);
    assert_eq!(rs[0], (OP_WORLD_ENABLE_SLEEPING, [&WORLD[..], &[1]].concat()));
    assert_eq!(rs[1], (OP_WORLD_SET_RESTITUTION_THRESHOLD, [&WORLD[..], &1.5f32.to_le_bytes()].concat()));
    assert_eq!(rs[2], (OP_WORLD_REBUILD_STATIC_TREE, WORLD.to_vec()));
    assert_eq!(rs[3], (OP_WORLD_SET_GRAVITY, [&WORLD[..], &0.0f32.to_le_bytes(), &(-10.0f32).to_le_bytes()].concat()));
    assert_eq!(rs[4].0, OP_WORLD_SET_CONTACT_TUNING);
    assert_eq!(rs[4].1.len(), 4 + 12);
    assert_eq!(rs[5].0, OP_WORLD_EXPLODE);
    assert_eq!(rs[5].1.len(), 4 + 8 + 8 + 12);
    assert_eq!(rs[6], (OP_STEP, [&WORLD[..], &(1.0f32 / 60.0).to_le_bytes(), &4i32.to_le_bytes()].concat()));
    assert_eq!(rs[7], (OP_STATE_HASH, [&WORLD[..], &0x0102030405060708u64.to_le_bytes()].concat()));
    assert_eq!(rs[8].0, OP_RECORDING_BOUNDS);
    assert_eq!(rs[8].1.len(), 16);
    assert_eq!(rs[9], (OP_DESTROY_WORLD, WORLD.to_vec()));
}

#[test]
fn body_ops_are_framed() {
    let mut rec = Recording::new(0);
    write_body_marker(&mut rec, OP_BODY_WAKE_TOUCHING, bid());
    write_body_bool(&mut rec, OP_BODY_ENABLE_SLEEP, bid(), false);
    write_body_f32(&mut rec, OP_BODY_APPLY_TORQUE, bid(), b(2.0));
    write_body_vec2(&mut rec, OP_BODY_SET_LINEAR_VELOCITY, bid(), v2(1.0, 0.0));
    write_body_vec2_point_bool(&mut rec, OP_BODY_APPLY_FORCE, bid(), v2(0.0, 1.0), v2(2.0, 3.0), true);
    write_body_vec2_bool(&mut rec, OP_BODY_APPLY_FORCE_TO_CENTER, bid(), v2(0.0, 1.0), false);
    write_body_f32_bool(&mut rec, OP_BODY_APPLY_TORQUE, bid(), b(4.0), true);
    let xf = Transform { p: v2(1.0, 2.0), q: Rot { c: b(1.0), s: 0 } };
    write_body_set_transform(&mut rec, bid(), v2(1.0, 2.0), Rot { c: b(1.0), s: 0 });
    write_body_set_target_transform(&mut rec, bid(), xf, b(0.5), true);
    write_body_set_mass_data(&mut rec, bid(), MassData { mass: b(1.0), center: v2(0.0, 0.0), rotational_inertia: b(0.5) });
    write_body_set_type(&mut rec, bid(), BodyType::Kinematic);
    write_body_set_name(&mut rec, bid(), "crate");
    write_body_set_motion_locks(&mut rec, bid(), MotionLocks { linear_x: true, linear_y: false, angular_z: true });
    let rs = records(&rec.buffer);
    assert_eq!(rs.len(), 13);
    assert_eq!(rs[0], (OP_BODY_WAKE_TOUCHING, BODY.to_vec()));
    assert_eq!(rs[1], (OP_BODY_ENABLE_SLEEP, [&BODY[..], &[0]].concat()));
    assert_eq!(rs[2].1, [&BODY[..], &2.0f32.to_le_bytes()].concat());
    assert_eq!(rs[3].1.len(), 8 + 8);
    assert_eq!(rs[4], (OP_BODY_APPLY_FORCE, [&BODY[..], &0.0f32.to_le_bytes(), &1.0f32.to_le_bytes(),
        &2.0f32.to_le_bytes(), &3.0f32.to_le_bytes(), &[1]].concat()));
    assert_eq!(rs[5].1.len(), 8 + 8 + 1);
    assert_eq!(rs[6].1, [&BODY[..], &4.0f32.to_le_bytes(), &[1]].concat());
    assert_eq!(rs[7].0, OP_BODY_SET_TRANSFORM);
    assert_eq!(rs[7].1.len(), 8 + 8 + 8);
    assert_eq!(rs[8].0, OP_BODY_SET_TARGET_TRANSFORM);
    assert_eq!(rs[8].1.len(), 8 + 16 + 4 + 1);
    assert_eq!(rs[9].0, OP_BODY_SET_MASS_DATA);
    assert_eq!(rs[9].1.len(), 8 + 16);
    assert_eq!(rs[10].1, [&BODY[..], &1i32.to_le_bytes()].concat());
    assert_eq!(rs[11].1, [&BODY[..], &[5, 0], b"crate"].concat());
    assert_eq!(rs[12].1, [&BODY[..], &[1, 0, 1]].concat());
}

#[test]
fn shape_chain_and_joint_ops_are_framed() {
    let mut rec = Recording::new(0);
    write_destroy_shape(&mut rec, sid(), true);
    write_shape_bool(&mut rec, OP_SHAPE_ENABLE_HIT_EVENTS, sid(), true);
    write_shape_f32(&mut rec, OP_SHAPE_SET_FRICTION, sid(), b(0.3));
    write_shape_set_density(&mut rec, sid(), b(2.0), false);
    write_shape_set_user_material(&mut rec, sid(), 77);
    write_shape_set_filter(&mut rec, sid(), Filter { category_bits: 1, mask_bits: 2, group_index: 3 });
    let segment = Segment { point1: v2(0.0, 0.0), point2: v2(1.0, 0.0) };
    write_shape_geometry(&mut rec, OP_SHAPE_SET_SEGMENT, sid(), &ShapeGeometry::Segment(segment));
    write_shape_apply_wind(&mut rec, sid(), v2(1.0, 0.0), b(0.1), b(0.2), true);
    let chain = ChainId { index1: 2, world0: 0, generation: 1 };
    write_destroy_chain(&mut rec, chain);
    write_chain_set_surface_material(&mut rec, chain, material(), 1);
    write_destroy_joint(&mut rec, jid(), true);
    write_joint_marker(&mut rec, OP_JOINT_WAKE_BODIES, jid());
    write_joint_f32(&mut rec, OP_PRISMATIC_SET_SPRING_HERTZ, jid(), b(5.0));
    write_joint_f32_pair(&mut rec, OP_PRISMATIC_SET_LIMITS, jid(), b(-1.0), b(1.0));
    write_joint_vec2(&mut rec, OP_MOTOR_SET_LINEAR_VELOCITY, jid(), v2(2.0, 0.0));
    write_joint_xf(&mut rec, OP_JOINT_SET_LOCAL_FRAME_A, jid(), Transform { p: v2(1.0, 0.0), q: Rot { c: b(1.0), s: 0 } });
    let rs = records(&rec.buffer);
    assert_eq!(rs.len(), 16);
    assert_eq!(rs[0].1, [&SHAPE[..], &[1]].concat());
    assert_eq!(rs[1], (OP_SHAPE_ENABLE_HIT_EVENTS, [&SHAPE[..], &[1]].concat()));
    assert_eq!(rs[2], (OP_SHAPE_SET_FRICTION, [&SHAPE[..], &0.3f32.to_le_bytes()].concat()));
    assert_eq!(rs[3], (OP_SHAPE_SET_DENSITY, [&SHAPE[..], &2.0f32.to_le_bytes(), &[0]].concat()));
    assert_eq!(rs[4].1, [&SHAPE[..], &77u64.to_le_bytes()].concat());
    assert_eq!(rs[5].1.len(), 8 + 20);
    assert_eq!(rs[6], (OP_SHAPE_SET_SEGMENT, [&SHAPE[..], &0.0f32.to_le_bytes(), &0.0f32.to_le_bytes(),
        &1.0f32.to_le_bytes(), &0.0f32.to_le_bytes()].concat()));
    assert_eq!(rs[7].0, OP_SHAPE_APPLY_WIND);
    assert_eq!(rs[7].1.len(), 8 + 8 + 4 + 4 + 1);
    assert_eq!(rs[8].1, [1, 0, 0, 0, 2, 0, 0, 0]);
    assert_eq!(rs[9].1.len(), 8 + 28 + 4);
    assert_eq!(rs[10].1, [&JOINT[..], &[1]].concat());
    assert_eq!(rs[11], (OP_JOINT_WAKE_BODIES, JOINT.to_vec()));
    assert_eq!(rs[12], (OP_PRISMATIC_SET_SPRING_HERTZ, [&JOINT[..], &5.0f32.to_le_bytes()].concat()));
    assert_eq!(rs[13], (OP_PRISMATIC_SET_LIMITS, [&JOINT[..], &(-1.0f32).to_le_bytes(), &1.0f32.to_le_bytes()].concat()));
    assert_eq!(rs[14].1, [&JOINT[..], &2.0f32.to_le_bytes(), &0.0f32.to_le_bytes()].concat());
    assert_eq!(rs[15].1.len(), 8 + 16);
}

#[test]
fn create_ops_carry_the_returned_id() {
    let mut rec = Recording::new(0);
    let body_def = BodyDef {
        type_: BodyType::Dynamic,
        position: v2(0.0, 4.0),
        rotation: Rot { c: b(1.0), s: 0 },
        linear_velocity: v2(0.0, 0.0),
        angular_velocity: 0,
        linear_damping: 0,
        angular_damping: 0,
        gravity_scale: b(1.0),
        sleep_threshold: b(0.05),
        name: String::from("ball"),
        user_data: 9,
        motion_locks: MotionLocks { linear_x: false, linear_y: false, angular_z: false },
        enable_sleep: true,
        is_awake: true,
        is_bullet: false,
        is_enabled: true,
        allow_fast_rotation: false,
        enable_contact_recycling: true,
    };
    write_create_body(&mut rec, &body_def, bid());
    let shape_def = ShapeDef {
        user_data: 0,
        material: material(),
        density: b(1.0),
        filter: Filter { category_bits: 1, mask_bits: u64::MAX, group_index: 0 },
        enable_custom_filtering: false,
        is_sensor: false,
        enable_sensor_events: false,
        enable_contact_events: true,
        enable_hit_events: false,
        enable_pre_solve_events: false,
        invoke_contact_creation: false,
        update_body_mass: true,
    };
    let circle = Circle { center: v2(0.0, 0.0), radius: b(0.5) };
    write_create_shape(&mut rec, OP_CREATE_CIRCLE_SHAPE, bid(), &shape_def, &ShapeGeometry::Circle(circle), sid());
    let chain_def = ChainDef {
        user_data: 0,
        points: vec![v2(0.0, 0.0), v2(1.0, 0.0), v2(2.0, 0.0), v2(3.0, 0.0)],
        materials: vec![material()],
        filter: Filter { category_bits: 1, mask_bits: 1, group_index: 0 },
        is_loop: false,
        enable_sensor_events: false,
    };
    let chain = ChainId { index1: 1, world0: 0, generation: 1 };
    write_create_chain(&mut rec, bid(), &chain_def, chain);
    let def_payload = [0xAAu8; 77];
    write_create_joint(&mut rec, OP_CREATE_FILTER_JOINT, &def_payload, jid());
    let rs = records(&rec.buffer);
    assert_eq!(rs.len(), 4);

    let (op, p) = &rs[0];
    assert_eq!(*op, OP_CREATE_BODY);
    assert_eq!(&p[0..4], &[1, 0, 0, 0]);
    assert_eq!(&p[p.len() - 8..], &BODY);
    // world word + def (67 bytes besides the name) + id
    assert_eq!(p.len(), 4 + 67 + 4 + 8);

    let (op, p) = &rs[1];
    assert_eq!(*op, OP_CREATE_CIRCLE_SHAPE);
    assert_eq!(&p[0..8], &BODY);
    assert_eq!(&p[8 + 68..8 + 68 + 12], &[0.0f32.to_le_bytes(), 0.0f32.to_le_bytes(), 0.5f32.to_le_bytes()].concat()[..]);
    assert_eq!(&p[p.len() - 8..], &SHAPE);

    let (op, p) = &rs[2];
    assert_eq!(*op, OP_CREATE_CHAIN);
    assert_eq!(p.len(), 54 + 8 * 4 + 28);
    assert_eq!(&p[p.len() - 8..], &[1, 0, 0, 0, 1, 0, 0, 0]);

    let (op, p) = &rs[3];
    assert_eq!(*op, OP_CREATE_FILTER_JOINT);
    assert_eq!(&p[0..4], &[1, 0, 0, 0]);
    assert_eq!(&p[4..81], &def_payload[..]);
    assert_eq!(&p[81..], &JOINT);
}

#[test]
fn record_frame_reader_rejects_short_records() {
    let mut rec = Recording::new(0);
    write_world_marker(&mut rec, OP_WORLD_REBUILD_STATIC_TREE, wid());
    let buf = rec.buffer.clone();
    let mut r = SnapReader::new(&buf);
    let frame = read_record_frame(&mut r).unwrap();
    assert_eq!(frame.opcode, OP_WORLD_REBUILD_STATIC_TREE);
    assert_eq!(frame.payload_size, 4);
    assert_eq!(r.cursor, 4);
    // Header cut short.
    let mut r = SnapReader::new(&buf[..3]);
    assert!(read_record_frame(&mut r).is_none());
    assert!(!r.ok);
    // Payload runs past the end.
    let mut r = SnapReader::new(&buf[..6]);
    assert!(read_record_frame(&mut r).is_none());
    assert!(r.ok);
}

fn empty_world(recording: bool) -> World {
    World {
        world_id: 0,
        generation: 1,
        locked: false,
        recording: if recording { Some(Recording::new(0)) } else { None },
        bodies: vec![],
        shapes: vec![],
        chain_shapes: vec![],
        joints: vec![],
        sensors: vec![],
        solver_sets: vec![],
        graph_colors: vec![],
        ..blank_world()
    }
}

#[test]
fn query_recorder_counts_hits_and_appends_stats() {
    let mut world = empty_world(true);
    let args = [9u8, 8, 7];
    let mut q = QueryRecorder::begin(&world, &args);
    assert!(q.active());
    // two hits as the query reports them: shape id and callback result
    q.buf.extend_from_slice(&[6, 0, 0, 0, 5, 0, 0, 0, 1]);
    q.buf.extend_from_slice(&[6, 0, 0, 0, 6, 0, 0, 0, 0]);
    q.hits = 2;
    q.commit(&mut world, OP_QUERY_OVERLAP_AABB, Some(TreeStats { node_visits: 10, leaf_visits: 3 }));
    let buf = world.recording.as_ref().unwrap().buffer.clone();
    let rs = records(&buf);
    assert_eq!(rs.len(), 1);
    let (op, p) = &rs[0];
    assert_eq!(*op, OP_QUERY_OVERLAP_AABB);
    assert_eq!(&p[0..4], &[1, 0, 0, 0]);
    assert_eq!(&p[4..7], &args);
    assert_eq!(&p[7..11], &[2, 0, 0, 0]);
    assert_eq!(&p[p.len() - 8..], &[10, 0, 0, 0, 3, 0, 0, 0]);
    // The hits read back after the arguments.
    let mut r = SnapReader::new(&p[7..p.len() - 8]);
    let hits = r_overlap_hits(&mut r);
    assert_eq!(
        hits,
        vec![
            OverlapHit { id: ShapeId { index1: 5, world0: 0, generation: 6 }, user_return: true },
            OverlapHit { id: ShapeId { index1: 6, world0: 0, generation: 6 }, user_return: false },
        ]
    );
}

#[test]
fn inactive_query_recorder_records_nothing() {
    let mut world = empty_world(false);
    let q = QueryRecorder::begin(&world, &[1, 2, 3]);
    assert!(!q.active());
    assert!(q.buf.is_empty());
    q.commit(&mut world, OP_QUERY_OVERLAP_AABB, None);
    assert!(world.recording.is_none());
}

#[test]
fn fnv_mixing() {
    let mut expected = SNAP_FNV_INIT;
    for byte in [1u8, 2, 3] {
        expected = (expected ^ byte as u64).wrapping_mul(SNAP_FNV_PRIME);
    }
    assert_eq!(fnv_mix_bytes(SNAP_FNV_INIT, &[1, 2, 3]), expected);
    // Mixing in parts is mixing at once.
    assert_eq!(fnv_mix_bytes(fnv_mix_bytes(SNAP_FNV_INIT, &[1]), &[2, 3]), expected);
    assert_eq!(fnv_mix_int(SNAP_FNV_INIT, -1), (SNAP_FNV_INIT ^ 0xFFFF_FFFF).wrapping_mul(SNAP_FNV_PRIME));
}

#[test]
fn self_contained_query_records() {
    let mut world = empty_world(true);
    record_query_result(&mut world, OP_QUERY_CAST_RAY_CLOSEST, &[7, 7], &[9]);
    record_query_result(&mut world, OP_SHAPE_TEST_POINT, &[5], &[1]);
    let buf = &world.recording.as_ref().unwrap().buffer;
    // world word, arguments, result
    assert_eq!(&buf[..11], &[OP_QUERY_CAST_RAY_CLOSEST, 7, 0, 0, 1, 0, 0, 0, 7, 7, 9]);
    // the shape-local queries carry no world word
    assert_eq!(&buf[11..], &[OP_SHAPE_TEST_POINT, 2, 0, 0, 5, 1]);

    let mut quiet = empty_world(false);
    record_query_result(&mut quiet, OP_SHAPE_TEST_POINT, &[5], &[1]);
    assert!(quiet.recording.is_none());
}

#[test]
fn stopping_appends_bounds_and_end_marker() {
    let mut world = empty_world(true);
    world.world_id = 2;
    let mut stopped = world_stop_recording(&mut world).unwrap();
    assert!(world.recording.is_none());
    // no bounds were folded in: the zero box, then the end marker for world 3
    let mut want = vec![0xF2, 16, 0, 0];
    want.extend_from_slice(&[0u8; 16]);
    want.extend_from_slice(&[0x01, 4, 0, 0, 1, 0, 3, 0]);
    assert_eq!(stopped.buffer, want);

    // folded-in bounds are what a stopped session records
    let mut world = empty_world(true);
    {
        let rec = world.recording.as_mut().unwrap();
        rec.accumulated_bounds = Aabb { lower_bound: v2(-1.0, -2.0), upper_bound: v2(3.0, 4.0) };
        rec.have_bounds = true;
    }
    stopped = world_stop_recording(&mut world).unwrap();
    assert_eq!(&stopped.buffer[4..8], &(-1.0f32).to_le_bytes());
    assert_eq!(&stopped.buffer[16..20], &4.0f32.to_le_bytes());

    // nothing to stop
    assert!(world_stop_recording(&mut world).is_none());
}

#[test]
fn position_and_vector_mixing() {
    let p = v2(1.5, -2.0);
    let step = |h: u64, x: u64| (h ^ x).wrapping_mul(SNAP_FNV_PRIME);
    let want = step(step(SNAP_FNV_INIT, 1.5f32.to_bits() as u64), (-2.0f32).to_bits() as u64);
    assert_eq!(fnv_mix_position(SNAP_FNV_INIT, p), want);
    assert_eq!(fnv_mix_float(SNAP_FNV_INIT, 1.5f32.to_bits()), step(SNAP_FNV_INIT, 1.5f32.to_bits() as u64));
    let bytes: Vec<u8> = [1.5f32.to_le_bytes(), (-2.0f32).to_le_bytes()].concat();
    assert_eq!(fnv_mix_vec2_bytes(SNAP_FNV_INIT, p), fnv_mix_bytes(SNAP_FNV_INIT, &bytes));
    // a position mixes whole words, not bytes
    assert_ne!(fnv_mix_position(SNAP_FNV_INIT, p), fnv_mix_vec2_bytes(SNAP_FNV_INIT, p));
}

/// A world with empty tables, settings and broad phase.
fn blank_world() -> World {
    World {
        world_id: 0,
        generation: 1,
        locked: false,
        recording: None,
        bodies: vec![],
        shapes: vec![],
        chain_shapes: vec![],
        joints: vec![],
        sensors: vec![],
        solver_sets: vec![],
        graph_colors: vec![],
        config: Settings {
            gravity: Vec2 { x: 0, y: 0 },
            hit_event_threshold: 0,
            restitution_threshold: 0,
            max_linear_speed: 0,
            contact_speed: 0,
            contact_hertz: 0,
            contact_damping_ratio: 0,
            contact_recycle_distance: 0,
            step_index: 0,
            split_island_id: -1,
            inv_h: 0,
            inv_dt: 0,
            end_event_array_index: 0,
            max_capacity: WorldCapacity {
                static_shape_count: 0,
                dynamic_shape_count: 0,
                static_body_count: 0,
                dynamic_body_count: 0,
                contact_count: 0,
            },
            enable_sleep: true,
            enable_warm_starting: true,
            enable_contact_softening: false,
            enable_continuous: true,
            enable_speculative: true,
        },
        body_id_pool: IdPool::new(),
        shape_id_pool: IdPool::new(),
        chain_id_pool: IdPool::new(),
        contact_id_pool: IdPool::new(),
        joint_id_pool: IdPool::new(),
        island_id_pool: IdPool::new(),
        solver_set_id_pool: IdPool::new(),
        contacts: vec![],
        islands: vec![],
        broad_phase: BroadPhase { trees: vec![], moved_proxies: vec![], move_array: vec![], pair_set: HashSet::new(16) },
    }
}
