use lib::geometry::{Circle, MassData, Rot, Segment, Transform, Vec2};
use lib::id::{BodyId, ChainId, JointId, ShapeId, WorldId};
use lib::recording::body_ops::{read_body_command, BodyCommand};
use lib::recording::joint_ops::{read_joint_command, JointCommand, JointDefinition};
use lib::recording::ops::{
    write_body_f32_bool, write_body_marker, write_body_set_mass_data, write_body_set_motion_locks,
    write_body_set_name, write_body_set_type, write_body_vec2_point_bool, write_chain_set_surface_material,
    write_create_body, write_create_joint, write_create_shape, write_destroy_chain, write_destroy_joint,
    write_joint_f32, write_joint_f32_pair, write_joint_marker, write_joint_vec2, write_joint_xf, write_shape_apply_wind,
    write_shape_bool, write_shape_f32, write_shape_geometry, write_shape_set_density, write_shape_set_filter,
    write_world_bool, write_world_explode, write_world_f32, write_world_marker, write_world_set_contact_tuning,
    write_world_set_gravity, OP_BODY_APPLY_ANGULAR_IMPULSE, OP_BODY_APPLY_LINEAR_IMPULSE, OP_BODY_DISABLE,
    OP_CREATE_CIRCLE_SHAPE, OP_CREATE_FILTER_JOINT, OP_DESTROY_WORLD, OP_DISTANCE_SET_LENGTH,
    OP_JOINT_SET_LOCAL_FRAME_B, OP_JOINT_WAKE_BODIES, OP_MOTOR_SET_LINEAR_VELOCITY, OP_REVOLUTE_ENABLE_LIMIT,
    OP_SHAPE_ENABLE_SENSOR_EVENTS, OP_SHAPE_SET_RESTITUTION, OP_SHAPE_SET_SEGMENT, OP_STEP, OP_WHEEL_SET_LIMITS,
    OP_WORLD_ENABLE_WARM_STARTING, OP_WORLD_REBUILD_STATIC_TREE, OP_WORLD_SET_MAXIMUM_LINEAR_SPEED,
    OP_CREATE_BODY,
};
use lib::geometry::Aabb;
use lib::recording::ops::{write_destroy_world, write_recording_bounds, write_state_hash, write_step};
use lib::recording::replay::{
    replay_applied, replay_begin, replay_hashed, replay_next, replay_stepped, Command, ReplayAction,
};
use lib::recording::shape_ops::{read_shape_command, ShapeCommand};
use lib::recording::world_ops::{read_world_command, WorldCommand};
use lib::recording::{read_record_frame, Recording};
use lib::shape::ShapeGeometry;
use lib::snapshot::SnapReader;
use lib::types::{BodyDef, BodyType, ExplosionDef, Filter, FilterJointDef, JointDef, MotionLocks, ShapeDef, SurfaceMaterial};

fn b(v: f32) -> u32 {
    v.to_bits()
}

fn v2(x: f32, y: f32) -> Vec2 {
    Vec2 { x: b(x), y: b(y) }
}

fn wid() -> WorldId {
    WorldId { index1: 1, generation: 2 }
}

fn bid() -> BodyId {
    BodyId { index1: 3, world0: 0, generation: 4 }
}

fn sid() -> ShapeId {
    ShapeId { index1: 5, world0: 0, generation: 6 }
}

fn jid() -> JointId {
    JointId { index1: 7, world0: 1, generation: 8 }
}

fn material() -> SurfaceMaterial {
    SurfaceMaterial {
        friction: b(0.6),
        restitution: b(0.1),
        rolling_resistance: 0,
        tangent_speed: 0,
        user_material_id: 9,
        custom_color: 0x00ff00,
    }
}

/// The opcode and payload of the first record of a buffer.
fn first_record(buf: &[u8]) -> (u8, Vec<u8>) {
    let mut r = SnapReader::new(buf);
    let frame = read_record_frame(&mut r).expect("framed record");
    (frame.opcode, buf[r.cursor..r.cursor + frame.payload_size].to_vec())
}

/// Each record of a buffer, read by `read`, with whether the read ended
/// cleanly at the end of its payload.
fn replay<T>(buf: &[u8], read: fn(u8, &mut SnapReader) -> Option<T>) -> Vec<(Option<T>, bool)> {
    let mut out = Vec::new();
    let mut r = SnapReader::new(buf);
    while r.cursor < buf.len() {
        let frame = read_record_frame(&mut r).expect("framed record");
        let start = r.cursor;
        let payload = &buf[start..start + frame.payload_size];
        let mut pr = SnapReader::new(payload);
        let cmd = read(frame.opcode, &mut pr);
        out.push((cmd, pr.ok && pr.cursor == payload.len()));
        r.cursor = start + frame.payload_size;
    }
    out
}

#[test]
fn world_records_replay_as_recorded() {
    let mut rec = Recording::new(0);
    write_world_bool(&mut rec, OP_WORLD_ENABLE_WARM_STARTING, wid(), true);
    write_world_f32(&mut rec, OP_WORLD_SET_MAXIMUM_LINEAR_SPEED, wid(), b(400.0));
    write_world_set_gravity(&mut rec, wid(), v2(0.0, -9.8));
    let def = ExplosionDef { mask_bits: 0xF0, position: v2(1.0, 2.0), radius: b(3.0), falloff: b(0.5), impulse_per_length: b(7.0) };
    write_world_explode(&mut rec, wid(), &def);
    write_world_set_contact_tuning(&mut rec, wid(), b(30.0), b(10.0), b(3.0));
    write_world_marker(&mut rec, OP_WORLD_REBUILD_STATIC_TREE, wid());
    let cmds = replay(&rec.buffer, read_world_command);
    assert_eq!(cmds.len(), 6);
    assert!(cmds.iter().all(|c| c.1));
    assert!(matches!(cmds[0].0, Some(WorldCommand::Flag { opcode: OP_WORLD_ENABLE_WARM_STARTING, flag: true })));
    assert!(matches!(cmds[1].0, Some(WorldCommand::Real { opcode: OP_WORLD_SET_MAXIMUM_LINEAR_SPEED, value }) if value == b(400.0)));
    assert!(matches!(cmds[2].0, Some(WorldCommand::SetGravity { gravity }) if gravity == v2(0.0, -9.8)));
    match cmds[3].0 {
        Some(WorldCommand::Explode { def: d }) => {
            assert_eq!(d.mask_bits, 0xF0);
            assert_eq!(d.position, v2(1.0, 2.0));
            assert_eq!((d.radius, d.falloff, d.impulse_per_length), (b(3.0), b(0.5), b(7.0)));
        },
        _ => panic!("explosion expected"),
    }
    assert!(matches!(cmds[4].0, Some(WorldCommand::SetContactTuning { hertz, damping_ratio, push_speed })
        if (hertz, damping_ratio, push_speed) == (b(30.0), b(10.0), b(3.0))));
    assert!(matches!(cmds[5].0, Some(WorldCommand::RebuildStaticTree)));
}

#[test]
fn world_reader_refuses_other_families() {
    let payload = [2u8, 0, 1, 0, 1];
    for opcode in [OP_DESTROY_WORLD, OP_STEP, OP_CREATE_BODY, OP_CREATE_CIRCLE_SHAPE, 0xFF] {
        let mut r = SnapReader::new(&payload);
        assert!(read_world_command(opcode, &mut r).is_none());
        assert_eq!(r.cursor, 0);
        assert!(r.ok);
    }
}

#[test]
fn body_records_replay_as_recorded() {
    let mut rec = Recording::new(0);
    let def = BodyDef {
        type_: BodyType::Dynamic,
        position: v2(1.0, 2.0),
        rotation: Rot { c: b(1.0), s: 0 },
        linear_velocity: v2(0.5, 0.0),
        angular_velocity: b(0.25),
        linear_damping: 0,
        angular_damping: b(0.1),
        gravity_scale: b(1.0),
        sleep_threshold: b(0.05),
        name: String::from("wheel"),
        user_data: 77,
        motion_locks: MotionLocks { linear_x: false, linear_y: true, angular_z: false },
        enable_sleep: true,
        is_awake: true,
        is_bullet: false,
        is_enabled: true,
        allow_fast_rotation: false,
        enable_contact_recycling: true,
    };
    write_create_body(&mut rec, &def, bid());
    write_body_marker(&mut rec, OP_BODY_DISABLE, bid());
    write_body_set_type(&mut rec, bid(), BodyType::Kinematic);
    write_body_set_name(&mut rec, bid(), "crate");
    write_body_vec2_point_bool(&mut rec, OP_BODY_APPLY_LINEAR_IMPULSE, bid(), v2(0.0, 1.0), v2(2.0, 3.0), true);
    write_body_f32_bool(&mut rec, OP_BODY_APPLY_ANGULAR_IMPULSE, bid(), b(4.0), false);
    write_body_set_mass_data(&mut rec, bid(), MassData { mass: b(2.0), center: v2(0.1, 0.2), rotational_inertia: b(0.5) });
    write_body_set_motion_locks(&mut rec, bid(), MotionLocks { linear_x: true, linear_y: false, angular_z: true });
    let cmds = replay(&rec.buffer, read_body_command);
    assert_eq!(cmds.len(), 8);
    assert!(cmds.iter().all(|c| c.1));
    match &cmds[0].0 {
        Some(BodyCommand::Create { def: d, id }) => {
            assert_eq!(*id, bid());
            assert_eq!(d.name, "wheel");
            assert_eq!(d.user_data, 0);
            assert_eq!(d.type_, BodyType::Dynamic);
            assert_eq!(d.position, v2(1.0, 2.0));
            assert_eq!(d.sleep_threshold, b(0.05));
            assert_eq!(d.motion_locks, MotionLocks { linear_x: false, linear_y: true, angular_z: false });
            assert!(d.enable_sleep && d.is_awake && !d.is_bullet && d.is_enabled && !d.allow_fast_rotation);
            assert!(d.enable_contact_recycling);
        },
        _ => panic!("create expected"),
    }
    assert!(matches!(cmds[1].0, Some(BodyCommand::Marker { opcode: OP_BODY_DISABLE, body }) if body == bid()));
    assert!(matches!(cmds[2].0, Some(BodyCommand::SetType { body_type: BodyType::Kinematic, .. })));
    assert!(matches!(&cmds[3].0, Some(BodyCommand::SetName { name, .. }) if name == "crate"));
    assert!(matches!(cmds[4].0, Some(BodyCommand::PushAt { opcode: OP_BODY_APPLY_LINEAR_IMPULSE, v, point, wake: true, .. })
        if v == v2(0.0, 1.0) && point == v2(2.0, 3.0)));
    assert!(matches!(cmds[5].0, Some(BodyCommand::Turn { opcode: OP_BODY_APPLY_ANGULAR_IMPULSE, value, wake: false, .. })
        if value == b(4.0)));
    assert!(matches!(cmds[6].0, Some(BodyCommand::SetMassData { mass_data, .. })
        if mass_data == MassData { mass: b(2.0), center: v2(0.1, 0.2), rotational_inertia: b(0.5) }));
    assert!(matches!(cmds[7].0, Some(BodyCommand::SetMotionLocks { locks, .. })
        if locks == MotionLocks { linear_x: true, linear_y: false, angular_z: true }));
}

#[test]
fn body_type_numbers_past_kinematic_read_dynamic() {
    let mut payload = vec![4u8, 0, 0, 0, 3, 0, 0, 0];
    payload.extend_from_slice(&7i32.to_le_bytes());
    let mut r = SnapReader::new(&payload);
    let cmd = read_body_command(0x22, &mut r);
    assert!(matches!(cmd, Some(BodyCommand::SetType { body_type: BodyType::Dynamic, .. })));
}

#[test]
fn short_body_record_reads_zeros_and_marks_the_reader() {
    let payload = [4u8, 0, 0, 0, 3, 0, 0, 0, 1, 2];
    let mut r = SnapReader::new(&payload);
    let cmd = read_body_command(0x21, &mut r);
    assert!(matches!(cmd, Some(BodyCommand::SetLinearVelocity { v, .. }) if v == Vec2 { x: 0, y: 0 }));
    assert!(!r.ok);
}

#[test]
fn shape_records_replay_as_recorded() {
    let mut rec = Recording::new(0);
    let def = ShapeDef {
        user_data: 5,
        material: material(),
        density: b(2.0),
        filter: Filter { category_bits: 1, mask_bits: 0xFFFF, group_index: -2 },
        enable_custom_filtering: false,
        is_sensor: true,
        enable_sensor_events: true,
        enable_contact_events: false,
        enable_hit_events: true,
        enable_pre_solve_events: false,
        invoke_contact_creation: true,
        update_body_mass: true,
    };
    let circle = Circle { center: v2(0.0, 1.0), radius: b(0.5) };
    write_create_shape(&mut rec, OP_CREATE_CIRCLE_SHAPE, bid(), &def, &ShapeGeometry::Circle(circle), sid());
    write_shape_set_density(&mut rec, sid(), b(3.0), false);
    write_shape_f32(&mut rec, OP_SHAPE_SET_RESTITUTION, sid(), b(0.75));
    write_shape_bool(&mut rec, OP_SHAPE_ENABLE_SENSOR_EVENTS, sid(), true);
    write_shape_set_filter(&mut rec, sid(), Filter { category_bits: 2, mask_bits: 3, group_index: 4 });
    let seg = Segment { point1: v2(0.0, 0.0), point2: v2(1.0, 0.0) };
    write_shape_geometry(&mut rec, OP_SHAPE_SET_SEGMENT, sid(), &ShapeGeometry::Segment(seg));
    write_shape_apply_wind(&mut rec, sid(), v2(3.0, 0.0), b(1.0), b(0.5), true);
    let chain = ChainId { index1: 2, world0: 0, generation: 1 };
    write_destroy_chain(&mut rec, chain);
    write_chain_set_surface_material(&mut rec, chain, material(), 3);
    let cmds = replay(&rec.buffer, read_shape_command);
    assert_eq!(cmds.len(), 9);
    assert!(cmds.iter().all(|c| c.1));
    match cmds[0].0 {
        Some(ShapeCommand::Create { body, def: d, geometry: ShapeGeometry::Circle(c), id }) => {
            assert_eq!((body, id), (bid(), sid()));
            assert_eq!(c, circle);
            assert_eq!(d.user_data, 0);
            assert_eq!(d.material, material());
            assert_eq!(d.filter, def.filter);
            assert!(d.is_sensor && d.enable_sensor_events && !d.enable_contact_events && d.enable_hit_events);
            assert!(d.invoke_contact_creation && d.update_body_mass && !d.enable_pre_solve_events);
        },
        _ => panic!("circle create expected"),
    }
    assert!(matches!(cmds[1].0, Some(ShapeCommand::SetDensity { density, update_body_mass: false, .. }) if density == b(3.0)));
    assert!(matches!(cmds[2].0, Some(ShapeCommand::SetReal { opcode: OP_SHAPE_SET_RESTITUTION, value, .. }) if value == b(0.75)));
    assert!(matches!(cmds[3].0, Some(ShapeCommand::Enable { opcode: OP_SHAPE_ENABLE_SENSOR_EVENTS, flag: true, .. })));
    assert!(matches!(cmds[4].0, Some(ShapeCommand::SetFilter { filter, .. })
        if filter == Filter { category_bits: 2, mask_bits: 3, group_index: 4 }));
    assert!(matches!(cmds[5].0, Some(ShapeCommand::SetGeometry { geometry: ShapeGeometry::Segment(s), .. }) if s == seg));
    assert!(matches!(cmds[6].0, Some(ShapeCommand::ApplyWind { wind, drag, lift, wake: true, .. })
        if wind == v2(3.0, 0.0) && drag == b(1.0) && lift == b(0.5)));
    assert!(matches!(cmds[7].0, Some(ShapeCommand::DestroyChain { chain: c }) if c == chain));
    assert!(matches!(cmds[8].0, Some(ShapeCommand::ChainSetSurfaceMaterial { chain: c, material: m, material_index: 3 })
        if c == chain && m == material()));
}

#[test]
fn joint_records_replay_as_recorded() {
    let mut rec = Recording::new(0);
    let base = JointDef {
        user_data: 11,
        body_id_a: bid(),
        body_id_b: BodyId { index1: 9, world0: 0, generation: 1 },
        local_frame_a: Transform { p: v2(1.0, 0.0), q: Rot { c: b(1.0), s: 0 } },
        local_frame_b: Transform { p: v2(0.0, 1.0), q: Rot { c: b(1.0), s: 0 } },
        force_threshold: b(100.0),
        torque_threshold: b(50.0),
        constraint_hertz: b(60.0),
        constraint_damping_ratio: b(2.0),
        draw_scale: b(1.0),
        collide_connected: true,
    };
    let mut def_payload = Vec::new();
    lib::write::rec_w_filterjointdef(&mut def_payload, &FilterJointDef { base });
    write_create_joint(&mut rec, OP_CREATE_FILTER_JOINT, &def_payload, jid());
    write_destroy_joint(&mut rec, jid(), true);
    write_joint_xf(&mut rec, OP_JOINT_SET_LOCAL_FRAME_B, jid(), Transform { p: v2(2.0, 2.0), q: Rot { c: 0, s: b(1.0) } });
    write_joint_marker(&mut rec, OP_JOINT_WAKE_BODIES, jid());
    write_joint_f32(&mut rec, OP_DISTANCE_SET_LENGTH, jid(), b(1.5));
    write_joint_f32_pair(&mut rec, OP_WHEEL_SET_LIMITS, jid(), b(-1.0), b(1.0));
    write_joint_vec2(&mut rec, OP_MOTOR_SET_LINEAR_VELOCITY, jid(), v2(0.0, 2.0));
    lib::recording::ops::write_joint_bool(&mut rec, OP_REVOLUTE_ENABLE_LIMIT, jid(), true);
    let cmds = replay(&rec.buffer, read_joint_command);
    assert_eq!(cmds.len(), 8);
    assert!(cmds.iter().all(|c| c.1));
    match cmds[0].0 {
        Some(JointCommand::Create { def: JointDefinition::Filter(d), id }) => {
            assert_eq!(id, jid());
            assert_eq!(d.base.user_data, 0);
            assert_eq!(d.base.body_id_b, base.body_id_b);
            assert_eq!(d.base.local_frame_a, base.local_frame_a);
            assert_eq!(d.base.torque_threshold, b(50.0));
            assert!(d.base.collide_connected);
        },
        _ => panic!("filter joint create expected"),
    }
    assert!(matches!(cmds[1].0, Some(JointCommand::Destroy { wake_attached: true, .. })));
    assert!(matches!(cmds[2].0, Some(JointCommand::SetFrame { opcode: OP_JOINT_SET_LOCAL_FRAME_B, frame, .. })
        if frame.p == v2(2.0, 2.0)));
    assert!(matches!(cmds[3].0, Some(JointCommand::Marker { opcode: OP_JOINT_WAKE_BODIES, joint }) if joint == jid()));
    assert!(matches!(cmds[4].0, Some(JointCommand::Real { opcode: OP_DISTANCE_SET_LENGTH, value, .. }) if value == b(1.5)));
    assert!(matches!(cmds[5].0, Some(JointCommand::RealPair { opcode: OP_WHEEL_SET_LIMITS, a, b: hi, .. })
        if a == b(-1.0) && hi == b(1.0)));
    assert!(matches!(cmds[6].0, Some(JointCommand::Vector { opcode: OP_MOTOR_SET_LINEAR_VELOCITY, v, .. }) if v == v2(0.0, 2.0)));
    assert!(matches!(cmds[7].0, Some(JointCommand::Flag { opcode: OP_REVOLUTE_ENABLE_LIMIT, flag: true, .. })));
}

#[test]
fn joint_reader_refuses_other_families() {
    let payload = [0u8; 16];
    for opcode in [0x8Fu8, 0x9F, 0xD2, 0x40, 0x10] {
        let mut r = SnapReader::new(&payload);
        assert!(read_joint_command(opcode, &mut r).is_none());
        assert_eq!(r.cursor, 0);
    }
}

#[test]
fn shape_reader_refuses_other_families() {
    let payload = [0u8; 16];
    for opcode in [0x3Fu8, 0x46, 0x4F, 0x60, 0x70, 0x73] {
        let mut r = SnapReader::new(&payload);
        assert!(read_shape_command(opcode, &mut r).is_none());
        assert_eq!(r.cursor, 0);
    }
    let (op, _) = first_record(&{
        let mut rec = Recording::new(0);
        write_destroy_chain(&mut rec, ChainId { index1: 1, world0: 0, generation: 0 });
        rec.buffer
    });
    assert_eq!(op, 0x71);
}

#[test]
fn replay_asks_the_world_and_tallies_its_answers() {
    let mut rec = Recording::new(0);
    write_step(&mut rec, wid(), b(1.0 / 60.0), 4);
    write_state_hash(&mut rec, wid(), 0xABCD);
    write_recording_bounds(&mut rec, Aabb { lower_bound: v2(-1.0, -2.0), upper_bound: v2(3.0, 4.0) });
    write_body_marker(&mut rec, OP_BODY_DISABLE, bid());
    // an opcode no family knows is skipped by its framed size
    rec.commit_record(0x7F, &[1, 2, 3]);
    write_step(&mut rec, wid(), b(1.0 / 60.0), 4);
    write_state_hash(&mut rec, wid(), 0x1234);
    write_destroy_world(&mut rec, wid());
    write_step(&mut rec, wid(), b(1.0 / 60.0), 4);
    let stream = rec.buffer.clone();

    let mut p = replay_begin();
    match replay_next(&mut p, &stream) {
        ReplayAction::Step { dt, sub_step_count } => {
            assert_eq!((dt, sub_step_count), (b(1.0 / 60.0), 4));
            replay_stepped(&mut p);
        },
        _ => panic!("step expected"),
    }
    assert!(matches!(replay_next(&mut p, &stream), ReplayAction::HashState));
    replay_hashed(&mut p, 0xABCD);
    match replay_next(&mut p, &stream) {
        ReplayAction::Apply(Command::Body(BodyCommand::Marker { opcode: OP_BODY_DISABLE, body })) => {
            assert_eq!(body, bid());
            replay_applied(&mut p, true);
        },
        _ => panic!("body disable expected"),
    }
    assert!(p.result.have_bounds);
    assert_eq!(p.result.bounds.upper_bound, v2(3.0, 4.0));
    assert!(matches!(replay_next(&mut p, &stream), ReplayAction::Step { .. }));
    replay_stepped(&mut p);
    assert!(matches!(replay_next(&mut p, &stream), ReplayAction::HashState));
    replay_hashed(&mut p, 0x9999);
    // the session end record ends the replay; the step after it is not run
    assert!(matches!(replay_next(&mut p, &stream), ReplayAction::Finished));
    assert!(matches!(replay_next(&mut p, &stream), ReplayAction::Finished));
    assert_eq!(p.result.steps, 2);
    assert_eq!(p.result.hash_checks, 2);
    assert!(p.result.ok);
    assert!(p.result.diverged);
    assert!(!p.result.validated());
}

#[test]
fn replay_of_a_cut_stream_does_not_validate() {
    let mut rec = Recording::new(0);
    write_step(&mut rec, wid(), b(1.0 / 60.0), 4);
    let stream = &rec.buffer[..rec.buffer.len() - 2];
    let mut p = replay_begin();
    assert!(matches!(replay_next(&mut p, stream), ReplayAction::Finished));
    assert!(!p.result.ok);
    assert!(!p.result.validated());
    assert_eq!(p.result.steps, 0);
}
