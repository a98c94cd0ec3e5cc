use lib::recording::apply_joint::apply_joint_command;
use lib::recording::joint_ops::JointCommand;
use lib::recording::ops::{OP_PRISMATIC_ENABLE_LIMIT, OP_PRISMATIC_SET_SPRING_HERTZ, OP_REVOLUTE_ENABLE_MOTOR};
use lib::containers::{HashSet, IdPool};
use lib::world::BroadPhase;
use lib::snapshot_tree::{Capacity as WorldCapacity, WorldConfig as Settings};
use lib::geometry::{Mat22, Rot, Transform, Vec2};
use lib::id::JointId;
use lib::joint::{
    get_joint_sim_check_type, Joint, JointPayload, JointSim, JointType, MotorJoint, PrismaticJoint, RevoluteJoint,
    Softness, AWAKE_SET,
};
use lib::motor_joint::{
    motor_joint_get_angular_damping_ratio, motor_joint_get_angular_hertz, motor_joint_get_angular_velocity,
    motor_joint_get_linear_damping_ratio, motor_joint_get_linear_hertz, motor_joint_get_linear_velocity,
    motor_joint_get_max_spring_force, motor_joint_get_max_spring_torque, motor_joint_get_max_velocity_force,
    motor_joint_get_max_velocity_torque, motor_joint_set_angular_damping_ratio, motor_joint_set_angular_hertz,
    motor_joint_set_angular_velocity, motor_joint_set_linear_damping_ratio, motor_joint_set_linear_hertz,
    motor_joint_set_linear_velocity, motor_joint_set_max_spring_force, motor_joint_set_max_spring_torque,
    motor_joint_set_max_velocity_force, motor_joint_set_max_velocity_torque,
};
use lib::prismatic_joint::{
    prismatic_joint_enable_limit, prismatic_joint_enable_motor, prismatic_joint_enable_spring,
    prismatic_joint_get_lower_limit, prismatic_joint_get_max_motor_force, prismatic_joint_get_motor_speed,
    prismatic_joint_get_spring_damping_ratio, prismatic_joint_get_spring_hertz,
    prismatic_joint_get_target_translation, prismatic_joint_get_upper_limit, prismatic_joint_is_limit_enabled,
    prismatic_joint_is_motor_enabled, prismatic_joint_is_spring_enabled, prismatic_joint_set_max_motor_force,
    prismatic_joint_set_motor_speed, prismatic_joint_set_spring_damping_ratio, prismatic_joint_set_spring_hertz,
    prismatic_joint_set_target_translation,
};
use lib::recording::Recording;
use lib::revolute_joint::{
    revolute_joint_enable_limit, revolute_joint_enable_motor, revolute_joint_enable_spring,
    revolute_joint_get_lower_limit, revolute_joint_get_max_motor_torque, revolute_joint_get_motor_speed,
    revolute_joint_get_spring_damping_ratio, revolute_joint_get_spring_hertz, revolute_joint_get_target_angle,
    revolute_joint_get_upper_limit, revolute_joint_is_limit_enabled, revolute_joint_is_motor_enabled,
    revolute_joint_is_spring_enabled, revolute_joint_set_max_motor_torque, revolute_joint_set_motor_speed,
    revolute_joint_set_spring_damping_ratio, revolute_joint_set_spring_hertz, revolute_joint_set_target_angle,
};
use lib::sensor::NULL_INDEX;
use lib::snapshot_structs::Edge;
use lib::containers::BitSet;
use lib::world::{GraphColor, SolverSet, World};

fn b(v: f32) -> u32 {
    v.to_bits()
}

fn v0() -> Vec2 {
    Vec2 { x: 0, y: 0 }
}

fn xf0() -> Transform {
    Transform { p: v0(), q: Rot { c: b(1.0), s: 0 } }
}

fn soft0() -> Softness {
    Softness { bias_rate: 0, mass_scale: 0, impulse_scale: 0 }
}

fn prismatic() -> PrismaticJoint {
    PrismaticJoint {
        impulse: v0(),
        spring_impulse: b(1.5),
        motor_impulse: b(3.0),
        lower_impulse: b(2.0),
        upper_impulse: b(2.5),
        hertz: 0,
        damping_ratio: 0,
        target_translation: 0,
        max_motor_force: 0,
        motor_speed: 0,
        lower_translation: b(-1.0),
        upper_translation: b(1.0),
        index_a: 0,
        index_b: 1,
        frame_a: xf0(),
        frame_b: xf0(),
        delta_center: v0(),
        spring_softness: soft0(),
        enable_spring: false,
        enable_limit: false,
        enable_motor: false,
    }
}

fn revolute() -> RevoluteJoint {
    RevoluteJoint {
        linear_impulse: v0(),
        spring_impulse: b(0.5),
        motor_impulse: b(0.25),
        lower_impulse: b(0.75),
        upper_impulse: b(0.125),
        hertz: 0,
        damping_ratio: 0,
        target_angle: 0,
        max_motor_torque: 0,
        motor_speed: 0,
        lower_angle: b(-0.5),
        upper_angle: b(0.5),
        index_a: 0,
        index_b: 1,
        frame_a: xf0(),
        frame_b: xf0(),
        delta_center: v0(),
        axial_mass: 0,
        spring_softness: soft0(),
        enable_spring: false,
        enable_motor: false,
        enable_limit: false,
    }
}

fn motor() -> MotorJoint {
    MotorJoint {
        linear_velocity: v0(),
        max_velocity_force: 0,
        angular_velocity: 0,
        max_velocity_torque: 0,
        linear_hertz: 0,
        linear_damping_ratio: 0,
        max_spring_force: 0,
        angular_hertz: 0,
        angular_damping_ratio: 0,
        max_spring_torque: 0,
        linear_velocity_impulse: v0(),
        angular_velocity_impulse: 0,
        linear_spring_impulse: v0(),
        angular_spring_impulse: 0,
        linear_spring: soft0(),
        angular_spring: soft0(),
        index_a: 0,
        index_b: 1,
        frame_a: xf0(),
        frame_b: xf0(),
        delta_center: v0(),
        linear_mass: Mat22 { cx: v0(), cy: v0() },
        angular_mass: 0,
    }
}

fn sim(joint_id: i32, payload: JointPayload) -> JointSim {
    JointSim {
        joint_id,
        body_id_a: 0,
        body_id_b: 1,
        local_frame_a: xf0(),
        local_frame_b: xf0(),
        inv_mass_a: b(1.0),
        inv_mass_b: b(1.0),
        inv_i_a: 0,
        inv_i_b: 0,
        constraint_hertz: b(60.0),
        constraint_damping_ratio: b(2.0),
        constraint_softness: soft0(),
        force_threshold: b(f32::MAX),
        torque_threshold: b(f32::MAX),
        payload,
    }
}

fn joint(joint_id: i32, type_: JointType, set_index: i32, color_index: i32, local_index: i32) -> Joint {
    let edge = Edge { body_id: 0, prev_key: NULL_INDEX, next_key: NULL_INDEX };
    Joint {
        user_data: 0,
        set_index,
        color_index,
        local_index,
        edges: [edge, Edge { body_id: 1, ..edge }],
        joint_id,
        island_id: NULL_INDEX,
        island_index: NULL_INDEX,
        draw_scale: b(1.0),
        type_,
        generation: 1,
        collide_connected: false,
    }
}

/// A prismatic and a motor joint awake in graph color 3; a revolute joint
/// asleep in solver set 3, after a filter joint's data.
fn scene(recording: bool) -> World {
    let mut graph_colors: Vec<GraphColor> = (0..24).map(|_| GraphColor { body_set: BitSet::new(0), contact_sims: vec![], joint_sims: vec![] }).collect();
    graph_colors[3].joint_sims = vec![sim(0, JointPayload::Prismatic(prismatic())), sim(2, JointPayload::Motor(motor()))];
    let mut solver_sets: Vec<SolverSet> = (0..4).map(|_| SolverSet { set_index: 0, body_sims: vec![], body_states: vec![], joint_sims: vec![], contact_sims: vec![], island_sims: vec![] }).collect();
    solver_sets[3].joint_sims = vec![sim(7, JointPayload::Filter), sim(1, JointPayload::Revolute(revolute()))];
    World {
        world_id: 0,
        generation: 1,
        locked: false,
        recording: if recording { Some(Recording::new(0)) } else { None },
        bodies: vec![],
        shapes: vec![],
        chain_shapes: vec![],
        joints: vec![
            joint(0, JointType::Prismatic, AWAKE_SET, 3, 0),
            joint(1, JointType::Revolute, 3, NULL_INDEX, 1),
            joint(2, JointType::Motor, AWAKE_SET, 3, 1),
        ],
        sensors: vec![],
        solver_sets,
        graph_colors,
        ..blank_world()
    }
}

fn jid(index: i32) -> JointId {
    JointId { index1: index + 1, world0: 0, generation: 1 }
}

fn prismatic_state(world: &World) -> PrismaticJoint {
    match world.graph_colors[3].joint_sims[0].payload {
        JointPayload::Prismatic(p) => p,
        _ => panic!("payload changed type"),
    }
}

fn revolute_state(world: &World) -> RevoluteJoint {
    match world.solver_sets[3].joint_sims[1].payload {
        JointPayload::Revolute(p) => p,
        _ => panic!("payload changed type"),
    }
}

#[test]
fn joint_sim_lookup_follows_the_set() {
    let world = scene(false);
    assert_eq!(get_joint_sim_check_type(&world, jid(0), JointType::Prismatic).joint_id, 0);
    assert_eq!(get_joint_sim_check_type(&world, jid(1), JointType::Revolute).joint_id, 1);
    assert_eq!(get_joint_sim_check_type(&world, jid(2), JointType::Motor).joint_id, 2);
}

#[test]
fn prismatic_switches() {
    let mut world = scene(false);
    let j = jid(0);
    prismatic_joint_enable_spring(&mut world, j, true);
    assert!(prismatic_joint_is_spring_enabled(&world, j));
    prismatic_joint_enable_limit(&mut world, j, true);
    assert!(prismatic_joint_is_limit_enabled(&world, j));
    assert!(!prismatic_joint_is_motor_enabled(&world, j));
    // Switching clears the impulses of that switch only.
    let state = prismatic_state(&world);
    assert_eq!(state.spring_impulse, 0);
    assert_eq!(state.lower_impulse, 0);
    assert_eq!(state.upper_impulse, 0);
    assert_eq!(state.motor_impulse, b(3.0));
    // Switching to the current state keeps the impulse.
    prismatic_joint_enable_motor(&mut world, j, false);
    assert_eq!(prismatic_state(&world).motor_impulse, b(3.0));
    // The other joints are untouched.
    assert_eq!(world.graph_colors[3].joint_sims[1], sim(2, JointPayload::Motor(motor())));
    assert_eq!(world.solver_sets[3].joint_sims[1], sim(1, JointPayload::Revolute(revolute())));
}

#[test]
fn prismatic_values_read_back() {
    let mut world = scene(false);
    let j = jid(0);
    prismatic_joint_set_spring_hertz(&mut world, j, b(4.0));
    prismatic_joint_set_spring_damping_ratio(&mut world, j, b(0.7));
    prismatic_joint_set_target_translation(&mut world, j, b(0.25));
    prismatic_joint_set_motor_speed(&mut world, j, b(-2.0));
    prismatic_joint_set_max_motor_force(&mut world, j, b(100.0));
    assert_eq!(prismatic_joint_get_spring_hertz(&world, j), b(4.0));
    assert_eq!(prismatic_joint_get_spring_damping_ratio(&world, j), b(0.7));
    assert_eq!(prismatic_joint_get_target_translation(&world, j), b(0.25));
    assert_eq!(prismatic_joint_get_motor_speed(&world, j), b(-2.0));
    assert_eq!(prismatic_joint_get_max_motor_force(&world, j), b(100.0));
    assert_eq!(prismatic_joint_get_lower_limit(&world, j), b(-1.0));
    assert_eq!(prismatic_joint_get_upper_limit(&world, j), b(1.0));
}

#[test]
fn revolute_switches_are_recorded() {
    let mut world = scene(true);
    let j = jid(1);
    revolute_joint_enable_spring(&mut world, j, true);
    revolute_joint_enable_limit(&mut world, j, true);
    revolute_joint_enable_motor(&mut world, j, true);
    assert!(revolute_joint_is_spring_enabled(&world, j));
    assert!(revolute_joint_is_limit_enabled(&world, j));
    assert!(revolute_joint_is_motor_enabled(&world, j));
    let state = revolute_state(&world);
    assert_eq!((state.spring_impulse, state.lower_impulse, state.upper_impulse, state.motor_impulse), (0, 0, 0, 0));
    let buf = &world.recording.as_ref().unwrap().buffer;
    // opcode, u24 size, joint id (8), flag (1)
    assert_eq!(buf.len(), 3 * 13);
    assert_eq!(buf[0], 0xBD);
    assert_eq!(&buf[1..4], &[9, 0, 0]);
    assert_eq!(&buf[4..12], &[1, 0, 0, 0, 2, 0, 0, 0]);
    assert_eq!(buf[12], 1);
    assert_eq!(buf[13], 0xC1);
    assert_eq!(buf[26], 0xC3);
}

#[test]
fn revolute_values_read_back_and_are_recorded() {
    let mut world = scene(true);
    let j = jid(1);
    revolute_joint_set_spring_hertz(&mut world, j, b(2.0));
    revolute_joint_set_spring_damping_ratio(&mut world, j, b(0.1));
    revolute_joint_set_target_angle(&mut world, j, b(0.3));
    revolute_joint_set_motor_speed(&mut world, j, b(1.0));
    revolute_joint_set_max_motor_torque(&mut world, j, b(50.0));
    assert_eq!(revolute_joint_get_spring_hertz(&world, j), b(2.0));
    assert_eq!(revolute_joint_get_spring_damping_ratio(&world, j), b(0.1));
    assert_eq!(revolute_joint_get_target_angle(&world, j), b(0.3));
    assert_eq!(revolute_joint_get_motor_speed(&world, j), b(1.0));
    assert_eq!(revolute_joint_get_max_motor_torque(&world, j), b(50.0));
    assert_eq!(revolute_joint_get_lower_limit(&world, j), b(-0.5));
    assert_eq!(revolute_joint_get_upper_limit(&world, j), b(0.5));
    let buf = &world.recording.as_ref().unwrap().buffer;
    // Each record: opcode, u24 size, joint id (8), value (4).
    assert_eq!(buf.len(), 5 * 16);
    assert_eq!(buf[0], 0xBE);
    assert_eq!(&buf[1..4], &[12, 0, 0]);
    assert_eq!(&buf[12..16], &2.0f32.to_le_bytes());
    assert_eq!(buf[16], 0xBF);
    assert_eq!(buf[32], 0xC0);
    assert_eq!(buf[48], 0xC4);
    assert_eq!(buf[64], 0xC5);
}

#[test]
fn motor_values_read_back() {
    let mut world = scene(true);
    let j = jid(2);
    let velocity = Vec2 { x: b(1.0), y: b(-1.0) };
    motor_joint_set_linear_velocity(&mut world, j, velocity);
    motor_joint_set_angular_velocity(&mut world, j, b(0.5));
    motor_joint_set_max_velocity_force(&mut world, j, b(10.0));
    motor_joint_set_max_velocity_torque(&mut world, j, b(11.0));
    motor_joint_set_linear_hertz(&mut world, j, b(12.0));
    motor_joint_set_linear_damping_ratio(&mut world, j, b(13.0));
    motor_joint_set_angular_hertz(&mut world, j, b(14.0));
    motor_joint_set_angular_damping_ratio(&mut world, j, b(15.0));
    motor_joint_set_max_spring_force(&mut world, j, b(16.0));
    motor_joint_set_max_spring_torque(&mut world, j, b(17.0));
    assert_eq!(motor_joint_get_linear_velocity(&world, j), velocity);
    assert_eq!(motor_joint_get_angular_velocity(&world, j), b(0.5));
    assert_eq!(motor_joint_get_max_velocity_force(&world, j), b(10.0));
    assert_eq!(motor_joint_get_max_velocity_torque(&world, j), b(11.0));
    assert_eq!(motor_joint_get_linear_hertz(&world, j), b(12.0));
    assert_eq!(motor_joint_get_linear_damping_ratio(&world, j), b(13.0));
    assert_eq!(motor_joint_get_angular_hertz(&world, j), b(14.0));
    assert_eq!(motor_joint_get_angular_damping_ratio(&world, j), b(15.0));
    assert_eq!(motor_joint_get_max_spring_force(&world, j), b(16.0));
    assert_eq!(motor_joint_get_max_spring_torque(&world, j), b(17.0));
    let buf = &world.recording.as_ref().unwrap().buffer;
    // The velocity record carries a vector, the nine others one value each.
    assert_eq!(buf.len(), 20 + 9 * 16);
    assert_eq!(buf[0], 0xAA);
    assert_eq!(&buf[12..20], &[1.0f32.to_le_bytes(), (-1.0f32).to_le_bytes()].concat()[..]);
    assert_eq!(buf[20], 0xAB);
    // The prismatic joint sharing the color is untouched.
    assert_eq!(prismatic_state(&world), prismatic());
}

/// A world with empty tables, settings and broad phase.
fn blank_world() -> World {
    World {
        world_id: 0,
        generation: 1,
        locked: false,
        recording: None,
        bodies: vec![],
        shapes: vec![],
        chain_shapes: vec![],
        joints: vec![],
        sensors: vec![],
        solver_sets: vec![],
        graph_colors: vec![],
        config: Settings {
            gravity: Vec2 { x: 0, y: 0 },
            hit_event_threshold: 0,
            restitution_threshold: 0,
            max_linear_speed: 0,
            contact_speed: 0,
            contact_hertz: 0,
            contact_damping_ratio: 0,
            contact_recycle_distance: 0,
            step_index: 0,
            split_island_id: -1,
            inv_h: 0,
            inv_dt: 0,
            end_event_array_index: 0,
            max_capacity: WorldCapacity {
                static_shape_count: 0,
                dynamic_shape_count: 0,
                static_body_count: 0,
                dynamic_body_count: 0,
                contact_count: 0,
            },
            enable_sleep: true,
            enable_warm_starting: true,
            enable_contact_softening: false,
            enable_continuous: true,
            enable_speculative: true,
        },
        body_id_pool: IdPool::new(),
        shape_id_pool: IdPool::new(),
        chain_id_pool: IdPool::new(),
        contact_id_pool: IdPool::new(),
        joint_id_pool: IdPool::new(),
        island_id_pool: IdPool::new(),
        solver_set_id_pool: IdPool::new(),
        contacts: vec![],
        islands: vec![],
        broad_phase: BroadPhase { trees: vec![], moved_proxies: vec![], move_array: vec![], pair_set: HashSet::new(16) },
    }
}

#[test]
fn replayed_joint_setters_are_performed() {
    let mut world = scene(false);
    let cmd = JointCommand::Real { opcode: OP_PRISMATIC_SET_SPRING_HERTZ, joint: jid(0), value: b(7.0) };
    assert!(apply_joint_command(&mut world, &cmd));
    assert_eq!(prismatic_state(&world).hertz, b(7.0));
    let flag = JointCommand::Flag { opcode: OP_REVOLUTE_ENABLE_MOTOR, joint: jid(1), flag: true };
    assert!(apply_joint_command(&mut world, &flag));
    assert!(revolute_state(&world).enable_motor);
}

#[test]
fn replayed_joint_calls_of_the_wrong_kind_are_left() {
    let mut world = scene(false);
    let wrong_type = JointCommand::Real { opcode: OP_PRISMATIC_SET_SPRING_HERTZ, joint: jid(1), value: b(7.0) };
    assert!(!apply_joint_command(&mut world, &wrong_type));
    let dead = JointCommand::Flag { opcode: OP_PRISMATIC_ENABLE_LIMIT, joint: jid(9), flag: true };
    assert!(!apply_joint_command(&mut world, &dead));
    let marker = JointCommand::Marker { opcode: 0x9F, joint: jid(0) };
    assert!(!apply_joint_command(&mut world, &marker));
    assert_eq!(prismatic_state(&world), prismatic());
}
