use lib::geometry::{
    Aabb, Capsule, ChainSegment, Circle, MassData, Plane, PlaneResult, Polygon, RayResult, Rot, Segment,
    ShapeProxy, Transform, Vec2, WorldCastOutput,
};
use lib::id::{BodyId, ShapeId};
use lib::types::{
    BodyDef, BodyType, ChainDef, DistanceJointDef, ExplosionDef, Filter, FilterJointDef, JointDef, MotionLocks,
    MotorJointDef, PrismaticJointDef, RevoluteJointDef, ShapeDef, SurfaceMaterial, WeldJointDef, WheelJointDef,
};
use lib::write::{
    rec_w_aabb, rec_w_bodydef, rec_w_capsule, rec_w_chaindef, rec_w_chainseg, rec_w_circle,
    rec_w_distancejointdef, rec_w_explosiondef, rec_w_filterjointdef, rec_w_massdata, rec_w_motorjointdef,
    rec_w_planeresult, rec_w_polygon, rec_w_position, rec_w_prismaticjointdef, rec_w_rayresult,
    rec_w_revolutejointdef, rec_w_rot, rec_w_segment, rec_w_shapedef, rec_w_shapeproxy, rec_w_vec2,
    rec_w_weldjointdef, rec_w_wheeljointdef, rec_w_worldcastoutput, rec_w_worldxf, rec_w_xf,
};

fn v2(x: f32, y: f32) -> Vec2 {
    Vec2 { x: x.to_bits(), y: y.to_bits() }
}

fn f(v: f32) -> [u8; 4] {
    v.to_le_bytes()
}

fn words(buf: &[u8]) -> Vec<u32> {
    buf.chunks(4).map(|c| u32::from_le_bytes([c[0], c[1], c[2], c[3]])).collect()
}

fn base() -> JointDef {
    JointDef {
        user_data: 99,
        body_id_a: BodyId { index1: 1, world0: 0, generation: 1 },
        body_id_b: BodyId { index1: 2, world0: 0, generation: 3 },
        local_frame_a: Transform { p: v2(1.0, 0.0), q: Rot { c: 1.0f32.to_bits(), s: 0 } },
        local_frame_b: Transform { p: v2(-1.0, 0.0), q: Rot { c: 1.0f32.to_bits(), s: 0 } },
        force_threshold: f32::MAX.to_bits(),
        torque_threshold: f32::MAX.to_bits(),
        constraint_hertz: 60.0f32.to_bits(),
        constraint_damping_ratio: 2.0f32.to_bits(),
        draw_scale: 1.0f32.to_bits(),
        collide_connected: true,
    }
}

/// user data (8) + two ids (16) + two transforms (32) + five floats (20) + bool (1)
const BASE_LEN: usize = 77;

#[test]
fn vector_rotation_and_transform_writers() {
    let mut buf = Vec::new();
    rec_w_vec2(&mut buf, v2(1.5, -2.0));
    assert_eq!(buf, [f(1.5), f(-2.0)].concat());

    let mut buf = Vec::new();
    rec_w_rot(&mut buf, Rot { c: 0.0f32.to_bits(), s: 1.0f32.to_bits() });
    assert_eq!(buf, [f(0.0), f(1.0)].concat());

    let xf = Transform { p: v2(3.0, 4.0), q: Rot { c: 1.0f32.to_bits(), s: 0 } };
    let mut buf = Vec::new();
    rec_w_xf(&mut buf, xf);
    assert_eq!(buf, [f(3.0), f(4.0), f(1.0), f(0.0)].concat());
    let mut world = Vec::new();
    rec_w_worldxf(&mut world, xf);
    assert_eq!(world, buf);

    let mut buf = Vec::new();
    rec_w_position(&mut buf, v2(7.0, 8.0));
    assert_eq!(buf, [f(7.0), f(8.0)].concat());
}

#[test]
fn primitive_geometry_writers() {
    let mut buf = Vec::new();
    rec_w_circle(&mut buf, Circle { center: v2(1.0, 2.0), radius: 0.5f32.to_bits() });
    assert_eq!(buf, [f(1.0), f(2.0), f(0.5)].concat());

    let mut buf = Vec::new();
    rec_w_capsule(&mut buf, Capsule { center1: v2(0.0, -1.0), center2: v2(0.0, 1.0), radius: 0.25f32.to_bits() });
    assert_eq!(buf, [f(0.0), f(-1.0), f(0.0), f(1.0), f(0.25)].concat());

    let segment = Segment { point1: v2(-1.0, 0.0), point2: v2(1.0, 0.0) };
    let mut buf = Vec::new();
    rec_w_segment(&mut buf, segment);
    assert_eq!(buf, [f(-1.0), f(0.0), f(1.0), f(0.0)].concat());

    let mut buf = Vec::new();
    rec_w_chainseg(&mut buf, ChainSegment { ghost1: v2(-2.0, 0.0), segment, ghost2: v2(2.0, 0.0), chain_id: -1 });
    assert_eq!(buf, [f(-2.0), f(0.0), f(-1.0), f(0.0), f(1.0), f(0.0), f(2.0), f(0.0), [0xFF; 4]].concat());

    let mut buf = Vec::new();
    rec_w_massdata(&mut buf, MassData { mass: 2.0f32.to_bits(), center: v2(0.5, 0.5), rotational_inertia: 3.0f32.to_bits() });
    assert_eq!(buf, [f(2.0), f(0.5), f(0.5), f(3.0)].concat());

    let mut buf = Vec::new();
    rec_w_aabb(&mut buf, Aabb { lower_bound: v2(-1.0, -2.0), upper_bound: v2(3.0, 4.0) });
    assert_eq!(buf, [f(-1.0), f(-2.0), f(3.0), f(4.0)].concat());
}

#[test]
fn polygon_writer_emits_every_slot() {
    let zero = v2(0.0, 0.0);
    let mut vertices = [zero; 8];
    vertices[0] = v2(-1.0, -1.0);
    vertices[1] = v2(1.0, -1.0);
    vertices[2] = v2(0.0, 1.0);
    let mut normals = [zero; 8];
    normals[0] = v2(0.0, -1.0);
    let polygon = Polygon { vertices, normals, centroid: v2(0.0, -0.25), radius: 0, count: 3 };
    let mut buf = Vec::new();
    rec_w_polygon(&mut buf, &polygon);
    // 8 vertices + 8 normals + centroid, two words each, then radius and count.
    assert_eq!(buf.len(), 4 * (16 + 16 + 2 + 2));
    let w = words(&buf);
    assert_eq!(w[0], (-1.0f32).to_bits());
    assert_eq!(w[4], 0.0f32.to_bits());
    assert_eq!(w[5], 1.0f32.to_bits());
    assert_eq!(w[6], 0);
    assert_eq!(w[17], (-1.0f32).to_bits());
    assert_eq!(w[33], (-0.25f32).to_bits());
    assert_eq!(w[34], 0);
    assert_eq!(w[35], 3);
}

#[test]
fn shape_proxy_writer_clamps_the_count() {
    let mut points = [v2(0.0, 0.0); 8];
    points[0] = v2(1.0, 2.0);
    points[1] = v2(3.0, 4.0);
    let proxy = ShapeProxy { points, count: 2, radius: 0.5f32.to_bits() };
    let mut buf = Vec::new();
    rec_w_shapeproxy(&mut buf, &proxy);
    assert_eq!(buf, [[2, 0, 0, 0], f(1.0), f(2.0), f(3.0), f(4.0), f(0.5)].concat());

    let mut buf = Vec::new();
    rec_w_shapeproxy(&mut buf, &ShapeProxy { points, count: -5, radius: 0 });
    assert_eq!(buf, [0u8; 8]);

    let mut buf = Vec::new();
    rec_w_shapeproxy(&mut buf, &ShapeProxy { points, count: 100, radius: 0 });
    assert_eq!(buf.len(), 4 + 8 * 8 + 4);
    assert_eq!(&buf[0..4], &[8, 0, 0, 0]);
}

#[test]
fn query_result_writers() {
    let mut buf = Vec::new();
    rec_w_worldcastoutput(
        &mut buf,
        WorldCastOutput { normal: v2(0.0, 1.0), point: v2(5.0, 6.0), fraction: 0.5f32.to_bits(), iterations: 7, hit: true },
    );
    assert_eq!(buf, [f(0.0), f(1.0), f(5.0), f(6.0), f(0.5), [7, 0, 0, 0]].concat().into_iter().chain([1]).collect::<Vec<u8>>());

    let mut buf = Vec::new();
    let ray = RayResult {
        shape_id: ShapeId { index1: 3, world0: 1, generation: 2 },
        point: v2(1.0, 1.0),
        normal: v2(-1.0, 0.0),
        fraction: 0.25f32.to_bits(),
        node_visits: 4,
        leaf_visits: 2,
        hit: false,
    };
    rec_w_rayresult(&mut buf, &ray);
    assert_eq!(buf.len(), 8 + 8 + 8 + 4 + 4 + 4 + 1);
    assert_eq!(&buf[0..2], &[2, 0]);
    assert_eq!(&buf[2..4], &[1, 0]);
    assert_eq!(&buf[4..8], &[3, 0, 0, 0]);
    assert_eq!(&buf[28..32], &[4, 0, 0, 0]);
    assert_eq!(buf[36], 0);

    let mut buf = Vec::new();
    rec_w_planeresult(
        &mut buf,
        &PlaneResult { plane: Plane { normal: v2(0.0, 1.0), offset: 2.0f32.to_bits() }, point: v2(3.0, 0.0), hit: true },
    );
    assert_eq!(buf, [&f(0.0)[..], &f(1.0), &f(2.0), &f(3.0), &f(0.0), &[1]].concat());
}

#[test]
fn body_and_shape_definitions_drop_user_data() {
    let def = BodyDef {
        type_: BodyType::Dynamic,
        position: v2(1.0, 2.0),
        rotation: Rot { c: 1.0f32.to_bits(), s: 0 },
        linear_velocity: v2(0.0, -1.0),
        angular_velocity: 0,
        linear_damping: 0,
        angular_damping: 0,
        gravity_scale: 1.0f32.to_bits(),
        sleep_threshold: 0.05f32.to_bits(),
        name: String::from("box"),
        user_data: 1234,
        motion_locks: MotionLocks { linear_x: false, linear_y: true, angular_z: false },
        enable_sleep: true,
        is_awake: true,
        is_bullet: false,
        is_enabled: true,
        allow_fast_rotation: false,
        enable_contact_recycling: true,
    };
    let mut buf = Vec::new();
    rec_w_bodydef(&mut buf, &def);
    // type, position, rotation, velocity, five floats: 4 + 8 + 8 + 8 + 20 = 48 bytes
    assert_eq!(&buf[0..4], &[2, 0, 0, 0]);
    assert_eq!(&buf[4..8], &f(1.0));
    assert_eq!(&buf[44..48], &f(0.05));
    assert_eq!(&buf[48..50], &[3, 0]);
    assert_eq!(&buf[50..53], b"box");
    assert_eq!(&buf[53..61], &[0u8; 8]);
    assert_eq!(&buf[61..64], &[0, 1, 0]);
    assert_eq!(&buf[64..], &[1, 1, 0, 1, 0, 1]);

    let shape = ShapeDef {
        user_data: 77,
        material: SurfaceMaterial {
            friction: 0.6f32.to_bits(),
            restitution: 0,
            rolling_resistance: 0,
            tangent_speed: 0,
            user_material_id: 5,
            custom_color: 0,
        },
        density: 1.0f32.to_bits(),
        filter: Filter { category_bits: 1, mask_bits: u64::MAX, group_index: 0 },
        enable_custom_filtering: false,
        is_sensor: true,
        enable_sensor_events: true,
        enable_contact_events: true,
        enable_hit_events: false,
        enable_pre_solve_events: false,
        invoke_contact_creation: true,
        update_body_mass: true,
    };
    let mut buf = Vec::new();
    rec_w_shapedef(&mut buf, &shape);
    assert_eq!(buf.len(), 8 + 28 + 4 + 20 + 8);
    assert_eq!(&buf[0..8], &[0u8; 8]);
    assert_eq!(&buf[8..12], &f(0.6));
    assert_eq!(&buf[36..40], &f(1.0));
    assert_eq!(&buf[60..], &[0, 1, 1, 1, 0, 0, 1, 1]);
}

#[test]
fn chain_definition_inlines_points_and_materials() {
    let m = SurfaceMaterial {
        friction: 0.5f32.to_bits(),
        restitution: 0,
        rolling_resistance: 0,
        tangent_speed: 0,
        user_material_id: 3,
        custom_color: 0,
    };
    let def = ChainDef {
        user_data: 1,
        points: vec![v2(0.0, 0.0), v2(1.0, 0.0), v2(2.0, 1.0)],
        materials: vec![m],
        filter: Filter { category_bits: 2, mask_bits: 3, group_index: -2 },
        is_loop: true,
        enable_sensor_events: false,
    };
    let mut buf = Vec::new();
    rec_w_chaindef(&mut buf, &def);
    assert_eq!(buf.len(), 8 + 4 + 3 * 8 + 4 + 28 + 20 + 2);
    assert_eq!(&buf[0..8], &[0u8; 8]);
    assert_eq!(&buf[8..12], &[3, 0, 0, 0]);
    assert_eq!(&buf[28..36], &[f(2.0), f(1.0)].concat()[..]);
    assert_eq!(&buf[36..40], &[1, 0, 0, 0]);
    assert_eq!(&buf[40..44], &f(0.5));
    assert_eq!(&buf[buf.len() - 2..], &[1, 0]);
}

#[test]
fn joint_definitions_share_a_base() {
    let mut base_bytes = Vec::new();
    rec_w_filterjointdef(&mut base_bytes, &FilterJointDef { base: base() });
    assert_eq!(base_bytes.len(), BASE_LEN);
    assert_eq!(&base_bytes[0..8], &[0u8; 8]);
    assert_eq!(&base_bytes[8..16], &[1, 0, 0, 0, 1, 0, 0, 0]);
    assert_eq!(&base_bytes[16..24], &[3, 0, 0, 0, 2, 0, 0, 0]);
    assert_eq!(&base_bytes[24..28], &f(1.0));
    assert_eq!(base_bytes[BASE_LEN - 1], 1);

    let mut buf = Vec::new();
    rec_w_distancejointdef(
        &mut buf,
        &DistanceJointDef {
            base: base(),
            length: 2.0f32.to_bits(),
            enable_spring: true,
            lower_spring_force: 0,
            upper_spring_force: 0,
            hertz: 4.0f32.to_bits(),
            damping_ratio: 0,
            enable_limit: false,
            min_length: 0,
            max_length: 0,
            enable_motor: true,
            max_motor_force: 0,
            motor_speed: 0,
        },
    );
    assert_eq!(&buf[..BASE_LEN], &base_bytes[..]);
    assert_eq!(buf.len(), BASE_LEN + 4 + 1 + 16 + 1 + 8 + 1 + 8);
    assert_eq!(&buf[BASE_LEN..BASE_LEN + 4], &f(2.0));
    assert_eq!(buf[BASE_LEN + 4], 1);
    assert_eq!(&buf[BASE_LEN + 13..BASE_LEN + 17], &f(4.0));

    let mut buf = Vec::new();
    rec_w_motorjointdef(
        &mut buf,
        &MotorJointDef {
            base: base(),
            linear_velocity: v2(1.0, 0.0),
            max_velocity_force: 0,
            angular_velocity: 0,
            max_velocity_torque: 0,
            linear_hertz: 0,
            linear_damping_ratio: 0,
            max_spring_force: 0,
            angular_hertz: 0,
            angular_damping_ratio: 0,
            max_spring_torque: 9,
        },
    );
    assert_eq!(buf.len(), BASE_LEN + 8 + 36);
    assert_eq!(&buf[buf.len() - 4..], &[9, 0, 0, 0]);

    let mut buf = Vec::new();
    rec_w_prismaticjointdef(
        &mut buf,
        &PrismaticJointDef {
            base: base(),
            enable_spring: false,
            hertz: 0,
            damping_ratio: 0,
            target_translation: 0,
            enable_limit: true,
            lower_translation: (-1.0f32).to_bits(),
            upper_translation: 1.0f32.to_bits(),
            enable_motor: false,
            max_motor_force: 0,
            motor_speed: 0,
        },
    );
    assert_eq!(buf.len(), BASE_LEN + 1 + 12 + 1 + 8 + 1 + 8);
    assert_eq!(buf[BASE_LEN + 13], 1);
    assert_eq!(&buf[BASE_LEN + 14..BASE_LEN + 18], &f(-1.0));

    let mut buf = Vec::new();
    rec_w_revolutejointdef(
        &mut buf,
        &RevoluteJointDef {
            base: base(),
            target_angle: 0.5f32.to_bits(),
            enable_spring: false,
            hertz: 0,
            damping_ratio: 0,
            enable_limit: false,
            lower_angle: 0,
            upper_angle: 0,
            enable_motor: true,
            max_motor_torque: 10.0f32.to_bits(),
            motor_speed: 0,
        },
    );
    assert_eq!(buf.len(), BASE_LEN + 4 + 1 + 8 + 1 + 8 + 1 + 8);
    assert_eq!(&buf[BASE_LEN..BASE_LEN + 4], &f(0.5));
    assert_eq!(buf[BASE_LEN + 22], 1);
    assert_eq!(&buf[BASE_LEN + 23..BASE_LEN + 27], &f(10.0));

    let mut buf = Vec::new();
    rec_w_weldjointdef(
        &mut buf,
        &WeldJointDef { base: base(), linear_hertz: 1, angular_hertz: 2, linear_damping_ratio: 3, angular_damping_ratio: 4 },
    );
    assert_eq!(&buf[BASE_LEN..], &[1, 0, 0, 0, 2, 0, 0, 0, 3, 0, 0, 0, 4, 0, 0, 0]);

    let mut buf = Vec::new();
    rec_w_wheeljointdef(
        &mut buf,
        &WheelJointDef {
            base: base(),
            enable_spring: true,
            hertz: 0,
            damping_ratio: 0,
            enable_limit: false,
            lower_translation: 0,
            upper_translation: 0,
            enable_motor: false,
            max_motor_torque: 0,
            motor_speed: 0,
        },
    );
    assert_eq!(buf.len(), BASE_LEN + 1 + 8 + 1 + 8 + 1 + 8);
    assert_eq!(buf[BASE_LEN], 1);
}

#[test]
fn explosion_definition_writer() {
    let mut buf = Vec::new();
    rec_w_explosiondef(
        &mut buf,
        &ExplosionDef {
            mask_bits: 6,
            position: v2(1.0, -1.0),
            radius: 2.0f32.to_bits(),
            falloff: 0.5f32.to_bits(),
            impulse_per_length: 3.0f32.to_bits(),
        },
    );
    assert_eq!(buf, [&[6u8, 0, 0, 0, 0, 0, 0, 0][..], &f(1.0), &f(-1.0), &f(2.0), &f(0.5), &f(3.0)].concat());
}
