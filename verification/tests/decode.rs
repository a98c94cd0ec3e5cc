use lib::geometry::{
    Aabb, Capsule, ChainSegment, Circle, Polygon, RayResult, Rot, Segment, ShapeProxy, Transform, Vec2,
    WorldCastOutput,
};
use lib::id::{BodyId, ShapeId};
use lib::recording::decode::{
    r_aabb, r_body_def, r_capsule, r_chain_segment, r_circle, r_joint_base, r_polygon, r_position, r_proxy,
    r_ray_result, r_rot, r_segment, r_shape_def, r_shape_id, r_string, r_vec2, r_world_cast_output, r_worldxf,
    r_xf,
};
use lib::recording::read::{f32_differs, r_cast_hits, r_filter, r_query_filter, vec2_differs, CastHit};
use lib::snapshot::SnapReader;
use lib::snapshot_structs::r_material;
use lib::types::{
    BodyDef, BodyType, DistanceJointDef, Filter, JointDef, MotionLocks, QueryFilter, ShapeDef, SurfaceMaterial,
};
use lib::write::{
    rec_w_aabb, rec_w_bodydef, rec_w_capsule, rec_w_chainseg, rec_w_circle, rec_w_distancejointdef,
    rec_w_filter, rec_w_material, rec_w_polygon, rec_w_position, rec_w_queryfilter, rec_w_rayresult, rec_w_rot,
    rec_w_segment, rec_w_shapedef, rec_w_shapeid, rec_w_shapeproxy, rec_w_str, rec_w_u32, rec_w_u64, rec_w_vec2,
    rec_w_worldcastoutput, rec_w_worldxf, rec_w_xf,
};

fn v2(x: f32, y: f32) -> Vec2 {
    Vec2 { x: x.to_bits(), y: y.to_bits() }
}

fn material() -> SurfaceMaterial {
    SurfaceMaterial {
        friction: 0.6f32.to_bits(),
        restitution: 0.25f32.to_bits(),
        rolling_resistance: 0.1f32.to_bits(),
        tangent_speed: (-2.0f32).to_bits(),
        user_material_id: 0x0102_0304_0506_0708,
        custom_color: 0x00FF_8800,
    }
}

fn body_def(name: &str) -> BodyDef {
    BodyDef {
        type_: BodyType::Kinematic,
        position: v2(1.0, 2.0),
        rotation: Rot { c: 0.0f32.to_bits(), s: 1.0f32.to_bits() },
        linear_velocity: v2(3.0, -1.0),
        angular_velocity: 0.5f32.to_bits(),
        linear_damping: 0.1f32.to_bits(),
        angular_damping: 0.2f32.to_bits(),
        gravity_scale: 1.0f32.to_bits(),
        sleep_threshold: 0.05f32.to_bits(),
        name: String::from(name),
        user_data: 4321,
        motion_locks: MotionLocks { linear_x: true, linear_y: false, angular_z: true },
        enable_sleep: false,
        is_awake: true,
        is_bullet: true,
        is_enabled: false,
        allow_fast_rotation: true,
        enable_contact_recycling: false,
    }
}

#[test]
fn vectors_and_transforms_read_back() {
    let mut buf = Vec::new();
    rec_w_vec2(&mut buf, v2(1.5, -2.5));
    rec_w_rot(&mut buf, Rot { c: 0.6f32.to_bits(), s: 0.8f32.to_bits() });
    let xf = Transform { p: v2(-3.0, 4.0), q: Rot { c: 1.0f32.to_bits(), s: 0 } };
    rec_w_xf(&mut buf, xf);
    rec_w_position(&mut buf, v2(7.0, 8.0));
    rec_w_worldxf(&mut buf, xf);
    let mut r = SnapReader::new(&buf);
    assert_eq!(r_vec2(&mut r), v2(1.5, -2.5));
    assert_eq!(r_rot(&mut r), Rot { c: 0.6f32.to_bits(), s: 0.8f32.to_bits() });
    assert_eq!(r_xf(&mut r), xf);
    assert_eq!(r_position(&mut r), v2(7.0, 8.0));
    assert_eq!(r_worldxf(&mut r), xf);
    assert!(r.ok);
    assert_eq!(r.cursor, buf.len());
}

#[test]
fn shapes_read_back() {
    let circle = Circle { center: v2(1.0, 1.0), radius: 0.5f32.to_bits() };
    let capsule = Capsule { center1: v2(-1.0, 0.0), center2: v2(1.0, 0.0), radius: 0.25f32.to_bits() };
    let segment = Segment { point1: v2(0.0, 0.0), point2: v2(2.0, 2.0) };
    let chain = ChainSegment { ghost1: v2(-1.0, 0.0), segment, ghost2: v2(3.0, 3.0), chain_id: -7 };
    let aabb = Aabb { lower_bound: v2(-1.0, -2.0), upper_bound: v2(3.0, 4.0) };
    let mut buf = Vec::new();
    rec_w_circle(&mut buf, circle);
    rec_w_capsule(&mut buf, capsule);
    rec_w_segment(&mut buf, segment);
    rec_w_chainseg(&mut buf, chain);
    rec_w_aabb(&mut buf, aabb);
    let mut r = SnapReader::new(&buf);
    assert_eq!(r_circle(&mut r), circle);
    assert_eq!(r_capsule(&mut r), capsule);
    assert_eq!(r_segment(&mut r), segment);
    assert_eq!(r_chain_segment(&mut r), chain);
    assert_eq!(r_aabb(&mut r), aabb);
    assert!(r.ok);
    assert_eq!(r.cursor, buf.len());
}

#[test]
fn polygon_reads_back_every_slot() {
    let mut vertices = [v2(0.0, 0.0); 8];
    vertices[0] = v2(-1.0, -1.0);
    vertices[1] = v2(1.0, -1.0);
    vertices[2] = v2(0.0, 1.0);
    vertices[7] = v2(9.0, 9.0);
    let mut normals = [v2(0.0, 0.0); 8];
    normals[0] = v2(0.0, -1.0);
    normals[5] = v2(1.0, 0.0);
    let polygon = Polygon { vertices, normals, centroid: v2(0.0, -0.25), radius: 0.01f32.to_bits(), count: 3 };
    let mut buf = Vec::new();
    rec_w_polygon(&mut buf, &polygon);
    let mut r = SnapReader::new(&buf);
    let back = r_polygon(&mut r);
    assert_eq!(back.vertices, polygon.vertices);
    assert_eq!(back.normals, polygon.normals);
    assert_eq!(back.centroid, polygon.centroid);
    assert_eq!(back.radius, polygon.radius);
    assert_eq!(back.count, 3);
    assert!(r.ok);
    assert_eq!(r.cursor, 144);
}

#[test]
fn proxy_reads_back_with_clamped_count() {
    let mut points = [v2(5.0, 5.0); 8];
    points[0] = v2(1.0, 2.0);
    points[1] = v2(3.0, 4.0);
    let proxy = ShapeProxy { points, count: 2, radius: 0.5f32.to_bits() };
    let mut buf = Vec::new();
    rec_w_shapeproxy(&mut buf, &proxy);
    let mut r = SnapReader::new(&buf);
    let back = r_proxy(&mut r);
    assert_eq!(back.count, 2);
    assert_eq!(back.points[0], v2(1.0, 2.0));
    assert_eq!(back.points[1], v2(3.0, 4.0));
    // slots the proxy does not use come back zero
    assert_eq!(back.points[2], Vec2 { x: 0, y: 0 });
    assert_eq!(back.radius, 0.5f32.to_bits());
    assert_eq!(r.cursor, 4 + 16 + 4);

    // a recorded count above the slots is clamped to eight
    let mut buf = vec![100, 0, 0, 0];
    buf.extend_from_slice(&[0u8; 8 * 8 + 4]);
    let mut r = SnapReader::new(&buf);
    assert_eq!(r_proxy(&mut r).count, 8);
    assert!(r.ok);
}

#[test]
fn query_results_read_back() {
    let ray = RayResult {
        shape_id: ShapeId { index1: 3, world0: 1, generation: 2 },
        point: v2(1.0, 1.0),
        normal: v2(-1.0, 0.0),
        fraction: 0.25f32.to_bits(),
        node_visits: 4,
        leaf_visits: 2,
        hit: true,
    };
    let out = WorldCastOutput { normal: v2(0.0, 1.0), point: v2(5.0, 6.0), fraction: 0.5f32.to_bits(), iterations: 7, hit: true };
    let mut buf = Vec::new();
    rec_w_rayresult(&mut buf, &ray);
    rec_w_worldcastoutput(&mut buf, out);
    rec_w_shapeid(&mut buf, ShapeId { index1: 9, world0: 2, generation: 5 });
    let mut r = SnapReader::new(&buf);
    assert_eq!(r_ray_result(&mut r), ray);
    assert_eq!(r_world_cast_output(&mut r), out);
    assert_eq!(r_shape_id(&mut r), ShapeId { index1: 9, world0: 2, generation: 5 });
    assert!(r.ok);
}

#[test]
fn filters_and_materials_read_back() {
    let filter = Filter { category_bits: 0x8000_0000_0000_0001, mask_bits: 6, group_index: -3 };
    let mut buf = Vec::new();
    rec_w_filter(&mut buf, filter);
    rec_w_material(&mut buf, material());
    rec_w_queryfilter(&mut buf, QueryFilter { category_bits: 2, mask_bits: 5 });
    let mut r = SnapReader::new(&buf);
    assert_eq!(r_filter(&mut r), filter);
    assert_eq!(r_material(&mut r), material());
    assert_eq!(r_query_filter(&mut r), QueryFilter { category_bits: 2, mask_bits: 5 });
    assert!(r.ok);
    assert_eq!(r.cursor, 20 + 28 + 16);
}

#[test]
fn shape_def_reads_back_without_user_data() {
    let def = ShapeDef {
        user_data: 77,
        material: material(),
        density: 2.5f32.to_bits(),
        filter: Filter { category_bits: 4, mask_bits: 12, group_index: 1 },
        enable_custom_filtering: true,
        is_sensor: false,
        enable_sensor_events: true,
        enable_contact_events: false,
        enable_hit_events: true,
        enable_pre_solve_events: false,
        invoke_contact_creation: true,
        update_body_mass: false,
    };
    let mut buf = Vec::new();
    rec_w_shapedef(&mut buf, &def);
    let mut r = SnapReader::new(&buf);
    let back = r_shape_def(&mut r);
    assert!(r.ok);
    assert_eq!(r.cursor, 68);
    assert_eq!(back.user_data, 0);
    assert_eq!(back.material, def.material);
    assert_eq!(back.density, def.density);
    assert_eq!(back.filter, def.filter);
    assert_eq!(
        [
            back.enable_custom_filtering,
            back.is_sensor,
            back.enable_sensor_events,
            back.enable_contact_events,
            back.enable_hit_events,
            back.enable_pre_solve_events,
            back.invoke_contact_creation,
            back.update_body_mass,
        ],
        [true, false, true, false, true, false, true, false]
    );
}

#[test]
fn joint_base_reads_back_without_user_data() {
    let base = JointDef {
        user_data: 99,
        body_id_a: BodyId { index1: 1, world0: 0, generation: 1 },
        body_id_b: BodyId { index1: 2, world0: 3, generation: 4 },
        local_frame_a: Transform { p: v2(1.0, 0.0), q: Rot { c: 1.0f32.to_bits(), s: 0 } },
        local_frame_b: Transform { p: v2(-1.0, 0.5), q: Rot { c: 0, s: 1.0f32.to_bits() } },
        force_threshold: f32::MAX.to_bits(),
        torque_threshold: 3.0f32.to_bits(),
        constraint_hertz: 60.0f32.to_bits(),
        constraint_damping_ratio: 2.0f32.to_bits(),
        draw_scale: 1.0f32.to_bits(),
        collide_connected: true,
    };
    let def = DistanceJointDef {
        base,
        length: 1.0f32.to_bits(),
        enable_spring: false,
        lower_spring_force: 0,
        upper_spring_force: 0,
        hertz: 0,
        damping_ratio: 0,
        enable_limit: false,
        min_length: 0,
        max_length: 0,
        enable_motor: false,
        max_motor_force: 0,
        motor_speed: 0,
    };
    let mut buf = Vec::new();
    rec_w_distancejointdef(&mut buf, &def);
    let mut r = SnapReader::new(&buf);
    let back = r_joint_base(&mut r);
    assert!(r.ok);
    assert_eq!(r.cursor, 77);
    assert_eq!(back.user_data, 0);
    assert_eq!(back.body_id_a, base.body_id_a);
    assert_eq!(back.body_id_b, base.body_id_b);
    assert_eq!(back.local_frame_a, base.local_frame_a);
    assert_eq!(back.local_frame_b, base.local_frame_b);
    assert_eq!(back.force_threshold, base.force_threshold);
    assert_eq!(back.torque_threshold, base.torque_threshold);
    assert_eq!(back.constraint_hertz, base.constraint_hertz);
    assert_eq!(back.constraint_damping_ratio, base.constraint_damping_ratio);
    assert_eq!(back.draw_scale, base.draw_scale);
    assert!(back.collide_connected);
}

#[test]
fn strings_read_back() {
    let mut buf = Vec::new();
    rec_w_str(&mut buf, "ground");
    rec_w_str(&mut buf, "");
    let mut r = SnapReader::new(&buf);
    assert_eq!(r_string(&mut r), "ground");
    assert_eq!(r_string(&mut r), "");
    assert!(r.ok);
    assert_eq!(r.cursor, 8 + 2);
}

#[test]
fn null_string_marker_reads_as_empty() {
    let buf = [0xFF, 0xFF, b'x'];
    let mut r = SnapReader::new(&buf);
    assert_eq!(r_string(&mut r), "");
    assert!(r.ok);
    assert_eq!(r.cursor, 2);
}

#[test]
fn string_bytes_come_back_one_character_each() {
    // "é" travels as two UTF-8 bytes; each comes back as its own character.
    let mut buf = Vec::new();
    rec_w_str(&mut buf, "é");
    assert_eq!(buf, [2, 0, 0xC3, 0xA9]);
    let mut r = SnapReader::new(&buf);
    assert_eq!(r_string(&mut r), "\u{C3}\u{A9}");
}

#[test]
fn truncated_string_reads_zero_characters() {
    let buf = [4, 0, b'a', b'b'];
    let mut r = SnapReader::new(&buf);
    assert_eq!(r_string(&mut r), "ab\0\0");
    assert!(!r.ok);
}

#[test]
fn body_def_reads_back_without_user_data() {
    let def = body_def("crate");
    let mut buf = Vec::new();
    rec_w_bodydef(&mut buf, &def);
    assert_eq!(buf.len(), 67 + 5);
    let mut r = SnapReader::new(&buf);
    let back = r_body_def(&mut r);
    assert!(r.ok);
    assert_eq!(r.cursor, buf.len());
    assert_eq!(back.type_, BodyType::Kinematic);
    assert_eq!(back.position, def.position);
    assert_eq!(back.rotation, def.rotation);
    assert_eq!(back.linear_velocity, def.linear_velocity);
    assert_eq!(back.angular_velocity, def.angular_velocity);
    assert_eq!(back.linear_damping, def.linear_damping);
    assert_eq!(back.angular_damping, def.angular_damping);
    assert_eq!(back.gravity_scale, def.gravity_scale);
    assert_eq!(back.sleep_threshold, def.sleep_threshold);
    assert_eq!(back.name, "crate");
    assert_eq!(back.user_data, 0);
    assert_eq!(back.motion_locks, def.motion_locks);
    assert_eq!(
        [back.enable_sleep, back.is_awake, back.is_bullet, back.is_enabled, back.allow_fast_rotation, back.enable_contact_recycling],
        [false, true, true, false, true, false]
    );
}

#[test]
fn unknown_body_type_number_reads_as_dynamic() {
    let mut buf = Vec::new();
    rec_w_bodydef(&mut buf, &body_def(""));
    buf[0] = 7;
    let mut r = SnapReader::new(&buf);
    assert_eq!(r_body_def(&mut r).type_, BodyType::Dynamic);
    buf[0] = 0;
    let mut r = SnapReader::new(&buf);
    assert_eq!(r_body_def(&mut r).type_, BodyType::Static);
}

#[test]
fn cast_hits_read_back() {
    let mut buf = Vec::new();
    rec_w_u32(&mut buf, 2);
    for (i, frac) in [(1, 0.25f32), (2, 0.75f32)] {
        rec_w_shapeid(&mut buf, ShapeId { index1: i, world0: 0, generation: 1 });
        rec_w_position(&mut buf, v2(i as f32, 0.0));
        rec_w_vec2(&mut buf, v2(0.0, 1.0));
        rec_w_u32(&mut buf, frac.to_bits());
        rec_w_u32(&mut buf, 1.0f32.to_bits());
    }
    let mut r = SnapReader::new(&buf);
    let hits = r_cast_hits(&mut r);
    assert!(r.ok);
    assert_eq!(r.cursor, 4 + 64);
    assert_eq!(
        hits,
        vec![
            CastHit {
                id: ShapeId { index1: 1, world0: 0, generation: 1 },
                point: v2(1.0, 0.0),
                normal: v2(0.0, 1.0),
                fraction: 0.25f32.to_bits(),
                user_return: 1.0f32.to_bits(),
            },
            CastHit {
                id: ShapeId { index1: 2, world0: 0, generation: 1 },
                point: v2(2.0, 0.0),
                normal: v2(0.0, 1.0),
                fraction: 0.75f32.to_bits(),
                user_return: 1.0f32.to_bits(),
            },
        ]
    );
}

#[test]
fn cast_hit_count_past_the_input_gives_none() {
    let mut buf = Vec::new();
    rec_w_u32(&mut buf, 3);
    rec_w_u64(&mut buf, 0);
    let mut r = SnapReader::new(&buf);
    assert!(r_cast_hits(&mut r).is_empty());
    assert!(!r.ok);
}

#[test]
fn short_input_reads_zero_and_marks_the_reader() {
    let buf = [1u8, 0, 0];
    let mut r = SnapReader::new(&buf);
    assert_eq!(r_vec2(&mut r), Vec2 { x: 0, y: 0 });
    assert!(!r.ok);
    assert_eq!(r.cursor, 0);
    // once bad, later reads stay zero
    assert_eq!(r_circle(&mut r), Circle { center: Vec2 { x: 0, y: 0 }, radius: 0 });
}

#[test]
fn replayed_values_compare_bit_for_bit() {
    assert!(!f32_differs(1.5f32.to_bits(), 1.5f32.to_bits()));
    // zero and negative zero are equal as reals but differ as recorded values
    assert!(f32_differs(0.0f32.to_bits(), (-0.0f32).to_bits()));
    assert!(f32_differs(f32::NAN.to_bits(), (-f32::NAN).to_bits()));
    assert!(!vec2_differs(v2(1.0, 2.0), v2(1.0, 2.0)));
    assert!(vec2_differs(v2(1.0, 2.0), v2(1.0, 2.5)));
    assert!(vec2_differs(v2(-0.0, 2.0), v2(0.0, 2.0)));
}
