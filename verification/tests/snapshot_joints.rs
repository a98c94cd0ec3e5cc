use lib::geometry::{Mat22, Rot, Transform, Vec2};
use lib::joint::{
    DistanceJoint, Joint, JointPayload, JointSim, JointType, MotorJoint, PrismaticJoint, RevoluteJoint, Softness,
    WeldJoint, WheelJoint,
};
use lib::snapshot::SnapReader;
use lib::snapshot_joints::{des_joint, des_joint_sim, des_payload, ser_joint, ser_joint_sim, ser_payload};
use lib::snapshot_structs::Edge;

/// A distinct bit pattern per call, so that a swapped field shows.
struct Counter(u32);

impl Counter {
    fn next(&mut self) -> u32 {
        self.0 += 1;
        self.0.wrapping_mul(0x9E37_79B9)
    }
    fn v2(&mut self) -> Vec2 {
        Vec2 { x: self.next(), y: self.next() }
    }
    fn xf(&mut self) -> Transform {
        Transform { p: self.v2(), q: Rot { c: self.next(), s: self.next() } }
    }
    fn soft(&mut self) -> Softness {
        Softness { bias_rate: self.next(), mass_scale: self.next(), impulse_scale: self.next() }
    }
}

fn payloads() -> Vec<JointPayload> {
    let mut c = Counter(0);
    let distance = DistanceJoint {
        length: c.next(),
        hertz: c.next(),
        damping_ratio: c.next(),
        lower_spring_force: c.next(),
        upper_spring_force: c.next(),
        min_length: c.next(),
        max_length: c.next(),
        max_motor_force: c.next(),
        motor_speed: c.next(),
        impulse: c.next(),
        lower_impulse: c.next(),
        upper_impulse: c.next(),
        motor_impulse: c.next(),
        index_a: -1,
        index_b: 7,
        anchor_a: c.v2(),
        anchor_b: c.v2(),
        delta_center: c.v2(),
        distance_softness: c.soft(),
        axial_mass: c.next(),
        enable_spring: true,
        enable_limit: false,
        enable_motor: true,
    };
    let motor = MotorJoint {
        linear_velocity: c.v2(),
        max_velocity_force: c.next(),
        angular_velocity: c.next(),
        max_velocity_torque: c.next(),
        linear_hertz: c.next(),
        linear_damping_ratio: c.next(),
        max_spring_force: c.next(),
        angular_hertz: c.next(),
        angular_damping_ratio: c.next(),
        max_spring_torque: c.next(),
        linear_velocity_impulse: c.v2(),
        angular_velocity_impulse: c.next(),
        linear_spring_impulse: c.v2(),
        angular_spring_impulse: c.next(),
        linear_spring: c.soft(),
        angular_spring: c.soft(),
        index_a: 3,
        index_b: -2,
        frame_a: c.xf(),
        frame_b: c.xf(),
        delta_center: c.v2(),
        linear_mass: Mat22 { cx: c.v2(), cy: c.v2() },
        angular_mass: c.next(),
    };
    let prismatic = PrismaticJoint {
        impulse: c.v2(),
        spring_impulse: c.next(),
        motor_impulse: c.next(),
        lower_impulse: c.next(),
        upper_impulse: c.next(),
        hertz: c.next(),
        damping_ratio: c.next(),
        target_translation: c.next(),
        max_motor_force: c.next(),
        motor_speed: c.next(),
        lower_translation: c.next(),
        upper_translation: c.next(),
        index_a: 0,
        index_b: 1,
        frame_a: c.xf(),
        frame_b: c.xf(),
        delta_center: c.v2(),
        spring_softness: c.soft(),
        enable_spring: false,
        enable_limit: true,
        enable_motor: true,
    };
    let revolute = RevoluteJoint {
        linear_impulse: c.v2(),
        spring_impulse: c.next(),
        motor_impulse: c.next(),
        lower_impulse: c.next(),
        upper_impulse: c.next(),
        hertz: c.next(),
        damping_ratio: c.next(),
        target_angle: c.next(),
        max_motor_torque: c.next(),
        motor_speed: c.next(),
        lower_angle: c.next(),
        upper_angle: c.next(),
        index_a: 5,
        index_b: 6,
        frame_a: c.xf(),
        frame_b: c.xf(),
        delta_center: c.v2(),
        axial_mass: c.next(),
        spring_softness: c.soft(),
        enable_spring: true,
        enable_motor: false,
        enable_limit: true,
    };
    let weld = WeldJoint {
        linear_hertz: c.next(),
        linear_damping_ratio: c.next(),
        angular_hertz: c.next(),
        angular_damping_ratio: c.next(),
        linear_spring: c.soft(),
        angular_spring: c.soft(),
        linear_impulse: c.v2(),
        angular_impulse: c.next(),
        index_a: i32::MIN,
        index_b: i32::MAX,
        frame_a: c.xf(),
        frame_b: c.xf(),
        delta_center: c.v2(),
        axial_mass: c.next(),
    };
    let wheel = WheelJoint {
        perp_impulse: c.next(),
        motor_impulse: c.next(),
        spring_impulse: c.next(),
        lower_impulse: c.next(),
        upper_impulse: c.next(),
        max_motor_torque: c.next(),
        motor_speed: c.next(),
        lower_translation: c.next(),
        upper_translation: c.next(),
        hertz: c.next(),
        damping_ratio: c.next(),
        index_a: 2,
        index_b: 4,
        frame_a: c.xf(),
        frame_b: c.xf(),
        delta_center: c.v2(),
        perp_mass: c.next(),
        motor_mass: c.next(),
        axial_mass: c.next(),
        spring_softness: c.soft(),
        enable_spring: false,
        enable_motor: true,
        enable_limit: false,
    };
    vec![
        JointPayload::Distance(distance),
        JointPayload::Filter,
        JointPayload::Motor(motor),
        JointPayload::Prismatic(prismatic),
        JointPayload::Revolute(revolute),
        JointPayload::Weld(weld),
        JointPayload::Wheel(wheel),
    ]
}

#[test]
fn payloads_round_trip_with_their_sizes() {
    // tag byte + words + flags
    let sizes = [1 + 4 * 25 + 3, 1, 1 + 4 * 40, 1 + 4 * 28 + 3, 1 + 4 * 29 + 3, 1 + 4 * 26, 1 + 4 * 29 + 3];
    for (tag, (p, size)) in payloads().into_iter().zip(sizes).enumerate() {
        let mut buf = Vec::new();
        ser_payload(&mut buf, &p);
        assert_eq!(buf.len(), size);
        assert_eq!(buf[0] as usize, tag);
        let mut r = SnapReader::new(&buf);
        assert_eq!(des_payload(&mut r), p);
        assert!(r.ok);
        assert_eq!(r.cursor, buf.len());
    }
}

#[test]
fn payload_words_are_little_endian_in_field_order() {
    let p = &payloads()[3];
    let mut buf = Vec::new();
    ser_payload(&mut buf, p);
    if let JointPayload::Prismatic(j) = p {
        assert_eq!(&buf[1..5], &j.impulse.x.to_le_bytes());
        assert_eq!(&buf[5..9], &j.impulse.y.to_le_bytes());
        assert_eq!(&buf[9..13], &j.spring_impulse.to_le_bytes());
        assert_eq!(&buf[buf.len() - 3..], &[0, 1, 1]);
    }
}

#[test]
fn unknown_payload_tag_reads_as_a_wheel_joint() {
    let wheel = payloads()[6];
    let mut buf = Vec::new();
    ser_payload(&mut buf, &wheel);
    buf[0] = 42;
    let mut r = SnapReader::new(&buf);
    assert_eq!(des_payload(&mut r), wheel);
    assert!(r.ok);
}

#[test]
fn short_payload_reads_zeros_and_marks_the_reader_bad() {
    let p = payloads()[0];
    let mut buf = Vec::new();
    ser_payload(&mut buf, &p);
    // Keep the tag and two and a half words.
    buf.truncate(1 + 10);
    let mut r = SnapReader::new(&buf);
    match des_payload(&mut r) {
        JointPayload::Distance(d) => {
            if let JointPayload::Distance(full) = p {
                assert_eq!(d.length, full.length);
                assert_eq!(d.hertz, full.hertz);
            }
            assert_eq!(d.damping_ratio, 0);
            assert_eq!(d.axial_mass, 0);
            assert!(!d.enable_spring);
        }
        other => panic!("wrong type {:?}", other),
    }
    assert!(!r.ok);
    assert_eq!(r.cursor, 9);
}

fn sim(payload: JointPayload) -> JointSim {
    let mut c = Counter(100);
    JointSim {
        joint_id: 12,
        body_id_a: -1,
        body_id_b: 30,
        local_frame_a: c.xf(),
        local_frame_b: c.xf(),
        inv_mass_a: c.next(),
        inv_mass_b: c.next(),
        inv_i_a: c.next(),
        inv_i_b: c.next(),
        constraint_hertz: c.next(),
        constraint_damping_ratio: c.next(),
        constraint_softness: c.soft(),
        force_threshold: c.next(),
        torque_threshold: c.next(),
        payload,
    }
}

#[test]
fn joint_sims_round_trip() {
    for p in payloads() {
        let s = sim(p);
        let mut buf = Vec::new();
        ser_joint_sim(&mut buf, &s);
        let mut payload_buf = Vec::new();
        ser_payload(&mut payload_buf, &p);
        assert_eq!(buf.len(), 4 * 22 + payload_buf.len());
        assert_eq!(&buf[0..4], &12i32.to_le_bytes());
        assert_eq!(&buf[4..8], &(-1i32).to_le_bytes());
        let mut r = SnapReader::new(&buf);
        assert_eq!(des_joint_sim(&mut r), s);
        assert!(r.ok);
        assert_eq!(r.cursor, buf.len());
    }
}

#[test]
fn joint_slots_round_trip_without_user_data() {
    let j = Joint {
        user_data: 0xDEAD_BEEF,
        set_index: 2,
        color_index: 5,
        local_index: 3,
        edges: [Edge { body_id: 1, prev_key: -1, next_key: 9 }, Edge { body_id: 4, prev_key: 8, next_key: -1 }],
        joint_id: 6,
        island_id: -1,
        island_index: -1,
        draw_scale: 1.0f32.to_bits(),
        type_: JointType::Revolute,
        generation: 0x0102,
        collide_connected: true,
    };
    let mut buf = Vec::new();
    ser_joint(&mut buf, &j);
    assert_eq!(buf.len(), 8 + 13 * 4 + 1 + 2 + 1);
    assert_eq!(&buf[0..8], &[0u8; 8]);
    assert_eq!(&buf[8..12], &2i32.to_le_bytes());
    assert_eq!(buf[60], 4);
    assert_eq!(&buf[61..63], &[2, 1]);
    assert_eq!(buf[63], 1);
    let mut r = SnapReader::new(&buf);
    let back = des_joint(&mut r);
    assert!(r.ok);
    assert_eq!(r.cursor, buf.len());
    assert_eq!(back.user_data, 0);
    assert_eq!(back.set_index, 2);
    assert_eq!(back.color_index, 5);
    assert_eq!(back.local_index, 3);
    assert_eq!(back.edges, j.edges);
    assert_eq!(back.joint_id, 6);
    assert_eq!(back.island_id, -1);
    assert_eq!(back.island_index, -1);
    assert_eq!(back.draw_scale, j.draw_scale);
    assert_eq!(back.type_, JointType::Revolute);
    assert_eq!(back.generation, 0x0102);
    assert!(back.collide_connected);
}
