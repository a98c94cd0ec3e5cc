use lib::geometry::{Rot, Transform, Vec2};
use lib::id::BodyId;
use lib::recording::joint_defs::{
    r_distance_joint_def, r_filter_joint_def, r_motor_joint_def, r_prismatic_joint_def, r_revolute_joint_def,
    r_weld_joint_def, r_wheel_joint_def,
};
use lib::snapshot::SnapReader;
use lib::types::{
    DistanceJointDef, FilterJointDef, JointDef, MotorJointDef, PrismaticJointDef, RevoluteJointDef, WeldJointDef,
    WheelJointDef,
};
use lib::write::{
    rec_w_distancejointdef, rec_w_filterjointdef, rec_w_motorjointdef, rec_w_prismaticjointdef,
    rec_w_revolutejointdef, rec_w_weldjointdef, rec_w_wheeljointdef,
};

fn v2(x: f32, y: f32) -> Vec2 {
    Vec2 { x: x.to_bits(), y: y.to_bits() }
}

fn b(x: f32) -> u32 {
    x.to_bits()
}

fn base() -> JointDef {
    JointDef {
        user_data: 31337,
        body_id_a: BodyId { index1: 4, world0: 1, generation: 2 },
        body_id_b: BodyId { index1: 9, world0: 1, generation: 7 },
        local_frame_a: Transform { p: v2(0.5, -0.5), q: Rot { c: b(1.0), s: 0 } },
        local_frame_b: Transform { p: v2(-2.0, 3.0), q: Rot { c: 0, s: b(-1.0) } },
        force_threshold: b(100.0),
        torque_threshold: b(50.0),
        constraint_hertz: b(60.0),
        constraint_damping_ratio: b(0.7),
        draw_scale: b(2.0),
        collide_connected: true,
    }
}

/// The user data that comes back: none travels.
fn check_base(back: &JointDef) {
    let want = base();
    assert_eq!(back.user_data, 0);
    assert_eq!(back.body_id_a, want.body_id_a);
    assert_eq!(back.body_id_b, want.body_id_b);
    assert_eq!(back.local_frame_b, want.local_frame_b);
    assert_eq!(back.draw_scale, want.draw_scale);
    assert!(back.collide_connected);
}

#[test]
fn distance_joint_def_reads_back() {
    let def = DistanceJointDef {
        base: base(),
        length: b(2.0),
        enable_spring: true,
        lower_spring_force: b(-5.0),
        upper_spring_force: b(5.0),
        hertz: b(4.0),
        damping_ratio: b(0.5),
        enable_limit: false,
        min_length: b(1.0),
        max_length: b(3.0),
        enable_motor: true,
        max_motor_force: b(10.0),
        motor_speed: b(-1.5),
    };
    let mut buf = Vec::new();
    rec_w_distancejointdef(&mut buf, &def);
    let mut r = SnapReader::new(&buf);
    let back = r_distance_joint_def(&mut r);
    assert!(r.ok);
    assert_eq!(r.cursor, buf.len());
    check_base(&back.base);
    assert_eq!(back.motor_speed, b(-1.5));
    assert!(back.enable_spring && !back.enable_limit && back.enable_motor);
    let mut again = Vec::new();
    rec_w_distancejointdef(&mut again, &back);
    assert_eq!(again, buf);
}

#[test]
fn motor_joint_def_reads_back() {
    let def = MotorJointDef {
        base: base(),
        linear_velocity: v2(1.0, -1.0),
        max_velocity_force: b(2.0),
        angular_velocity: b(3.0),
        max_velocity_torque: b(4.0),
        linear_hertz: b(5.0),
        linear_damping_ratio: b(6.0),
        max_spring_force: b(7.0),
        angular_hertz: b(8.0),
        angular_damping_ratio: b(9.0),
        max_spring_torque: b(10.0),
    };
    let mut buf = Vec::new();
    rec_w_motorjointdef(&mut buf, &def);
    let mut r = SnapReader::new(&buf);
    let back = r_motor_joint_def(&mut r);
    assert!(r.ok);
    check_base(&back.base);
    assert_eq!(back.linear_velocity, v2(1.0, -1.0));
    assert_eq!(back.max_spring_torque, b(10.0));
    let mut again = Vec::new();
    rec_w_motorjointdef(&mut again, &back);
    assert_eq!(again, buf);
}

#[test]
fn prismatic_revolute_wheel_weld_filter_defs_read_back() {
    let prismatic = PrismaticJointDef {
        base: base(),
        enable_spring: false,
        hertz: b(1.0),
        damping_ratio: b(2.0),
        target_translation: b(0.25),
        enable_limit: true,
        lower_translation: b(-1.0),
        upper_translation: b(1.0),
        enable_motor: false,
        max_motor_force: b(3.0),
        motor_speed: b(4.0),
    };
    let mut buf = Vec::new();
    rec_w_prismaticjointdef(&mut buf, &prismatic);
    let mut r = SnapReader::new(&buf);
    let back = r_prismatic_joint_def(&mut r);
    assert!(r.ok && back.enable_limit && !back.enable_spring);
    assert_eq!(back.lower_translation, b(-1.0));
    let mut again = Vec::new();
    rec_w_prismaticjointdef(&mut again, &back);
    assert_eq!(again, buf);

    let revolute = RevoluteJointDef {
        base: base(),
        target_angle: b(0.5),
        enable_spring: true,
        hertz: b(1.0),
        damping_ratio: b(0.1),
        enable_limit: true,
        lower_angle: b(-0.5),
        upper_angle: b(0.5),
        enable_motor: true,
        max_motor_torque: b(20.0),
        motor_speed: b(2.0),
    };
    let mut buf = Vec::new();
    rec_w_revolutejointdef(&mut buf, &revolute);
    let mut r = SnapReader::new(&buf);
    let back = r_revolute_joint_def(&mut r);
    assert!(r.ok);
    assert_eq!(back.target_angle, b(0.5));
    assert_eq!(back.max_motor_torque, b(20.0));
    let mut again = Vec::new();
    rec_w_revolutejointdef(&mut again, &back);
    assert_eq!(again, buf);

    let wheel = WheelJointDef {
        base: base(),
        enable_spring: true,
        hertz: b(5.0),
        damping_ratio: b(0.7),
        enable_limit: false,
        lower_translation: b(-0.25),
        upper_translation: b(0.25),
        enable_motor: true,
        max_motor_torque: b(8.0),
        motor_speed: b(-3.0),
    };
    let mut buf = Vec::new();
    rec_w_wheeljointdef(&mut buf, &wheel);
    let mut r = SnapReader::new(&buf);
    let back = r_wheel_joint_def(&mut r);
    assert!(r.ok);
    assert_eq!(back.motor_speed, b(-3.0));
    let mut again = Vec::new();
    rec_w_wheeljointdef(&mut again, &back);
    assert_eq!(again, buf);

    let weld = WeldJointDef { base: base(), linear_hertz: 1, angular_hertz: 2, linear_damping_ratio: 3, angular_damping_ratio: 4 };
    let mut buf = Vec::new();
    rec_w_weldjointdef(&mut buf, &weld);
    let mut r = SnapReader::new(&buf);
    let back = r_weld_joint_def(&mut r);
    assert!(r.ok);
    assert_eq!((back.linear_hertz, back.angular_hertz, back.linear_damping_ratio, back.angular_damping_ratio), (1, 2, 3, 4));

    let mut buf = Vec::new();
    rec_w_filterjointdef(&mut buf, &FilterJointDef { base: base() });
    let mut r = SnapReader::new(&buf);
    let back = r_filter_joint_def(&mut r);
    assert!(r.ok);
    assert_eq!(r.cursor, 77);
    check_base(&back.base);
}

#[test]
fn short_def_record_marks_the_reader() {
    let mut buf = Vec::new();
    rec_w_weldjointdef(&mut buf, &WeldJointDef { base: base(), linear_hertz: 1, angular_hertz: 2, linear_damping_ratio: 3, angular_damping_ratio: 4 });
    buf.truncate(buf.len() - 2);
    let mut r = SnapReader::new(&buf);
    let back = r_weld_joint_def(&mut r);
    assert!(!r.ok);
    assert_eq!(back.angular_hertz, 2);
    assert_eq!(back.angular_damping_ratio, 0);
}
