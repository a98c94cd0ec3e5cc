use vstd::prelude::*;
use crate::recording::decode::{
    bool_read, joint_base_read, law_joint_base_round_trip, law_vec2_round_trip, lemma_bool_read_back, lemma_split,
    lemma_u32_read_back, r_joint_base, r_vec2, read_bool, read_u32, u32_read, vec2_read,
};
use crate::snapshot::SnapReader;
use crate::types::{
    DistanceJointDef, FilterJointDef, JointDef, MotorJointDef, PrismaticJointDef, RevoluteJointDef, WeldJointDef,
    WheelJointDef,
};
use crate::write::{
    bool_byte, distance_joint_def_bytes, distance_joint_field_bytes, joint_base_bytes, motor_joint_def_bytes,
    motor_joint_field_bytes, prismatic_joint_def_bytes, prismatic_joint_field_bytes, revolute_joint_def_bytes,
    revolute_joint_field_bytes, u32_bytes, vec2_bytes, weld_joint_def_bytes, weld_joint_field_bytes,
    wheel_joint_def_bytes, wheel_joint_field_bytes,
};

verus! {

broadcast use crate::write::lemma_le_bytes_len;

// Joint definitions as the create records carry them: the shared part,
// then each kind's own fields in order. Every field is read, so a reader
// builds the definition whole.

/// The fields of a distance joint definition after its shared part, read at
/// `(ok, c)` onto `base`.
pub open spec fn distance_joint_fields_read(base: JointDef, d: Seq<u8>, ok: bool, c: int) -> (DistanceJointDef, (bool, int)) {
    let (length, s1) = u32_read(d, ok, c);
    let (enable_spring, s2) = bool_read(d, s1.0, s1.1);
    let (lower_spring_force, s3) = u32_read(d, s2.0, s2.1);
    let (upper_spring_force, s4) = u32_read(d, s3.0, s3.1);
    let (hertz, s5) = u32_read(d, s4.0, s4.1);
    let (damping_ratio, s6) = u32_read(d, s5.0, s5.1);
    let (enable_limit, s7) = bool_read(d, s6.0, s6.1);
    let (min_length, s8) = u32_read(d, s7.0, s7.1);
    let (max_length, s9) = u32_read(d, s8.0, s8.1);
    let (enable_motor, s10) = bool_read(d, s9.0, s9.1);
    let (max_motor_force, s11) = u32_read(d, s10.0, s10.1);
    let (motor_speed, s12) = u32_read(d, s11.0, s11.1);
    (DistanceJointDef { base, length, enable_spring, lower_spring_force, upper_spring_force, hertz, damping_ratio, enable_limit, min_length, max_length, enable_motor, max_motor_force, motor_speed }, s12)
}

/// A distance joint definition read at `(ok, c)`: the shared part, then its own
/// fields in order.
pub open spec fn distance_joint_def_read(d: Seq<u8>, ok: bool, c: int) -> (DistanceJointDef, (bool, int)) {
    let (base, s) = joint_base_read(d, ok, c);
    distance_joint_fields_read(base, d, s.0, s.1)
}

/// Read a distance joint definition, as its create record carries it.
pub fn r_distance_joint_def(r: &mut SnapReader) -> (def: DistanceJointDef)
    ensures
        final(r).data@ == old(r).data@,
        (def, (final(r).ok, final(r).cursor as int)) == distance_joint_def_read(old(r).data@, old(r).ok, old(r).cursor as int),
{
    let base = r_joint_base(r);
    let length = read_u32(r);
    let enable_spring = read_bool(r);
    let lower_spring_force = read_u32(r);
    let upper_spring_force = read_u32(r);
    let hertz = read_u32(r);
    let damping_ratio = read_u32(r);
    let enable_limit = read_bool(r);
    let min_length = read_u32(r);
    let max_length = read_u32(r);
    let enable_motor = read_bool(r);
    let max_motor_force = read_u32(r);
    let motor_speed = read_u32(r);
    DistanceJointDef { base, length, enable_spring, lower_spring_force, upper_spring_force, hertz, damping_ratio, enable_limit, min_length, max_length, enable_motor, max_motor_force, motor_speed }
}

/// The fields of a distance joint definition read back from their encoding.
proof fn lemma_distance_joint_fields_round_trip(base: JointDef, v: DistanceJointDef, d: Seq<u8>, c: int)
    requires
        0 <= c,
        c + 39 <= d.len(),
        d.subrange(c, c + 39) == distance_joint_field_bytes(v),
    ensures
        distance_joint_fields_read(base, d, true, c) == (DistanceJointDef { base, ..v }, (true, c + 39)),
{
    lemma_split(d, c, u32_bytes(v.length) + seq![bool_byte(v.enable_spring)] + u32_bytes(v.lower_spring_force) + u32_bytes(v.upper_spring_force) + u32_bytes(v.hertz) + u32_bytes(v.damping_ratio) + seq![bool_byte(v.enable_limit)] + u32_bytes(v.min_length) + u32_bytes(v.max_length) + seq![bool_byte(v.enable_motor)] + u32_bytes(v.max_motor_force), u32_bytes(v.motor_speed));
    lemma_split(d, c, u32_bytes(v.length) + seq![bool_byte(v.enable_spring)] + u32_bytes(v.lower_spring_force) + u32_bytes(v.upper_spring_force) + u32_bytes(v.hertz) + u32_bytes(v.damping_ratio) + seq![bool_byte(v.enable_limit)] + u32_bytes(v.min_length) + u32_bytes(v.max_length) + seq![bool_byte(v.enable_motor)], u32_bytes(v.max_motor_force));
    lemma_split(d, c, u32_bytes(v.length) + seq![bool_byte(v.enable_spring)] + u32_bytes(v.lower_spring_force) + u32_bytes(v.upper_spring_force) + u32_bytes(v.hertz) + u32_bytes(v.damping_ratio) + seq![bool_byte(v.enable_limit)] + u32_bytes(v.min_length) + u32_bytes(v.max_length), seq![bool_byte(v.enable_motor)]);
    lemma_split(d, c, u32_bytes(v.length) + seq![bool_byte(v.enable_spring)] + u32_bytes(v.lower_spring_force) + u32_bytes(v.upper_spring_force) + u32_bytes(v.hertz) + u32_bytes(v.damping_ratio) + seq![bool_byte(v.enable_limit)] + u32_bytes(v.min_length), u32_bytes(v.max_length));
    lemma_split(d, c, u32_bytes(v.length) + seq![bool_byte(v.enable_spring)] + u32_bytes(v.lower_spring_force) + u32_bytes(v.upper_spring_force) + u32_bytes(v.hertz) + u32_bytes(v.damping_ratio) + seq![bool_byte(v.enable_limit)], u32_bytes(v.min_length));
    lemma_split(d, c, u32_bytes(v.length) + seq![bool_byte(v.enable_spring)] + u32_bytes(v.lower_spring_force) + u32_bytes(v.upper_spring_force) + u32_bytes(v.hertz) + u32_bytes(v.damping_ratio), seq![bool_byte(v.enable_limit)]);
    lemma_split(d, c, u32_bytes(v.length) + seq![bool_byte(v.enable_spring)] + u32_bytes(v.lower_spring_force) + u32_bytes(v.upper_spring_force) + u32_bytes(v.hertz), u32_bytes(v.damping_ratio));
    lemma_split(d, c, u32_bytes(v.length) + seq![bool_byte(v.enable_spring)] + u32_bytes(v.lower_spring_force) + u32_bytes(v.upper_spring_force), u32_bytes(v.hertz));
    lemma_split(d, c, u32_bytes(v.length) + seq![bool_byte(v.enable_spring)] + u32_bytes(v.lower_spring_force), u32_bytes(v.upper_spring_force));
    lemma_split(d, c, u32_bytes(v.length) + seq![bool_byte(v.enable_spring)], u32_bytes(v.lower_spring_force));
    lemma_split(d, c, u32_bytes(v.length), seq![bool_byte(v.enable_spring)]);
    lemma_u32_read_back(v.length, d, c + 0);
    lemma_bool_read_back(v.enable_spring, d, c + 4);
    lemma_u32_read_back(v.lower_spring_force, d, c + 5);
    lemma_u32_read_back(v.upper_spring_force, d, c + 9);
    lemma_u32_read_back(v.hertz, d, c + 13);
    lemma_u32_read_back(v.damping_ratio, d, c + 17);
    lemma_bool_read_back(v.enable_limit, d, c + 21);
    lemma_u32_read_back(v.min_length, d, c + 22);
    lemma_u32_read_back(v.max_length, d, c + 26);
    lemma_bool_read_back(v.enable_motor, d, c + 30);
    lemma_u32_read_back(v.max_motor_force, d, c + 31);
    lemma_u32_read_back(v.motor_speed, d, c + 35);
}

/// A distance joint definition reads back from its encoding, its user data
/// as zero.
pub proof fn law_distance_joint_def_round_trip(v: DistanceJointDef, d: Seq<u8>, c: int)
    requires
        0 <= c,
        c + 116 <= d.len(),
        d.subrange(c, c + 116) == distance_joint_def_bytes(v),
    ensures
        distance_joint_def_read(d, true, c) == (DistanceJointDef { base: JointDef { user_data: 0, ..v.base }, ..v }, (true, c + 116)),
{
    lemma_split(d, c, joint_base_bytes(v.base), distance_joint_field_bytes(v));
    law_joint_base_round_trip(v.base, d, c);
    lemma_distance_joint_fields_round_trip(JointDef { user_data: 0, ..v.base }, v, d, c + 77);
}

/// The fields of a motor joint definition after its shared part, read at
/// `(ok, c)` onto `base`.
pub open spec fn motor_joint_fields_read(base: JointDef, d: Seq<u8>, ok: bool, c: int) -> (MotorJointDef, (bool, int)) {
    let (linear_velocity, s1) = vec2_read(d, ok, c);
    let (max_velocity_force, s2) = u32_read(d, s1.0, s1.1);
    let (angular_velocity, s3) = u32_read(d, s2.0, s2.1);
    let (max_velocity_torque, s4) = u32_read(d, s3.0, s3.1);
    let (linear_hertz, s5) = u32_read(d, s4.0, s4.1);
    let (linear_damping_ratio, s6) = u32_read(d, s5.0, s5.1);
    let (max_spring_force, s7) = u32_read(d, s6.0, s6.1);
    let (angular_hertz, s8) = u32_read(d, s7.0, s7.1);
    let (angular_damping_ratio, s9) = u32_read(d, s8.0, s8.1);
    let (max_spring_torque, s10) = u32_read(d, s9.0, s9.1);
    (MotorJointDef { base, linear_velocity, max_velocity_force, angular_velocity, max_velocity_torque, linear_hertz, linear_damping_ratio, max_spring_force, angular_hertz, angular_damping_ratio, max_spring_torque }, s10)
}

/// A motor joint definition read at `(ok, c)`: the shared part, then its own
/// fields in order.
pub open spec fn motor_joint_def_read(d: Seq<u8>, ok: bool, c: int) -> (MotorJointDef, (bool, int)) {
    let (base, s) = joint_base_read(d, ok, c);
    motor_joint_fields_read(base, d, s.0, s.1)
}

/// Read a motor joint definition, as its create record carries it.
pub fn r_motor_joint_def(r: &mut SnapReader) -> (def: MotorJointDef)
    ensures
        final(r).data@ == old(r).data@,
        (def, (final(r).ok, final(r).cursor as int)) == motor_joint_def_read(old(r).data@, old(r).ok, old(r).cursor as int),
{
    let base = r_joint_base(r);
    let linear_velocity = r_vec2(r);
    let max_velocity_force = read_u32(r);
    let angular_velocity = read_u32(r);
    let max_velocity_torque = read_u32(r);
    let linear_hertz = read_u32(r);
    let linear_damping_ratio = read_u32(r);
    let max_spring_force = read_u32(r);
    let angular_hertz = read_u32(r);
    let angular_damping_ratio = read_u32(r);
    let max_spring_torque = read_u32(r);
    MotorJointDef { base, linear_velocity, max_velocity_force, angular_velocity, max_velocity_torque, linear_hertz, linear_damping_ratio, max_spring_force, angular_hertz, angular_damping_ratio, max_spring_torque }
}

/// The fields of a motor joint definition read back from their encoding.
proof fn lemma_motor_joint_fields_round_trip(base: JointDef, v: MotorJointDef, d: Seq<u8>, c: int)
    requires
        0 <= c,
        c + 44 <= d.len(),
        d.subrange(c, c + 44) == motor_joint_field_bytes(v),
    ensures
        motor_joint_fields_read(base, d, true, c) == (MotorJointDef { base, ..v }, (true, c + 44)),
{
    lemma_split(d, c, vec2_bytes(v.linear_velocity) + u32_bytes(v.max_velocity_force) + u32_bytes(v.angular_velocity) + u32_bytes(v.max_velocity_torque) + u32_bytes(v.linear_hertz) + u32_bytes(v.linear_damping_ratio) + u32_bytes(v.max_spring_force) + u32_bytes(v.angular_hertz) + u32_bytes(v.angular_damping_ratio), u32_bytes(v.max_spring_torque));
    lemma_split(d, c, vec2_bytes(v.linear_velocity) + u32_bytes(v.max_velocity_force) + u32_bytes(v.angular_velocity) + u32_bytes(v.max_velocity_torque) + u32_bytes(v.linear_hertz) + u32_bytes(v.linear_damping_ratio) + u32_bytes(v.max_spring_force) + u32_bytes(v.angular_hertz), u32_bytes(v.angular_damping_ratio));
    lemma_split(d, c, vec2_bytes(v.linear_velocity) + u32_bytes(v.max_velocity_force) + u32_bytes(v.angular_velocity) + u32_bytes(v.max_velocity_torque) + u32_bytes(v.linear_hertz) + u32_bytes(v.linear_damping_ratio) + u32_bytes(v.max_spring_force), u32_bytes(v.angular_hertz));
    lemma_split(d, c, vec2_bytes(v.linear_velocity) + u32_bytes(v.max_velocity_force) + u32_bytes(v.angular_velocity) + u32_bytes(v.max_velocity_torque) + u32_bytes(v.linear_hertz) + u32_bytes(v.linear_damping_ratio), u32_bytes(v.max_spring_force));
    lemma_split(d, c, vec2_bytes(v.linear_velocity) + u32_bytes(v.max_velocity_force) + u32_bytes(v.angular_velocity) + u32_bytes(v.max_velocity_torque) + u32_bytes(v.linear_hertz), u32_bytes(v.linear_damping_ratio));
    lemma_split(d, c, vec2_bytes(v.linear_velocity) + u32_bytes(v.max_velocity_force) + u32_bytes(v.angular_velocity) + u32_bytes(v.max_velocity_torque), u32_bytes(v.linear_hertz));
    lemma_split(d, c, vec2_bytes(v.linear_velocity) + u32_bytes(v.max_velocity_force) + u32_bytes(v.angular_velocity), u32_bytes(v.max_velocity_torque));
    lemma_split(d, c, vec2_bytes(v.linear_velocity) + u32_bytes(v.max_velocity_force), u32_bytes(v.angular_velocity));
    lemma_split(d, c, vec2_bytes(v.linear_velocity), u32_bytes(v.max_velocity_force));
    law_vec2_round_trip(v.linear_velocity, d, c + 0);
    lemma_u32_read_back(v.max_velocity_force, d, c + 8);
    lemma_u32_read_back(v.angular_velocity, d, c + 12);
    lemma_u32_read_back(v.max_velocity_torque, d, c + 16);
    lemma_u32_read_back(v.linear_hertz, d, c + 20);
    lemma_u32_read_back(v.linear_damping_ratio, d, c + 24);
    lemma_u32_read_back(v.max_spring_force, d, c + 28);
    lemma_u32_read_back(v.angular_hertz, d, c + 32);
    lemma_u32_read_back(v.angular_damping_ratio, d, c + 36);
    lemma_u32_read_back(v.max_spring_torque, d, c + 40);
}

/// A motor joint definition reads back from its encoding, its user data
/// as zero.
pub proof fn law_motor_joint_def_round_trip(v: MotorJointDef, d: Seq<u8>, c: int)
    requires
        0 <= c,
        c + 121 <= d.len(),
        d.subrange(c, c + 121) == motor_joint_def_bytes(v),
    ensures
        motor_joint_def_read(d, true, c) == (MotorJointDef { base: JointDef { user_data: 0, ..v.base }, ..v }, (true, c + 121)),
{
    lemma_split(d, c, joint_base_bytes(v.base), motor_joint_field_bytes(v));
    law_joint_base_round_trip(v.base, d, c);
    lemma_motor_joint_fields_round_trip(JointDef { user_data: 0, ..v.base }, v, d, c + 77);
}

/// The fields of a prismatic joint definition after its shared part, read at
/// `(ok, c)` onto `base`.
pub open spec fn prismatic_joint_fields_read(base: JointDef, d: Seq<u8>, ok: bool, c: int) -> (PrismaticJointDef, (bool, int)) {
    let (enable_spring, s1) = bool_read(d, ok, c);
    let (hertz, s2) = u32_read(d, s1.0, s1.1);
    let (damping_ratio, s3) = u32_read(d, s2.0, s2.1);
    let (target_translation, s4) = u32_read(d, s3.0, s3.1);
    let (enable_limit, s5) = bool_read(d, s4.0, s4.1);
    let (lower_translation, s6) = u32_read(d, s5.0, s5.1);
    let (upper_translation, s7) = u32_read(d, s6.0, s6.1);
    let (enable_motor, s8) = bool_read(d, s7.0, s7.1);
    let (max_motor_force, s9) = u32_read(d, s8.0, s8.1);
    let (motor_speed, s10) = u32_read(d, s9.0, s9.1);
    (PrismaticJointDef { base, enable_spring, hertz, damping_ratio, target_translation, enable_limit, lower_translation, upper_translation, enable_motor, max_motor_force, motor_speed }, s10)
}

/// A prismatic joint definition read at `(ok, c)`: the shared part, then its own
/// fields in order.
pub open spec fn prismatic_joint_def_read(d: Seq<u8>, ok: bool, c: int) -> (PrismaticJointDef, (bool, int)) {
    let (base, s) = joint_base_read(d, ok, c);
    prismatic_joint_fields_read(base, d, s.0, s.1)
}

/// Read a prismatic joint definition, as its create record carries it.
pub fn r_prismatic_joint_def(r: &mut SnapReader) -> (def: PrismaticJointDef)
    ensures
        final(r).data@ == old(r).data@,
        (def, (final(r).ok, final(r).cursor as int)) == prismatic_joint_def_read(old(r).data@, old(r).ok, old(r).cursor as int),
{
    let base = r_joint_base(r);
    let enable_spring = read_bool(r);
    let hertz = read_u32(r);
    let damping_ratio = read_u32(r);
    let target_translation = read_u32(r);
    let enable_limit = read_bool(r);
    let lower_translation = read_u32(r);
    let upper_translation = read_u32(r);
    let enable_motor = read_bool(r);
    let max_motor_force = read_u32(r);
    let motor_speed = read_u32(r);
    PrismaticJointDef { base, enable_spring, hertz, damping_ratio, target_translation, enable_limit, lower_translation, upper_translation, enable_motor, max_motor_force, motor_speed }
}

/// The fields of a prismatic joint definition read back from their encoding.
proof fn lemma_prismatic_joint_fields_round_trip(base: JointDef, v: PrismaticJointDef, d: Seq<u8>, c: int)
    requires
        0 <= c,
        c + 31 <= d.len(),
        d.subrange(c, c + 31) == prismatic_joint_field_bytes(v),
    ensures
        prismatic_joint_fields_read(base, d, true, c) == (PrismaticJointDef { base, ..v }, (true, c + 31)),
{
    lemma_split(d, c, seq![bool_byte(v.enable_spring)] + u32_bytes(v.hertz) + u32_bytes(v.damping_ratio) + u32_bytes(v.target_translation) + seq![bool_byte(v.enable_limit)] + u32_bytes(v.lower_translation) + u32_bytes(v.upper_translation) + seq![bool_byte(v.enable_motor)] + u32_bytes(v.max_motor_force), u32_bytes(v.motor_speed));
    lemma_split(d, c, seq![bool_byte(v.enable_spring)] + u32_bytes(v.hertz) + u32_bytes(v.damping_ratio) + u32_bytes(v.target_translation) + seq![bool_byte(v.enable_limit)] + u32_bytes(v.lower_translation) + u32_bytes(v.upper_translation) + seq![bool_byte(v.enable_motor)], u32_bytes(v.max_motor_force));
    lemma_split(d, c, seq![bool_byte(v.enable_spring)] + u32_bytes(v.hertz) + u32_bytes(v.damping_ratio) + u32_bytes(v.target_translation) + seq![bool_byte(v.enable_limit)] + u32_bytes(v.lower_translation) + u32_bytes(v.upper_translation), seq![bool_byte(v.enable_motor)]);
    lemma_split(d, c, seq![bool_byte(v.enable_spring)] + u32_bytes(v.hertz) + u32_bytes(v.damping_ratio) + u32_bytes(v.target_translation) + seq![bool_byte(v.enable_limit)] + u32_bytes(v.lower_translation), u32_bytes(v.upper_translation));
    lemma_split(d, c, seq![bool_byte(v.enable_spring)] + u32_bytes(v.hertz) + u32_bytes(v.damping_ratio) + u32_bytes(v.target_translation) + seq![bool_byte(v.enable_limit)], u32_bytes(v.lower_translation));
    lemma_split(d, c, seq![bool_byte(v.enable_spring)] + u32_bytes(v.hertz) + u32_bytes(v.damping_ratio) + u32_bytes(v.target_translation), seq![bool_byte(v.enable_limit)]);
    lemma_split(d, c, seq![bool_byte(v.enable_spring)] + u32_bytes(v.hertz) + u32_bytes(v.damping_ratio), u32_bytes(v.target_translation));
    lemma_split(d, c, seq![bool_byte(v.enable_spring)] + u32_bytes(v.hertz), u32_bytes(v.damping_ratio));
    lemma_split(d, c, seq![bool_byte(v.enable_spring)], u32_bytes(v.hertz));
    lemma_bool_read_back(v.enable_spring, d, c + 0);
    lemma_u32_read_back(v.hertz, d, c + 1);
    lemma_u32_read_back(v.damping_ratio, d, c + 5);
    lemma_u32_read_back(v.target_translation, d, c + 9);
    lemma_bool_read_back(v.enable_limit, d, c + 13);
    lemma_u32_read_back(v.lower_translation, d, c + 14);
    lemma_u32_read_back(v.upper_translation, d, c + 18);
    lemma_bool_read_back(v.enable_motor, d, c + 22);
    lemma_u32_read_back(v.max_motor_force, d, c + 23);
    lemma_u32_read_back(v.motor_speed, d, c + 27);
}

/// A prismatic joint definition reads back from its encoding, its user data
/// as zero.
pub proof fn law_prismatic_joint_def_round_trip(v: PrismaticJointDef, d: Seq<u8>, c: int)
    requires
        0 <= c,
        c + 108 <= d.len(),
        d.subrange(c, c + 108) == prismatic_joint_def_bytes(v),
    ensures
        prismatic_joint_def_read(d, true, c) == (PrismaticJointDef { base: JointDef { user_data: 0, ..v.base }, ..v }, (true, c + 108)),
{
    lemma_split(d, c, joint_base_bytes(v.base), prismatic_joint_field_bytes(v));
    law_joint_base_round_trip(v.base, d, c);
    lemma_prismatic_joint_fields_round_trip(JointDef { user_data: 0, ..v.base }, v, d, c + 77);
}

/// The fields of a revolute joint definition after its shared part, read at
/// `(ok, c)` onto `base`.
pub open spec fn revolute_joint_fields_read(base: JointDef, d: Seq<u8>, ok: bool, c: int) -> (RevoluteJointDef, (bool, int)) {
    let (target_angle, s1) = u32_read(d, ok, c);
    let (enable_spring, s2) = bool_read(d, s1.0, s1.1);
    let (hertz, s3) = u32_read(d, s2.0, s2.1);
    let (damping_ratio, s4) = u32_read(d, s3.0, s3.1);
    let (enable_limit, s5) = bool_read(d, s4.0, s4.1);
    let (lower_angle, s6) = u32_read(d, s5.0, s5.1);
    let (upper_angle, s7) = u32_read(d, s6.0, s6.1);
    let (enable_motor, s8) = bool_read(d, s7.0, s7.1);
    let (max_motor_torque, s9) = u32_read(d, s8.0, s8.1);
    let (motor_speed, s10) = u32_read(d, s9.0, s9.1);
    (RevoluteJointDef { base, target_angle, enable_spring, hertz, damping_ratio, enable_limit, lower_angle, upper_angle, enable_motor, max_motor_torque, motor_speed }, s10)
}

/// A revolute joint definition read at `(ok, c)`: the shared part, then its own
/// fields in order.
pub open spec fn revolute_joint_def_read(d: Seq<u8>, ok: bool, c: int) -> (RevoluteJointDef, (bool, int)) {
    let (base, s) = joint_base_read(d, ok, c);
    revolute_joint_fields_read(base, d, s.0, s.1)
}

/// Read a revolute joint definition, as its create record carries it.
pub fn r_revolute_joint_def(r: &mut SnapReader) -> (def: RevoluteJointDef)
    ensures
        final(r).data@ == old(r).data@,
        (def, (final(r).ok, final(r).cursor as int)) == revolute_joint_def_read(old(r).data@, old(r).ok, old(r).cursor as int),
{
    let base = r_joint_base(r);
    let target_angle = read_u32(r);
    let enable_spring = read_bool(r);
    let hertz = read_u32(r);
    let damping_ratio = read_u32(r);
    let enable_limit = read_bool(r);
    let lower_angle = read_u32(r);
    let upper_angle = read_u32(r);
    let enable_motor = read_bool(r);
    let max_motor_torque = read_u32(r);
    let motor_speed = read_u32(r);
    RevoluteJointDef { base, target_angle, enable_spring, hertz, damping_ratio, enable_limit, lower_angle, upper_angle, enable_motor, max_motor_torque, motor_speed }
}

/// The fields of a revolute joint definition read back from their encoding.
proof fn lemma_revolute_joint_fields_round_trip(base: JointDef, v: RevoluteJointDef, d: Seq<u8>, c: int)
    requires
        0 <= c,
        c + 31 <= d.len(),
        d.subrange(c, c + 31) == revolute_joint_field_bytes(v),
    ensures
        revolute_joint_fields_read(base, d, true, c) == (RevoluteJointDef { base, ..v }, (true, c + 31)),
{
    lemma_split(d, c, u32_bytes(v.target_angle) + seq![bool_byte(v.enable_spring)] + u32_bytes(v.hertz) + u32_bytes(v.damping_ratio) + seq![bool_byte(v.enable_limit)] + u32_bytes(v.lower_angle) + u32_bytes(v.upper_angle) + seq![bool_byte(v.enable_motor)] + u32_bytes(v.max_motor_torque), u32_bytes(v.motor_speed));
    lemma_split(d, c, u32_bytes(v.target_angle) + seq![bool_byte(v.enable_spring)] + u32_bytes(v.hertz) + u32_bytes(v.damping_ratio) + seq![bool_byte(v.enable_limit)] + u32_bytes(v.lower_angle) + u32_bytes(v.upper_angle) + seq![bool_byte(v.enable_motor)], u32_bytes(v.max_motor_torque));
    lemma_split(d, c, u32_bytes(v.target_angle) + seq![bool_byte(v.enable_spring)] + u32_bytes(v.hertz) + u32_bytes(v.damping_ratio) + seq![bool_byte(v.enable_limit)] + u32_bytes(v.lower_angle) + u32_bytes(v.upper_angle), seq![bool_byte(v.enable_motor)]);
    lemma_split(d, c, u32_bytes(v.target_angle) + seq![bool_byte(v.enable_spring)] + u32_bytes(v.hertz) + u32_bytes(v.damping_ratio) + seq![bool_byte(v.enable_limit)] + u32_bytes(v.lower_angle), u32_bytes(v.upper_angle));
    lemma_split(d, c, u32_bytes(v.target_angle) + seq![bool_byte(v.enable_spring)] + u32_bytes(v.hertz) + u32_bytes(v.damping_ratio) + seq![bool_byte(v.enable_limit)], u32_bytes(v.lower_angle));
    lemma_split(d, c, u32_bytes(v.target_angle) + seq![bool_byte(v.enable_spring)] + u32_bytes(v.hertz) + u32_bytes(v.damping_ratio), seq![bool_byte(v.enable_limit)]);
    lemma_split(d, c, u32_bytes(v.target_angle) + seq![bool_byte(v.enable_spring)] + u32_bytes(v.hertz), u32_bytes(v.damping_ratio));
    lemma_split(d, c, u32_bytes(v.target_angle) + seq![bool_byte(v.enable_spring)], u32_bytes(v.hertz));
    lemma_split(d, c, u32_bytes(v.target_angle), seq![bool_byte(v.enable_spring)]);
    lemma_u32_read_back(v.target_angle, d, c + 0);
    lemma_bool_read_back(v.enable_spring, d, c + 4);
    lemma_u32_read_back(v.hertz, d, c + 5);
    lemma_u32_read_back(v.damping_ratio, d, c + 9);
    lemma_bool_read_back(v.enable_limit, d, c + 13);
    lemma_u32_read_back(v.lower_angle, d, c + 14);
    lemma_u32_read_back(v.upper_angle, d, c + 18);
    lemma_bool_read_back(v.enable_motor, d, c + 22);
    lemma_u32_read_back(v.max_motor_torque, d, c + 23);
    lemma_u32_read_back(v.motor_speed, d, c + 27);
}

/// A revolute joint definition reads back from its encoding, its user data
/// as zero.
pub proof fn law_revolute_joint_def_round_trip(v: RevoluteJointDef, d: Seq<u8>, c: int)
    requires
        0 <= c,
        c + 108 <= d.len(),
        d.subrange(c, c + 108) == revolute_joint_def_bytes(v),
    ensures
        revolute_joint_def_read(d, true, c) == (RevoluteJointDef { base: JointDef { user_data: 0, ..v.base }, ..v }, (true, c + 108)),
{
    lemma_split(d, c, joint_base_bytes(v.base), revolute_joint_field_bytes(v));
    law_joint_base_round_trip(v.base, d, c);
    lemma_revolute_joint_fields_round_trip(JointDef { user_data: 0, ..v.base }, v, d, c + 77);
}

/// The fields of a weld joint definition after its shared part, read at
/// `(ok, c)` onto `base`.
pub open spec fn weld_joint_fields_read(base: JointDef, d: Seq<u8>, ok: bool, c: int) -> (WeldJointDef, (bool, int)) {
    let (linear_hertz, s1) = u32_read(d, ok, c);
    let (angular_hertz, s2) = u32_read(d, s1.0, s1.1);
    let (linear_damping_ratio, s3) = u32_read(d, s2.0, s2.1);
    let (angular_damping_ratio, s4) = u32_read(d, s3.0, s3.1);
    (WeldJointDef { base, linear_hertz, angular_hertz, linear_damping_ratio, angular_damping_ratio }, s4)
}

/// A weld joint definition read at `(ok, c)`: the shared part, then its own
/// fields in order.
pub open spec fn weld_joint_def_read(d: Seq<u8>, ok: bool, c: int) -> (WeldJointDef, (bool, int)) {
    let (base, s) = joint_base_read(d, ok, c);
    weld_joint_fields_read(base, d, s.0, s.1)
}

/// Read a weld joint definition, as its create record carries it.
pub fn r_weld_joint_def(r: &mut SnapReader) -> (def: WeldJointDef)
    ensures
        final(r).data@ == old(r).data@,
        (def, (final(r).ok, final(r).cursor as int)) == weld_joint_def_read(old(r).data@, old(r).ok, old(r).cursor as int),
{
    let base = r_joint_base(r);
    let linear_hertz = read_u32(r);
    let angular_hertz = read_u32(r);
    let linear_damping_ratio = read_u32(r);
    let angular_damping_ratio = read_u32(r);
    WeldJointDef { base, linear_hertz, angular_hertz, linear_damping_ratio, angular_damping_ratio }
}

/// The fields of a weld joint definition read back from their encoding.
proof fn lemma_weld_joint_fields_round_trip(base: JointDef, v: WeldJointDef, d: Seq<u8>, c: int)
    requires
        0 <= c,
        c + 16 <= d.len(),
        d.subrange(c, c + 16) == weld_joint_field_bytes(v),
    ensures
        weld_joint_fields_read(base, d, true, c) == (WeldJointDef { base, ..v }, (true, c + 16)),
{
    lemma_split(d, c, u32_bytes(v.linear_hertz) + u32_bytes(v.angular_hertz) + u32_bytes(v.linear_damping_ratio), u32_bytes(v.angular_damping_ratio));
    lemma_split(d, c, u32_bytes(v.linear_hertz) + u32_bytes(v.angular_hertz), u32_bytes(v.linear_damping_ratio));
    lemma_split(d, c, u32_bytes(v.linear_hertz), u32_bytes(v.angular_hertz));
    lemma_u32_read_back(v.linear_hertz, d, c + 0);
    lemma_u32_read_back(v.angular_hertz, d, c + 4);
    lemma_u32_read_back(v.linear_damping_ratio, d, c + 8);
    lemma_u32_read_back(v.angular_damping_ratio, d, c + 12);
}

/// A weld joint definition reads back from its encoding, its user data
/// as zero.
pub proof fn law_weld_joint_def_round_trip(v: WeldJointDef, d: Seq<u8>, c: int)
    requires
        0 <= c,
        c + 93 <= d.len(),
        d.subrange(c, c + 93) == weld_joint_def_bytes(v),
    ensures
        weld_joint_def_read(d, true, c) == (WeldJointDef { base: JointDef { user_data: 0, ..v.base }, ..v }, (true, c + 93)),
{
    lemma_split(d, c, joint_base_bytes(v.base), weld_joint_field_bytes(v));
    law_joint_base_round_trip(v.base, d, c);
    lemma_weld_joint_fields_round_trip(JointDef { user_data: 0, ..v.base }, v, d, c + 77);
}

/// The fields of a wheel joint definition after its shared part, read at
/// `(ok, c)` onto `base`.
pub open spec fn wheel_joint_fields_read(base: JointDef, d: Seq<u8>, ok: bool, c: int) -> (WheelJointDef, (bool, int)) {
    let (enable_spring, s1) = bool_read(d, ok, c);
    let (hertz, s2) = u32_read(d, s1.0, s1.1);
    let (damping_ratio, s3) = u32_read(d, s2.0, s2.1);
    let (enable_limit, s4) = bool_read(d, s3.0, s3.1);
    let (lower_translation, s5) = u32_read(d, s4.0, s4.1);
    let (upper_translation, s6) = u32_read(d, s5.0, s5.1);
    let (enable_motor, s7) = bool_read(d, s6.0, s6.1);
    let (max_motor_torque, s8) = u32_read(d, s7.0, s7.1);
    let (motor_speed, s9) = u32_read(d, s8.0, s8.1);
    (WheelJointDef { base, enable_spring, hertz, damping_ratio, enable_limit, lower_translation, upper_translation, enable_motor, max_motor_torque, motor_speed }, s9)
}

/// A wheel joint definition read at `(ok, c)`: the shared part, then its own
/// fields in order.
pub open spec fn wheel_joint_def_read(d: Seq<u8>, ok: bool, c: int) -> (WheelJointDef, (bool, int)) {
    let (base, s) = joint_base_read(d, ok, c);
    wheel_joint_fields_read(base, d, s.0, s.1)
}

/// Read a wheel joint definition, as its create record carries it.
pub fn r_wheel_joint_def(r: &mut SnapReader) -> (def: WheelJointDef)
    ensures
        final(r).data@ == old(r).data@,
        (def, (final(r).ok, final(r).cursor as int)) == wheel_joint_def_read(old(r).data@, old(r).ok, old(r).cursor as int),
{
    let base = r_joint_base(r);
    let enable_spring = read_bool(r);
    let hertz = read_u32(r);
    let damping_ratio = read_u32(r);
    let enable_limit = read_bool(r);
    let lower_translation = read_u32(r);
    let upper_translation = read_u32(r);
    let enable_motor = read_bool(r);
    let max_motor_torque = read_u32(r);
    let motor_speed = read_u32(r);
    WheelJointDef { base, enable_spring, hertz, damping_ratio, enable_limit, lower_translation, upper_translation, enable_motor, max_motor_torque, motor_speed }
}

/// The fields of a wheel joint definition read back from their encoding.
proof fn lemma_wheel_joint_fields_round_trip(base: JointDef, v: WheelJointDef, d: Seq<u8>, c: int)
    requires
        0 <= c,
        c + 27 <= d.len(),
        d.subrange(c, c + 27) == wheel_joint_field_bytes(v),
    ensures
        wheel_joint_fields_read(base, d, true, c) == (WheelJointDef { base, ..v }, (true, c + 27)),
{
    lemma_split(d, c, seq![bool_byte(v.enable_spring)] + u32_bytes(v.hertz) + u32_bytes(v.damping_ratio) + seq![bool_byte(v.enable_limit)] + u32_bytes(v.lower_translation) + u32_bytes(v.upper_translation) + seq![bool_byte(v.enable_motor)] + u32_bytes(v.max_motor_torque), u32_bytes(v.motor_speed));
    lemma_split(d, c, seq![bool_byte(v.enable_spring)] + u32_bytes(v.hertz) + u32_bytes(v.damping_ratio) + seq![bool_byte(v.enable_limit)] + u32_bytes(v.lower_translation) + u32_bytes(v.upper_translation) + seq![bool_byte(v.enable_motor)], u32_bytes(v.max_motor_torque));
    lemma_split(d, c, seq![bool_byte(v.enable_spring)] + u32_bytes(v.hertz) + u32_bytes(v.damping_ratio) + seq![bool_byte(v.enable_limit)] + u32_bytes(v.lower_translation) + u32_bytes(v.upper_translation), seq![bool_byte(v.enable_motor)]);
    lemma_split(d, c, seq![bool_byte(v.enable_spring)] + u32_bytes(v.hertz) + u32_bytes(v.damping_ratio) + seq![bool_byte(v.enable_limit)] + u32_bytes(v.lower_translation), u32_bytes(v.upper_translation));
    lemma_split(d, c, seq![bool_byte(v.enable_spring)] + u32_bytes(v.hertz) + u32_bytes(v.damping_ratio) + seq![bool_byte(v.enable_limit)], u32_bytes(v.lower_translation));
    lemma_split(d, c, seq![bool_byte(v.enable_spring)] + u32_bytes(v.hertz) + u32_bytes(v.damping_ratio), seq![bool_byte(v.enable_limit)]);
    lemma_split(d, c, seq![bool_byte(v.enable_spring)] + u32_bytes(v.hertz), u32_bytes(v.damping_ratio));
    lemma_split(d, c, seq![bool_byte(v.enable_spring)], u32_bytes(v.hertz));
    lemma_bool_read_back(v.enable_spring, d, c + 0);
    lemma_u32_read_back(v.hertz, d, c + 1);
    lemma_u32_read_back(v.damping_ratio, d, c + 5);
    lemma_bool_read_back(v.enable_limit, d, c + 9);
    lemma_u32_read_back(v.lower_translation, d, c + 10);
    lemma_u32_read_back(v.upper_translation, d, c + 14);
    lemma_bool_read_back(v.enable_motor, d, c + 18);
    lemma_u32_read_back(v.max_motor_torque, d, c + 19);
    lemma_u32_read_back(v.motor_speed, d, c + 23);
}

/// A wheel joint definition reads back from its encoding, its user data
/// as zero.
pub proof fn law_wheel_joint_def_round_trip(v: WheelJointDef, d: Seq<u8>, c: int)
    requires
        0 <= c,
        c + 104 <= d.len(),
        d.subrange(c, c + 104) == wheel_joint_def_bytes(v),
    ensures
        wheel_joint_def_read(d, true, c) == (WheelJointDef { base: JointDef { user_data: 0, ..v.base }, ..v }, (true, c + 104)),
{
    lemma_split(d, c, joint_base_bytes(v.base), wheel_joint_field_bytes(v));
    law_joint_base_round_trip(v.base, d, c);
    lemma_wheel_joint_fields_round_trip(JointDef { user_data: 0, ..v.base }, v, d, c + 77);
}

/// Read a filter joint definition: the shared part alone.
pub fn r_filter_joint_def(r: &mut SnapReader) -> (def: FilterJointDef)
    ensures
        final(r).data@ == old(r).data@,
        (def.base, (final(r).ok, final(r).cursor as int)) == joint_base_read(old(r).data@, old(r).ok, old(r).cursor as int),
{
    FilterJointDef { base: r_joint_base(r) }
}

} // verus!
