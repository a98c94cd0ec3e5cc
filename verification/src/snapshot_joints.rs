use vstd::prelude::*;
use crate::geometry::{Mat22, Rot, Transform, Vec2};
use crate::joint::{
    joint_type_code, joint_type_of, payload_type, DistanceJoint, Joint, JointPayload, JointSim, JointType, MotorJoint,
    PrismaticJoint, RevoluteJoint, Softness, WeldJoint, WheelJoint,
};
use crate::containers::lemma_i32_bits;
use crate::snapshot::{after, lemma_u32_round_trip, value_at, word_at, SnapReader};
use crate::snapshot_structs::{r_joint_type, Edge};
use crate::write::{
    bool_byte, le_value, lemma_le_round_trip, pow256, rec_w_bool, rec_w_u16, rec_w_u32, rec_w_u64, rec_w_u8, u16_bytes,
    u32_bytes, u64_bytes,
};

verus! {

broadcast use crate::write::lemma_le_bytes_len;

// A joint's solver data travels as a run of little-endian words (every
// real value as its bit pattern, every signed index as its two's
// complement bits) and, after them, its switches a byte each. Reads are
// sequential; once one runs past the end, it and all later ones give zero
// and the reader is bad.

/// Concatenated wire forms of a run of words.
pub open spec fn u32s_bytes(s: Seq<u32>) -> Seq<u8>
    decreases s.len(),
{
    if s.len() == 0 {
        Seq::empty()
    } else {
        u32s_bytes(s.drop_last()) + u32_bytes(s.last())
    }
}

/// Wire form of a run of flags: a byte each.
pub open spec fn flags_bytes(s: Seq<bool>) -> Seq<u8> {
    Seq::new(s.len(), |i: int| bool_byte(s[i]))
}

/// Reader state after `n` word reads from `(ok, c)`: all of them when
/// they fit, otherwise as many as fit, with the reader bad.
pub open spec fn words_after(d: Seq<u8>, ok: bool, c: int, n: int) -> (bool, int) {
    if n <= 0 {
        (ok, c)
    } else if !ok || c > d.len() {
        (false, c)
    } else if c + 4 * n <= d.len() {
        (true, c + 4 * n)
    } else {
        (false, c + 4 * ((d.len() - c) / 4))
    }
}

/// Reader state after `n` one-byte reads from `(ok, c)`.
pub open spec fn bytes_after(d: Seq<u8>, ok: bool, c: int, n: int) -> (bool, int) {
    if n <= 0 {
        (ok, c)
    } else if !ok || c > d.len() {
        (false, c)
    } else if c + n <= d.len() {
        (true, c + n)
    } else {
        (false, d.len() as int)
    }
}

/// The `k`-th of a run of flag reads from `(ok, c)`: its byte is non-zero,
/// or false when the input ran out before it.
pub open spec fn flag_at(d: Seq<u8>, ok: bool, c: int, k: int) -> bool {
    ok && 0 <= c && c + k + 1 <= d.len() && d[c + k] != 0
}

/// Append a run of words.
fn w_u32s(buf: &mut Vec<u8>, s: &Vec<u32>)
    ensures
        final(buf)@ == old(buf)@ + u32s_bytes(s@),
{
    let ghost start = buf@;
    let mut i: usize = 0;
    while i < s.len()
        invariant
            0 <= i <= s@.len(),
            buf@ == start + u32s_bytes(s@.take(i as int)),
        decreases s@.len() - i,
    {
        rec_w_u32(buf, s[i]);
        i = i + 1;
        assert(s@.take(i as int).drop_last() =~= s@.take(i - 1));
        assert(buf@ =~= start + u32s_bytes(s@.take(i as int)));
    }
    assert(s@.take(s@.len() as int) =~= s@);
}

/// Append a run of flags.
fn w_flags(buf: &mut Vec<u8>, s: &Vec<bool>)
    ensures
        final(buf)@ == old(buf)@ + flags_bytes(s@),
{
    let ghost start = buf@;
    let mut i: usize = 0;
    while i < s.len()
        invariant
            0 <= i <= s@.len(),
            buf@ == start + flags_bytes(s@.take(i as int)),
        decreases s@.len() - i,
    {
        rec_w_bool(buf, s[i]);
        i = i + 1;
        assert(buf@ =~= start + flags_bytes(s@.take(i as int)));
    }
    assert(s@.take(s@.len() as int) =~= s@);
}

/// Read a run of `n` words.
fn read_words(r: &mut SnapReader, n: usize) -> (ws: Vec<u32>)
    ensures
        final(r).data@ == old(r).data@,
        ws@.len() == n,
        forall|k: int| 0 <= k < n ==> #[trigger] ws@[k] == word_at(old(r).data@, old(r).ok, old(r).cursor as int, k),
        (final(r).ok, final(r).cursor as int) == words_after(old(r).data@, old(r).ok, old(r).cursor as int, n as int),
{
    let ghost d = old(r).data@;
    let ghost ok0 = old(r).ok;
    let ghost c0 = old(r).cursor as int;
    let mut ws: Vec<u32> = Vec::new();
    let mut i: usize = 0;
    while i < n
        invariant
            0 <= i <= n,
            r.data@ == d,
            ws@.len() == i,
            forall|k: int| 0 <= k < i ==> #[trigger] ws@[k] == word_at(d, ok0, c0, k),
            (r.ok, r.cursor as int) == words_after(d, ok0, c0, i as int),
        decreases n - i,
    {
        let v = r.r_u32();
        proof {
            if ok0 && c0 <= d.len() && c0 + 4 * i <= d.len() && c0 + 4 * i + 4 > d.len() {
                assert((d.len() - c0) / 4 == i);
            }
        }
        ws.push(v);
        i = i + 1;
    }
    ws
}

/// Read a run of `n` flags.
fn read_flags(r: &mut SnapReader, n: usize) -> (fs: Vec<bool>)
    ensures
        final(r).data@ == old(r).data@,
        fs@.len() == n,
        forall|k: int| 0 <= k < n ==> #[trigger] fs@[k] == flag_at(old(r).data@, old(r).ok, old(r).cursor as int, k),
        (final(r).ok, final(r).cursor as int) == bytes_after(old(r).data@, old(r).ok, old(r).cursor as int, n as int),
{
    let ghost d = old(r).data@;
    let ghost ok0 = old(r).ok;
    let ghost c0 = old(r).cursor as int;
    let mut fs: Vec<bool> = Vec::new();
    let mut i: usize = 0;
    while i < n
        invariant
            0 <= i <= n,
            r.data@ == d,
            0 <= c0,
            fs@.len() == i,
            forall|k: int| 0 <= k < i ==> #[trigger] fs@[k] == flag_at(d, ok0, c0, k),
            (r.ok, r.cursor as int) == bytes_after(d, ok0, c0, i as int),
        decreases n - i,
    {
        let v = r.r_bool();
        assert(v == flag_at(d, ok0, c0, i as int));
        fs.push(v);
        i = i + 1;
    }
    fs
}

/// The words a joint's type-specific data travels as, in order; a
/// signed field travels as its two's complement bits.
pub open spec fn payload_words(p: JointPayload) -> Seq<u32> {
    match p {
        JointPayload::Distance(j) => seq![
            j.length, j.hertz, j.damping_ratio, j.lower_spring_force, j.upper_spring_force, j.min_length,
            j.max_length, j.max_motor_force, j.motor_speed, j.impulse, j.lower_impulse, j.upper_impulse,
            j.motor_impulse, j.index_a as u32, j.index_b as u32, j.anchor_a.x, j.anchor_a.y, j.anchor_b.x,
            j.anchor_b.y, j.delta_center.x, j.delta_center.y, j.distance_softness.bias_rate,
            j.distance_softness.mass_scale, j.distance_softness.impulse_scale, j.axial_mass,
        ],
        JointPayload::Filter => Seq::empty(),
        JointPayload::Motor(j) => seq![
            j.linear_velocity.x, j.linear_velocity.y, j.max_velocity_force, j.angular_velocity,
            j.max_velocity_torque, j.linear_hertz, j.linear_damping_ratio, j.max_spring_force,
            j.angular_hertz, j.angular_damping_ratio, j.max_spring_torque, j.linear_velocity_impulse.x,
            j.linear_velocity_impulse.y, j.angular_velocity_impulse, j.linear_spring_impulse.x,
            j.linear_spring_impulse.y, j.angular_spring_impulse, j.linear_spring.bias_rate,
            j.linear_spring.mass_scale, j.linear_spring.impulse_scale, j.angular_spring.bias_rate,
            j.angular_spring.mass_scale, j.angular_spring.impulse_scale, j.index_a as u32, j.index_b as u32,
            j.frame_a.p.x, j.frame_a.p.y, j.frame_a.q.c, j.frame_a.q.s, j.frame_b.p.x, j.frame_b.p.y,
            j.frame_b.q.c, j.frame_b.q.s, j.delta_center.x, j.delta_center.y, j.linear_mass.cx.x,
            j.linear_mass.cx.y, j.linear_mass.cy.x, j.linear_mass.cy.y, j.angular_mass,
        ],
        JointPayload::Prismatic(j) => seq![
            j.impulse.x, j.impulse.y, j.spring_impulse, j.motor_impulse, j.lower_impulse, j.upper_impulse,
            j.hertz, j.damping_ratio, j.target_translation, j.max_motor_force, j.motor_speed,
            j.lower_translation, j.upper_translation, j.index_a as u32, j.index_b as u32, j.frame_a.p.x,
            j.frame_a.p.y, j.frame_a.q.c, j.frame_a.q.s, j.frame_b.p.x, j.frame_b.p.y, j.frame_b.q.c,
            j.frame_b.q.s, j.delta_center.x, j.delta_center.y, j.spring_softness.bias_rate,
            j.spring_softness.mass_scale, j.spring_softness.impulse_scale,
        ],
        JointPayload::Revolute(j) => seq![
            j.linear_impulse.x, j.linear_impulse.y, j.spring_impulse, j.motor_impulse, j.lower_impulse,
            j.upper_impulse, j.hertz, j.damping_ratio, j.target_angle, j.max_motor_torque, j.motor_speed,
            j.lower_angle, j.upper_angle, j.index_a as u32, j.index_b as u32, j.frame_a.p.x, j.frame_a.p.y,
            j.frame_a.q.c, j.frame_a.q.s, j.frame_b.p.x, j.frame_b.p.y, j.frame_b.q.c, j.frame_b.q.s,
            j.delta_center.x, j.delta_center.y, j.axial_mass, j.spring_softness.bias_rate,
            j.spring_softness.mass_scale, j.spring_softness.impulse_scale,
        ],
        JointPayload::Weld(j) => seq![
            j.linear_hertz, j.linear_damping_ratio, j.angular_hertz, j.angular_damping_ratio,
            j.linear_spring.bias_rate, j.linear_spring.mass_scale, j.linear_spring.impulse_scale,
            j.angular_spring.bias_rate, j.angular_spring.mass_scale, j.angular_spring.impulse_scale,
            j.linear_impulse.x, j.linear_impulse.y, j.angular_impulse, j.index_a as u32, j.index_b as u32,
            j.frame_a.p.x, j.frame_a.p.y, j.frame_a.q.c, j.frame_a.q.s, j.frame_b.p.x, j.frame_b.p.y,
            j.frame_b.q.c, j.frame_b.q.s, j.delta_center.x, j.delta_center.y, j.axial_mass,
        ],
        JointPayload::Wheel(j) => seq![
            j.perp_impulse, j.motor_impulse, j.spring_impulse, j.lower_impulse, j.upper_impulse,
            j.max_motor_torque, j.motor_speed, j.lower_translation, j.upper_translation, j.hertz,
            j.damping_ratio, j.index_a as u32, j.index_b as u32, j.frame_a.p.x, j.frame_a.p.y, j.frame_a.q.c,
            j.frame_a.q.s, j.frame_b.p.x, j.frame_b.p.y, j.frame_b.q.c, j.frame_b.q.s, j.delta_center.x,
            j.delta_center.y, j.perp_mass, j.motor_mass, j.axial_mass, j.spring_softness.bias_rate,
            j.spring_softness.mass_scale, j.spring_softness.impulse_scale,
        ],
    }
}

/// The flags a joint's type-specific data travels as, a byte each, after
/// its words.
pub open spec fn payload_flags(p: JointPayload) -> Seq<bool> {
    match p {
        JointPayload::Distance(j) => seq![j.enable_spring, j.enable_limit, j.enable_motor],
        JointPayload::Filter => Seq::empty(),
        JointPayload::Motor(_) => Seq::empty(),
        JointPayload::Prismatic(j) => seq![j.enable_spring, j.enable_limit, j.enable_motor],
        JointPayload::Revolute(j) => seq![j.enable_spring, j.enable_motor, j.enable_limit],
        JointPayload::Weld(_) => Seq::empty(),
        JointPayload::Wheel(j) => seq![j.enable_spring, j.enable_motor, j.enable_limit],
    }
}

/// How many words and flags follow a payload tag; an unknown tag reads as
/// a wheel joint.
pub open spec fn payload_shape(tag: u8) -> (int, int) {
    if tag == 0 {
        (25, 3)
    } else if tag == 1 {
        (0, 0)
    } else if tag == 2 {
        (40, 0)
    } else if tag == 3 {
        (28, 3)
    } else if tag == 4 {
        (29, 3)
    } else if tag == 5 {
        (26, 0)
    } else {
        (29, 3)
    }
}

/// The type-specific data a tag, words and flags stand for.
pub open spec fn payload_of(tag: u8, ws: Seq<u32>, fs: Seq<bool>) -> JointPayload {
    if tag == 0 {
        JointPayload::Distance(
            DistanceJoint {
                length: ws[0],
                hertz: ws[1],
                damping_ratio: ws[2],
                lower_spring_force: ws[3],
                upper_spring_force: ws[4],
                min_length: ws[5],
                max_length: ws[6],
                max_motor_force: ws[7],
                motor_speed: ws[8],
                impulse: ws[9],
                lower_impulse: ws[10],
                upper_impulse: ws[11],
                motor_impulse: ws[12],
                index_a: ws[13] as i32,
                index_b: ws[14] as i32,
                anchor_a: Vec2 { x: ws[15], y: ws[16] },
                anchor_b: Vec2 { x: ws[17], y: ws[18] },
                delta_center: Vec2 { x: ws[19], y: ws[20] },
                distance_softness: Softness { bias_rate: ws[21], mass_scale: ws[22], impulse_scale: ws[23] },
                axial_mass: ws[24],
                enable_spring: fs[0],
                enable_limit: fs[1],
                enable_motor: fs[2],
            },
        )
    } else if tag == 1 {
        JointPayload::Filter
    } else if tag == 2 {
        JointPayload::Motor(
            MotorJoint {
                linear_velocity: Vec2 { x: ws[0], y: ws[1] },
                max_velocity_force: ws[2],
                angular_velocity: ws[3],
                max_velocity_torque: ws[4],
                linear_hertz: ws[5],
                linear_damping_ratio: ws[6],
                max_spring_force: ws[7],
                angular_hertz: ws[8],
                angular_damping_ratio: ws[9],
                max_spring_torque: ws[10],
                linear_velocity_impulse: Vec2 { x: ws[11], y: ws[12] },
                angular_velocity_impulse: ws[13],
                linear_spring_impulse: Vec2 { x: ws[14], y: ws[15] },
                angular_spring_impulse: ws[16],
                linear_spring: Softness { bias_rate: ws[17], mass_scale: ws[18], impulse_scale: ws[19] },
                angular_spring: Softness { bias_rate: ws[20], mass_scale: ws[21], impulse_scale: ws[22] },
                index_a: ws[23] as i32,
                index_b: ws[24] as i32,
                frame_a: Transform { p: Vec2 { x: ws[25], y: ws[26] }, q: Rot { c: ws[27], s: ws[28] } },
                frame_b: Transform { p: Vec2 { x: ws[29], y: ws[30] }, q: Rot { c: ws[31], s: ws[32] } },
                delta_center: Vec2 { x: ws[33], y: ws[34] },
                linear_mass: Mat22 { cx: Vec2 { x: ws[35], y: ws[36] }, cy: Vec2 { x: ws[37], y: ws[38] } },
                angular_mass: ws[39],
            },
        )
    } else if tag == 3 {
        JointPayload::Prismatic(
            PrismaticJoint {
                impulse: Vec2 { x: ws[0], y: ws[1] },
                spring_impulse: ws[2],
                motor_impulse: ws[3],
                lower_impulse: ws[4],
                upper_impulse: ws[5],
                hertz: ws[6],
                damping_ratio: ws[7],
                target_translation: ws[8],
                max_motor_force: ws[9],
                motor_speed: ws[10],
                lower_translation: ws[11],
                upper_translation: ws[12],
                index_a: ws[13] as i32,
                index_b: ws[14] as i32,
                frame_a: Transform { p: Vec2 { x: ws[15], y: ws[16] }, q: Rot { c: ws[17], s: ws[18] } },
                frame_b: Transform { p: Vec2 { x: ws[19], y: ws[20] }, q: Rot { c: ws[21], s: ws[22] } },
                delta_center: Vec2 { x: ws[23], y: ws[24] },
                spring_softness: Softness { bias_rate: ws[25], mass_scale: ws[26], impulse_scale: ws[27] },
                enable_spring: fs[0],
                enable_limit: fs[1],
                enable_motor: fs[2],
            },
        )
    } else if tag == 4 {
        JointPayload::Revolute(
            RevoluteJoint {
                linear_impulse: Vec2 { x: ws[0], y: ws[1] },
                spring_impulse: ws[2],
                motor_impulse: ws[3],
                lower_impulse: ws[4],
                upper_impulse: ws[5],
                hertz: ws[6],
                damping_ratio: ws[7],
                target_angle: ws[8],
                max_motor_torque: ws[9],
                motor_speed: ws[10],
                lower_angle: ws[11],
                upper_angle: ws[12],
                index_a: ws[13] as i32,
                index_b: ws[14] as i32,
                frame_a: Transform { p: Vec2 { x: ws[15], y: ws[16] }, q: Rot { c: ws[17], s: ws[18] } },
                frame_b: Transform { p: Vec2 { x: ws[19], y: ws[20] }, q: Rot { c: ws[21], s: ws[22] } },
                delta_center: Vec2 { x: ws[23], y: ws[24] },
                axial_mass: ws[25],
                spring_softness: Softness { bias_rate: ws[26], mass_scale: ws[27], impulse_scale: ws[28] },
                enable_spring: fs[0],
                enable_motor: fs[1],
                enable_limit: fs[2],
            },
        )
    } else if tag == 5 {
        JointPayload::Weld(
            WeldJoint {
                linear_hertz: ws[0],
                linear_damping_ratio: ws[1],
                angular_hertz: ws[2],
                angular_damping_ratio: ws[3],
                linear_spring: Softness { bias_rate: ws[4], mass_scale: ws[5], impulse_scale: ws[6] },
                angular_spring: Softness { bias_rate: ws[7], mass_scale: ws[8], impulse_scale: ws[9] },
                linear_impulse: Vec2 { x: ws[10], y: ws[11] },
                angular_impulse: ws[12],
                index_a: ws[13] as i32,
                index_b: ws[14] as i32,
                frame_a: Transform { p: Vec2 { x: ws[15], y: ws[16] }, q: Rot { c: ws[17], s: ws[18] } },
                frame_b: Transform { p: Vec2 { x: ws[19], y: ws[20] }, q: Rot { c: ws[21], s: ws[22] } },
                delta_center: Vec2 { x: ws[23], y: ws[24] },
                axial_mass: ws[25],
            },
        )
    } else {
        JointPayload::Wheel(
            WheelJoint {
                perp_impulse: ws[0],
                motor_impulse: ws[1],
                spring_impulse: ws[2],
                lower_impulse: ws[3],
                upper_impulse: ws[4],
                max_motor_torque: ws[5],
                motor_speed: ws[6],
                lower_translation: ws[7],
                upper_translation: ws[8],
                hertz: ws[9],
                damping_ratio: ws[10],
                index_a: ws[11] as i32,
                index_b: ws[12] as i32,
                frame_a: Transform { p: Vec2 { x: ws[13], y: ws[14] }, q: Rot { c: ws[15], s: ws[16] } },
                frame_b: Transform { p: Vec2 { x: ws[17], y: ws[18] }, q: Rot { c: ws[19], s: ws[20] } },
                delta_center: Vec2 { x: ws[21], y: ws[22] },
                perp_mass: ws[23],
                motor_mass: ws[24],
                axial_mass: ws[25],
                spring_softness: Softness { bias_rate: ws[26], mass_scale: ws[27], impulse_scale: ws[28] },
                enable_spring: fs[0],
                enable_motor: fs[1],
                enable_limit: fs[2],
            },
        )
    }
}

/// The words of a joint's type-specific data.
fn payload_words_vec(p: &JointPayload) -> (ws: Vec<u32>)
    ensures
        ws@ == payload_words(*p),
{
    match p {
        JointPayload::Distance(j) => vec![
            j.length, j.hertz, j.damping_ratio, j.lower_spring_force, j.upper_spring_force, j.min_length,
            j.max_length, j.max_motor_force, j.motor_speed, j.impulse, j.lower_impulse, j.upper_impulse,
            j.motor_impulse, j.index_a as u32, j.index_b as u32, j.anchor_a.x, j.anchor_a.y, j.anchor_b.x,
            j.anchor_b.y, j.delta_center.x, j.delta_center.y, j.distance_softness.bias_rate,
            j.distance_softness.mass_scale, j.distance_softness.impulse_scale, j.axial_mass,
        ],
        JointPayload::Filter => Vec::new(),
        JointPayload::Motor(j) => vec![
            j.linear_velocity.x, j.linear_velocity.y, j.max_velocity_force, j.angular_velocity,
            j.max_velocity_torque, j.linear_hertz, j.linear_damping_ratio, j.max_spring_force,
            j.angular_hertz, j.angular_damping_ratio, j.max_spring_torque, j.linear_velocity_impulse.x,
            j.linear_velocity_impulse.y, j.angular_velocity_impulse, j.linear_spring_impulse.x,
            j.linear_spring_impulse.y, j.angular_spring_impulse, j.linear_spring.bias_rate,
            j.linear_spring.mass_scale, j.linear_spring.impulse_scale, j.angular_spring.bias_rate,
            j.angular_spring.mass_scale, j.angular_spring.impulse_scale, j.index_a as u32, j.index_b as u32,
            j.frame_a.p.x, j.frame_a.p.y, j.frame_a.q.c, j.frame_a.q.s, j.frame_b.p.x, j.frame_b.p.y,
            j.frame_b.q.c, j.frame_b.q.s, j.delta_center.x, j.delta_center.y, j.linear_mass.cx.x,
            j.linear_mass.cx.y, j.linear_mass.cy.x, j.linear_mass.cy.y, j.angular_mass,
        ],
        JointPayload::Prismatic(j) => vec![
            j.impulse.x, j.impulse.y, j.spring_impulse, j.motor_impulse, j.lower_impulse, j.upper_impulse,
            j.hertz, j.damping_ratio, j.target_translation, j.max_motor_force, j.motor_speed,
            j.lower_translation, j.upper_translation, j.index_a as u32, j.index_b as u32, j.frame_a.p.x,
            j.frame_a.p.y, j.frame_a.q.c, j.frame_a.q.s, j.frame_b.p.x, j.frame_b.p.y, j.frame_b.q.c,
            j.frame_b.q.s, j.delta_center.x, j.delta_center.y, j.spring_softness.bias_rate,
            j.spring_softness.mass_scale, j.spring_softness.impulse_scale,
        ],
        JointPayload::Revolute(j) => vec![
            j.linear_impulse.x, j.linear_impulse.y, j.spring_impulse, j.motor_impulse, j.lower_impulse,
            j.upper_impulse, j.hertz, j.damping_ratio, j.target_angle, j.max_motor_torque, j.motor_speed,
            j.lower_angle, j.upper_angle, j.index_a as u32, j.index_b as u32, j.frame_a.p.x, j.frame_a.p.y,
            j.frame_a.q.c, j.frame_a.q.s, j.frame_b.p.x, j.frame_b.p.y, j.frame_b.q.c, j.frame_b.q.s,
            j.delta_center.x, j.delta_center.y, j.axial_mass, j.spring_softness.bias_rate,
            j.spring_softness.mass_scale, j.spring_softness.impulse_scale,
        ],
        JointPayload::Weld(j) => vec![
            j.linear_hertz, j.linear_damping_ratio, j.angular_hertz, j.angular_damping_ratio,
            j.linear_spring.bias_rate, j.linear_spring.mass_scale, j.linear_spring.impulse_scale,
            j.angular_spring.bias_rate, j.angular_spring.mass_scale, j.angular_spring.impulse_scale,
            j.linear_impulse.x, j.linear_impulse.y, j.angular_impulse, j.index_a as u32, j.index_b as u32,
            j.frame_a.p.x, j.frame_a.p.y, j.frame_a.q.c, j.frame_a.q.s, j.frame_b.p.x, j.frame_b.p.y,
            j.frame_b.q.c, j.frame_b.q.s, j.delta_center.x, j.delta_center.y, j.axial_mass,
        ],
        JointPayload::Wheel(j) => vec![
            j.perp_impulse, j.motor_impulse, j.spring_impulse, j.lower_impulse, j.upper_impulse,
            j.max_motor_torque, j.motor_speed, j.lower_translation, j.upper_translation, j.hertz,
            j.damping_ratio, j.index_a as u32, j.index_b as u32, j.frame_a.p.x, j.frame_a.p.y, j.frame_a.q.c,
            j.frame_a.q.s, j.frame_b.p.x, j.frame_b.p.y, j.frame_b.q.c, j.frame_b.q.s, j.delta_center.x,
            j.delta_center.y, j.perp_mass, j.motor_mass, j.axial_mass, j.spring_softness.bias_rate,
            j.spring_softness.mass_scale, j.spring_softness.impulse_scale,
        ],
    }
}

/// The flags of a joint's type-specific data.
fn payload_flags_vec(p: &JointPayload) -> (fs: Vec<bool>)
    ensures
        fs@ == payload_flags(*p),
{
    match p {
        JointPayload::Distance(j) => vec![j.enable_spring, j.enable_limit, j.enable_motor],
        JointPayload::Filter => Vec::new(),
        JointPayload::Motor(_) => Vec::new(),
        JointPayload::Prismatic(j) => vec![j.enable_spring, j.enable_limit, j.enable_motor],
        JointPayload::Revolute(j) => vec![j.enable_spring, j.enable_motor, j.enable_limit],
        JointPayload::Weld(_) => Vec::new(),
        JointPayload::Wheel(j) => vec![j.enable_spring, j.enable_motor, j.enable_limit],
    }
}

/// The type-specific data a tag, words and flags stand for.
fn payload_from(tag: u8, ws: &Vec<u32>, fs: &Vec<bool>) -> (p: JointPayload)
    requires
        ws@.len() == payload_shape(tag).0,
        fs@.len() == payload_shape(tag).1,
    ensures
        p == payload_of(tag, ws@, fs@),
{
    if tag == 0 {
        JointPayload::Distance(
            DistanceJoint {
                length: ws[0],
                hertz: ws[1],
                damping_ratio: ws[2],
                lower_spring_force: ws[3],
                upper_spring_force: ws[4],
                min_length: ws[5],
                max_length: ws[6],
                max_motor_force: ws[7],
                motor_speed: ws[8],
                impulse: ws[9],
                lower_impulse: ws[10],
                upper_impulse: ws[11],
                motor_impulse: ws[12],
                index_a: ws[13] as i32,
                index_b: ws[14] as i32,
                anchor_a: Vec2 { x: ws[15], y: ws[16] },
                anchor_b: Vec2 { x: ws[17], y: ws[18] },
                delta_center: Vec2 { x: ws[19], y: ws[20] },
                distance_softness: Softness { bias_rate: ws[21], mass_scale: ws[22], impulse_scale: ws[23] },
                axial_mass: ws[24],
                enable_spring: fs[0],
                enable_limit: fs[1],
                enable_motor: fs[2],
            },
        )
    } else if tag == 1 {
        JointPayload::Filter
    } else if tag == 2 {
        JointPayload::Motor(
            MotorJoint {
                linear_velocity: Vec2 { x: ws[0], y: ws[1] },
                max_velocity_force: ws[2],
                angular_velocity: ws[3],
                max_velocity_torque: ws[4],
                linear_hertz: ws[5],
                linear_damping_ratio: ws[6],
                max_spring_force: ws[7],
                angular_hertz: ws[8],
                angular_damping_ratio: ws[9],
                max_spring_torque: ws[10],
                linear_velocity_impulse: Vec2 { x: ws[11], y: ws[12] },
                angular_velocity_impulse: ws[13],
                linear_spring_impulse: Vec2 { x: ws[14], y: ws[15] },
                angular_spring_impulse: ws[16],
                linear_spring: Softness { bias_rate: ws[17], mass_scale: ws[18], impulse_scale: ws[19] },
                angular_spring: Softness { bias_rate: ws[20], mass_scale: ws[21], impulse_scale: ws[22] },
                index_a: ws[23] as i32,
                index_b: ws[24] as i32,
                frame_a: Transform { p: Vec2 { x: ws[25], y: ws[26] }, q: Rot { c: ws[27], s: ws[28] } },
                frame_b: Transform { p: Vec2 { x: ws[29], y: ws[30] }, q: Rot { c: ws[31], s: ws[32] } },
                delta_center: Vec2 { x: ws[33], y: ws[34] },
                linear_mass: Mat22 { cx: Vec2 { x: ws[35], y: ws[36] }, cy: Vec2 { x: ws[37], y: ws[38] } },
                angular_mass: ws[39],
            },
        )
    } else if tag == 3 {
        JointPayload::Prismatic(
            PrismaticJoint {
                impulse: Vec2 { x: ws[0], y: ws[1] },
                spring_impulse: ws[2],
                motor_impulse: ws[3],
                lower_impulse: ws[4],
                upper_impulse: ws[5],
                hertz: ws[6],
                damping_ratio: ws[7],
                target_translation: ws[8],
                max_motor_force: ws[9],
                motor_speed: ws[10],
                lower_translation: ws[11],
                upper_translation: ws[12],
                index_a: ws[13] as i32,
                index_b: ws[14] as i32,
                frame_a: Transform { p: Vec2 { x: ws[15], y: ws[16] }, q: Rot { c: ws[17], s: ws[18] } },
                frame_b: Transform { p: Vec2 { x: ws[19], y: ws[20] }, q: Rot { c: ws[21], s: ws[22] } },
                delta_center: Vec2 { x: ws[23], y: ws[24] },
                spring_softness: Softness { bias_rate: ws[25], mass_scale: ws[26], impulse_scale: ws[27] },
                enable_spring: fs[0],
                enable_limit: fs[1],
                enable_motor: fs[2],
            },
        )
    } else if tag == 4 {
        JointPayload::Revolute(
            RevoluteJoint {
                linear_impulse: Vec2 { x: ws[0], y: ws[1] },
                spring_impulse: ws[2],
                motor_impulse: ws[3],
                lower_impulse: ws[4],
                upper_impulse: ws[5],
                hertz: ws[6],
                damping_ratio: ws[7],
                target_angle: ws[8],
                max_motor_torque: ws[9],
                motor_speed: ws[10],
                lower_angle: ws[11],
                upper_angle: ws[12],
                index_a: ws[13] as i32,
                index_b: ws[14] as i32,
                frame_a: Transform { p: Vec2 { x: ws[15], y: ws[16] }, q: Rot { c: ws[17], s: ws[18] } },
                frame_b: Transform { p: Vec2 { x: ws[19], y: ws[20] }, q: Rot { c: ws[21], s: ws[22] } },
                delta_center: Vec2 { x: ws[23], y: ws[24] },
                axial_mass: ws[25],
                spring_softness: Softness { bias_rate: ws[26], mass_scale: ws[27], impulse_scale: ws[28] },
                enable_spring: fs[0],
                enable_motor: fs[1],
                enable_limit: fs[2],
            },
        )
    } else if tag == 5 {
        JointPayload::Weld(
            WeldJoint {
                linear_hertz: ws[0],
                linear_damping_ratio: ws[1],
                angular_hertz: ws[2],
                angular_damping_ratio: ws[3],
                linear_spring: Softness { bias_rate: ws[4], mass_scale: ws[5], impulse_scale: ws[6] },
                angular_spring: Softness { bias_rate: ws[7], mass_scale: ws[8], impulse_scale: ws[9] },
                linear_impulse: Vec2 { x: ws[10], y: ws[11] },
                angular_impulse: ws[12],
                index_a: ws[13] as i32,
                index_b: ws[14] as i32,
                frame_a: Transform { p: Vec2 { x: ws[15], y: ws[16] }, q: Rot { c: ws[17], s: ws[18] } },
                frame_b: Transform { p: Vec2 { x: ws[19], y: ws[20] }, q: Rot { c: ws[21], s: ws[22] } },
                delta_center: Vec2 { x: ws[23], y: ws[24] },
                axial_mass: ws[25],
            },
        )
    } else {
        JointPayload::Wheel(
            WheelJoint {
                perp_impulse: ws[0],
                motor_impulse: ws[1],
                spring_impulse: ws[2],
                lower_impulse: ws[3],
                upper_impulse: ws[4],
                max_motor_torque: ws[5],
                motor_speed: ws[6],
                lower_translation: ws[7],
                upper_translation: ws[8],
                hertz: ws[9],
                damping_ratio: ws[10],
                index_a: ws[11] as i32,
                index_b: ws[12] as i32,
                frame_a: Transform { p: Vec2 { x: ws[13], y: ws[14] }, q: Rot { c: ws[15], s: ws[16] } },
                frame_b: Transform { p: Vec2 { x: ws[17], y: ws[18] }, q: Rot { c: ws[19], s: ws[20] } },
                delta_center: Vec2 { x: ws[21], y: ws[22] },
                perp_mass: ws[23],
                motor_mass: ws[24],
                axial_mass: ws[25],
                spring_softness: Softness { bias_rate: ws[26], mass_scale: ws[27], impulse_scale: ws[28] },
                enable_spring: fs[0],
                enable_motor: fs[1],
                enable_limit: fs[2],
            },
        )
    }
}

/// The words of a joint's shared solver data, in order.
pub open spec fn sim_words(s: JointSim) -> Seq<u32> {
    seq![
        s.joint_id as u32, s.body_id_a as u32, s.body_id_b as u32, s.local_frame_a.p.x, s.local_frame_a.p.y,
        s.local_frame_a.q.c, s.local_frame_a.q.s, s.local_frame_b.p.x, s.local_frame_b.p.y,
        s.local_frame_b.q.c, s.local_frame_b.q.s, s.inv_mass_a, s.inv_mass_b, s.inv_i_a, s.inv_i_b,
        s.constraint_hertz, s.constraint_damping_ratio, s.constraint_softness.bias_rate,
        s.constraint_softness.mass_scale, s.constraint_softness.impulse_scale, s.force_threshold,
        s.torque_threshold,
    ]
}

/// The shared solver data that words stand for, with the given payload.
pub open spec fn sim_of_words(ws: Seq<u32>, payload: JointPayload) -> JointSim {
    JointSim {
        joint_id: ws[0] as i32,
        body_id_a: ws[1] as i32,
        body_id_b: ws[2] as i32,
        local_frame_a: Transform { p: Vec2 { x: ws[3], y: ws[4] }, q: Rot { c: ws[5], s: ws[6] } },
        local_frame_b: Transform { p: Vec2 { x: ws[7], y: ws[8] }, q: Rot { c: ws[9], s: ws[10] } },
        inv_mass_a: ws[11],
        inv_mass_b: ws[12],
        inv_i_a: ws[13],
        inv_i_b: ws[14],
        constraint_hertz: ws[15],
        constraint_damping_ratio: ws[16],
        constraint_softness: Softness { bias_rate: ws[17], mass_scale: ws[18], impulse_scale: ws[19] },
        force_threshold: ws[20],
        torque_threshold: ws[21],
        payload: payload,
    }
}

fn sim_words_vec(s: &JointSim) -> (ws: Vec<u32>)
    ensures
        ws@ == sim_words(*s),
{
    vec![
        s.joint_id as u32, s.body_id_a as u32, s.body_id_b as u32, s.local_frame_a.p.x, s.local_frame_a.p.y,
        s.local_frame_a.q.c, s.local_frame_a.q.s, s.local_frame_b.p.x, s.local_frame_b.p.y,
        s.local_frame_b.q.c, s.local_frame_b.q.s, s.inv_mass_a, s.inv_mass_b, s.inv_i_a, s.inv_i_b,
        s.constraint_hertz, s.constraint_damping_ratio, s.constraint_softness.bias_rate,
        s.constraint_softness.mass_scale, s.constraint_softness.impulse_scale, s.force_threshold,
        s.torque_threshold,
    ]
}

fn sim_from(ws: &Vec<u32>, payload: JointPayload) -> (s: JointSim)
    requires
        ws@.len() == 22,
    ensures
        s == sim_of_words(ws@, payload),
{
    JointSim {
        joint_id: ws[0] as i32,
        body_id_a: ws[1] as i32,
        body_id_b: ws[2] as i32,
        local_frame_a: Transform { p: Vec2 { x: ws[3], y: ws[4] }, q: Rot { c: ws[5], s: ws[6] } },
        local_frame_b: Transform { p: Vec2 { x: ws[7], y: ws[8] }, q: Rot { c: ws[9], s: ws[10] } },
        inv_mass_a: ws[11],
        inv_mass_b: ws[12],
        inv_i_a: ws[13],
        inv_i_b: ws[14],
        constraint_hertz: ws[15],
        constraint_damping_ratio: ws[16],
        constraint_softness: Softness { bias_rate: ws[17], mass_scale: ws[18], impulse_scale: ws[19] },
        force_threshold: ws[20],
        torque_threshold: ws[21],
        payload: payload,
    }
}

/// Wire form of a joint's type-specific data: its type's number, its
/// words, its flags.
pub open spec fn payload_bytes(p: JointPayload) -> Seq<u8> {
    seq![joint_type_code(payload_type(p))] + u32s_bytes(payload_words(p)) + flags_bytes(payload_flags(p))
}

/// What reading a joint's type-specific data from `(ok, c)` gives, and the
/// reader state after it.
pub open spec fn payload_read(d: Seq<u8>, ok: bool, c: int) -> (JointPayload, (bool, int)) {
    let tag: u8 = if ok && 0 <= c && c + 1 <= d.len() { d[c] } else { 0 };
    let s1 = after(d, ok, c, 1);
    let shape = payload_shape(tag);
    let s2 = words_after(d, s1.0, s1.1, shape.0);
    let ws = Seq::new(shape.0 as nat, |k: int| word_at(d, s1.0, s1.1, k));
    let fs = Seq::new(shape.1 as nat, |k: int| flag_at(d, s2.0, s2.1, k));
    (payload_of(tag, ws, fs), bytes_after(d, s2.0, s2.1, shape.1))
}

/// The type-specific data of a joint: its type's number, then its words and
/// flags.
pub fn ser_payload(buf: &mut Vec<u8>, p: &JointPayload)
    ensures
        final(buf)@ == old(buf)@ + payload_bytes(*p),
{
    let tag = payload_type_code(p);
    rec_w_u8(buf, tag);
    let ws = payload_words_vec(p);
    w_u32s(buf, &ws);
    let fs = payload_flags_vec(p);
    w_flags(buf, &fs);
    assert(buf@ =~= old(buf)@ + payload_bytes(*p));
}

/// The number a payload's joint type travels as.
fn payload_type_code(p: &JointPayload) -> (c: u8)
    ensures
        c == joint_type_code(payload_type(*p)),
{
    match p {
        JointPayload::Distance(_) => 0,
        JointPayload::Filter => 1,
        JointPayload::Motor(_) => 2,
        JointPayload::Prismatic(_) => 3,
        JointPayload::Revolute(_) => 4,
        JointPayload::Weld(_) => 5,
        JointPayload::Wheel(_) => 6,
    }
}

/// How many words and flags follow a payload tag, as values.
fn payload_counts(tag: u8) -> (n: (usize, usize))
    ensures
        n.0 == payload_shape(tag).0,
        n.1 == payload_shape(tag).1,
{
    if tag == 0 {
        (25, 3)
    } else if tag == 1 {
        (0, 0)
    } else if tag == 2 {
        (40, 0)
    } else if tag == 3 {
        (28, 3)
    } else if tag == 4 {
        (29, 3)
    } else if tag == 5 {
        (26, 0)
    } else {
        (29, 3)
    }
}

/// Read a joint's type-specific data: its type's number, then the words
/// and flags that type has; an unknown number reads as a wheel joint.
pub fn des_payload(r: &mut SnapReader) -> (p: JointPayload)
    ensures
        final(r).data@ == old(r).data@,
        (p, (final(r).ok, final(r).cursor as int)) == payload_read(old(r).data@, old(r).ok, old(r).cursor as int),
{
    let ghost d = old(r).data@;
    let tag = r.r_u8();
    let counts = payload_counts(tag);
    let ghost s1 = (r.ok, r.cursor as int);
    let ws = read_words(r, counts.0);
    let ghost s2 = (r.ok, r.cursor as int);
    let fs = read_flags(r, counts.1);
    let p = payload_from(tag, &ws, &fs);
    proof {
        let shape = payload_shape(tag);
        assert(ws@ =~= Seq::new(shape.0 as nat, |k: int| word_at(d, s1.0, s1.1, k)));
        assert(fs@ =~= Seq::new(shape.1 as nat, |k: int| flag_at(d, s2.0, s2.1, k)));
    }
    p
}

/// Each word takes four bytes, the `i`-th at `4 i`.
pub proof fn lemma_u32s_layout(s: Seq<u32>, i: int)
    requires
        0 <= i < s.len(),
    ensures
        u32s_bytes(s).len() == 4 * s.len(),
        u32s_bytes(s).subrange(4 * i, 4 * i + 4) == u32_bytes(s[i]),
    decreases s.len(),
{
    reveal_with_fuel(u32s_bytes, 2);
    lemma_u32_round_trip(s.last());
    if i < s.len() - 1 {
        lemma_u32s_layout(s.drop_last(), i);
        assert(u32s_bytes(s).subrange(4 * i, 4 * i + 4) =~= u32s_bytes(s.drop_last()).subrange(4 * i, 4 * i + 4));
    } else {
        if s.len() > 1 {
            lemma_u32s_layout(s.drop_last(), 0);
        }
        assert(u32s_bytes(s).subrange(4 * i, 4 * i + 4) =~= u32_bytes(s.last()));
    }
}

/// A run of words is four bytes a word long.
pub proof fn lemma_u32s_len(s: Seq<u32>)
    ensures
        u32s_bytes(s).len() == 4 * s.len(),
{
    if s.len() > 0 {
        lemma_u32s_layout(s, 0);
    }
}

/// Where a run of words sits at `base`, a run of word reads from there
/// gives them back.
pub proof fn lemma_u32s_read_back(s: Seq<u32>, d: Seq<u8>, base: int)
    requires
        0 <= base,
        base + 4 * s.len() <= d.len(),
        d.subrange(base, base + 4 * s.len()) == u32s_bytes(s),
    ensures
        forall|k: int| 0 <= k < s.len() ==> #[trigger] word_at(d, true, base, k) == s[k],
{
    assert forall|k: int| 0 <= k < s.len() implies #[trigger] word_at(d, true, base, k) == s[k] by {
        lemma_u32s_layout(s, k);
        lemma_u32_round_trip(s[k]);
        assert(d.subrange(base + 4 * k, base + 4 * k + 4) =~= u32s_bytes(s).subrange(4 * k, 4 * k + 4));
    }
}

/// The words and flags a payload travels as stand for the payload again.
proof fn lemma_payload_of_words(p: JointPayload)
    ensures
        payload_shape(joint_type_code(payload_type(p))) == (payload_words(p).len() as int, payload_flags(p).len() as int),
        payload_of(joint_type_code(payload_type(p)), payload_words(p), payload_flags(p)) == p,
{
    match p {
        JointPayload::Distance(j) => {
            lemma_i32_bits(j.index_a);
            lemma_i32_bits(j.index_b);
        },
        JointPayload::Filter => {},
        JointPayload::Motor(j) => {
            lemma_i32_bits(j.index_a);
            lemma_i32_bits(j.index_b);
        },
        JointPayload::Prismatic(j) => {
            lemma_i32_bits(j.index_a);
            lemma_i32_bits(j.index_b);
        },
        JointPayload::Revolute(j) => {
            lemma_i32_bits(j.index_a);
            lemma_i32_bits(j.index_b);
        },
        JointPayload::Weld(j) => {
            lemma_i32_bits(j.index_a);
            lemma_i32_bits(j.index_b);
        },
        JointPayload::Wheel(j) => {
            lemma_i32_bits(j.index_a);
            lemma_i32_bits(j.index_b);
        },
    }
}

/// A joint's type-specific data reads back unchanged from where it was
/// written, and the reader ends right after it.
pub proof fn law_payload_round_trip(p: JointPayload, d: Seq<u8>, c: int)
    requires
        0 <= c,
        c + payload_bytes(p).len() <= d.len(),
        d.subrange(c, c + payload_bytes(p).len()) == payload_bytes(p),
    ensures
        payload_read(d, true, c) == (p, (true, c + payload_bytes(p).len())),
{
    let ws = payload_words(p);
    let fs = payload_flags(p);
    let e = payload_bytes(p);
    lemma_u32s_len(ws);
    lemma_payload_of_words(p);
    let n = ws.len() as int;
    let m = fs.len() as int;
    assert(e.len() == 1 + 4 * n + m);
    assert(d[c] == e[0]);
    assert(d.subrange(c + 1, c + 1 + 4 * n) =~= e.subrange(1, 1 + 4 * n));
    assert(e.subrange(1, 1 + 4 * n) =~= u32s_bytes(ws));
    lemma_u32s_read_back(ws, d, c + 1);
    assert(Seq::new(n as nat, |k: int| word_at(d, true, c + 1, k)) =~= ws);
    assert forall|k: int| 0 <= k < m implies #[trigger] flag_at(d, true, c + 1 + 4 * n, k) == fs[k] by {
        assert(d[c + 1 + 4 * n + k] == e[1 + 4 * n + k]);
        assert(e[1 + 4 * n + k] == bool_byte(fs[k]));
    }
    assert(Seq::new(m as nat, |k: int| flag_at(d, true, c + 1 + 4 * n, k)) =~= fs);
}

/// Wire form of a joint's solver data: its shared words, then its
/// type-specific data.
pub open spec fn joint_sim_bytes(s: JointSim) -> Seq<u8> {
    u32s_bytes(sim_words(s)) + payload_bytes(s.payload)
}

/// Append a joint sim's image.
pub fn ser_joint_sim(buf: &mut Vec<u8>, s: &JointSim)
    ensures
        final(buf)@ == old(buf)@ + joint_sim_bytes(*s),
{
    let ws = sim_words_vec(s);
    w_u32s(buf, &ws);
    ser_payload(buf, &s.payload);
    assert(buf@ =~= old(buf)@ + joint_sim_bytes(*s));
}

/// What reading a joint's solver data from `(ok, c)` gives, and the reader
/// state after it.
pub open spec fn joint_sim_read(d: Seq<u8>, ok: bool, c: int) -> (JointSim, (bool, int)) {
    let s1 = words_after(d, ok, c, 22);
    let pr = payload_read(d, s1.0, s1.1);
    (sim_of_words(Seq::new(22 as nat, |k: int| word_at(d, ok, c, k)), pr.0), pr.1)
}

/// Read a joint sim from its image.
pub fn des_joint_sim(r: &mut SnapReader) -> (s: JointSim)
    ensures
        final(r).data@ == old(r).data@,
        (s, (final(r).ok, final(r).cursor as int)) == joint_sim_read(old(r).data@, old(r).ok, old(r).cursor as int),
{
    let ghost d = old(r).data@;
    let ghost ok0 = old(r).ok;
    let ghost c0 = old(r).cursor as int;
    let ws = read_words(r, 22);
    let payload = des_payload(r);
    assert(ws@ =~= Seq::new(22 as nat, |k: int| word_at(d, ok0, c0, k)));
    sim_from(&ws, payload)
}

/// A joint's solver data reads back unchanged from where it was written,
/// and the reader ends right after it.
pub proof fn law_joint_sim_round_trip(s: JointSim, d: Seq<u8>, c: int)
    requires
        0 <= c,
        c + joint_sim_bytes(s).len() <= d.len(),
        d.subrange(c, c + joint_sim_bytes(s).len()) == joint_sim_bytes(s),
    ensures
        joint_sim_read(d, true, c) == (s, (true, c + joint_sim_bytes(s).len())),
{
    let ws = sim_words(s);
    let e = joint_sim_bytes(s);
    lemma_u32s_len(ws);
    assert(d.subrange(c, c + 4 * 22) =~= e.subrange(0, 4 * 22int));
    assert(e.subrange(0, 4 * 22int) =~= u32s_bytes(ws));
    lemma_u32s_read_back(ws, d, c);
    assert(Seq::new(22 as nat, |k: int| word_at(d, true, c, k)) =~= ws);
    let pc = c + 4 * 22;
    assert(e.subrange(4 * 22int, e.len() as int) =~= payload_bytes(s.payload));
    assert(d.subrange(pc, pc + payload_bytes(s.payload).len()) =~= e.subrange(4 * 22int, e.len() as int));
    law_payload_round_trip(s.payload, d, pc);
    lemma_i32_bits(s.joint_id);
    lemma_i32_bits(s.body_id_a);
    lemma_i32_bits(s.body_id_b);
}

/// The words of a joint slot between its user data and its type: indices,
/// the two edges, ids and draw scale.
pub open spec fn joint_words(j: Joint) -> Seq<u32> {
    seq![j.set_index as u32, j.color_index as u32, j.local_index as u32,
        j.edges[0].body_id as u32, j.edges[0].prev_key as u32, j.edges[0].next_key as u32,
        j.edges[1].body_id as u32, j.edges[1].prev_key as u32, j.edges[1].next_key as u32,
        j.joint_id as u32, j.island_id as u32, j.island_index as u32, j.draw_scale]
}

/// Wire form of a joint slot: the user data as zero, its words, its type's
/// number, generation and collide flag.
pub open spec fn joint_bytes(j: Joint) -> Seq<u8> {
    u64_bytes(0) + u32s_bytes(joint_words(j)) + seq![joint_type_code(j.type_)] + u16_bytes(j.generation)
        + seq![bool_byte(j.collide_connected)]
}

/// Append a joint's image.
pub fn ser_joint(buf: &mut Vec<u8>, j: &Joint)
    ensures
        final(buf)@ == old(buf)@ + joint_bytes(*j),
{
    rec_w_u64(buf, 0);
    let ws = vec![j.set_index as u32, j.color_index as u32, j.local_index as u32,
        j.edges[0].body_id as u32, j.edges[0].prev_key as u32, j.edges[0].next_key as u32,
        j.edges[1].body_id as u32, j.edges[1].prev_key as u32, j.edges[1].next_key as u32,
        j.joint_id as u32, j.island_id as u32, j.island_index as u32, j.draw_scale];
    w_u32s(buf, &ws);
    rec_w_u8(buf, j.type_.code());
    rec_w_u16(buf, j.generation);
    rec_w_bool(buf, j.collide_connected);
    assert(buf@ =~= old(buf)@ + joint_bytes(*j));
}

/// The joint slot that the fields read from `(ok, c)` stand for, and the
/// reader state after them.
pub open spec fn joint_read(d: Seq<u8>, ok: bool, c: int) -> (Joint, (bool, int)) {
    let s1 = after(d, ok, c, 8);
    let s2 = words_after(d, s1.0, s1.1, 13);
    let t = value_at(d, s2.0, s2.1, 1) as u8;
    let s3 = after(d, s2.0, s2.1, 1);
    let s4 = after(d, s3.0, s3.1, 2);
    let s5 = after(d, s4.0, s4.1, 1);
    (Joint {
        user_data: value_at(d, ok, c, 8) as u64,
        set_index: word_at(d, s1.0, s1.1, 0) as i32,
        color_index: word_at(d, s1.0, s1.1, 1) as i32,
        local_index: word_at(d, s1.0, s1.1, 2) as i32,
        edges: [
            Edge {
                body_id: word_at(d, s1.0, s1.1, 3) as i32,
                prev_key: word_at(d, s1.0, s1.1, 4) as i32,
                next_key: word_at(d, s1.0, s1.1, 5) as i32,
            },
            Edge {
                body_id: word_at(d, s1.0, s1.1, 6) as i32,
                prev_key: word_at(d, s1.0, s1.1, 7) as i32,
                next_key: word_at(d, s1.0, s1.1, 8) as i32,
            },
        ],
        joint_id: word_at(d, s1.0, s1.1, 9) as i32,
        island_id: word_at(d, s1.0, s1.1, 10) as i32,
        island_index: word_at(d, s1.0, s1.1, 11) as i32,
        draw_scale: word_at(d, s1.0, s1.1, 12),
        type_: joint_type_of(t),
        generation: value_at(d, s3.0, s3.1, 2) as u16,
        collide_connected: s4.0 && s4.1 + 1 <= d.len() && d[s4.1] != 0,
    }, s5)
}

/// Read a joint from its image.
pub fn des_joint(r: &mut SnapReader) -> (j: Joint)
    ensures
        final(r).data@ == old(r).data@,
        (j, (final(r).ok, final(r).cursor as int)) == joint_read(old(r).data@, old(r).ok, old(r).cursor as int),
{
    let ghost d = old(r).data@;
    let ghost s0 = (old(r).ok, old(r).cursor as int);
    let user_data = r.r_u64();
    let ghost s1 = (r.ok, r.cursor as int);
    assert(s1 == after(d, s0.0, s0.1, 8));
    assert(user_data == value_at(d, s0.0, s0.1, 8));
    let ws = read_words(r, 13);
    let ghost s2 = (r.ok, r.cursor as int);
    let type_ = r_joint_type(r);
    let ghost s3 = (r.ok, r.cursor as int);
    assert(s3 == after(d, s2.0, s2.1, 1));
    let generation = r.r_u16();
    let ghost s4 = (r.ok, r.cursor as int);
    assert(s4 == after(d, s3.0, s3.1, 2));
    assert(generation == value_at(d, s3.0, s3.1, 2));
    let collide_connected = r.r_bool();
    assert(collide_connected == (s4.0 && s4.1 + 1 <= d.len() && d[s4.1] != 0));
    let j = Joint {
        user_data,
        set_index: ws[0] as i32,
        color_index: ws[1] as i32,
        local_index: ws[2] as i32,
        edges: [
            Edge { body_id: ws[3] as i32, prev_key: ws[4] as i32, next_key: ws[5] as i32 },
            Edge { body_id: ws[6] as i32, prev_key: ws[7] as i32, next_key: ws[8] as i32 },
        ],
        joint_id: ws[9] as i32,
        island_id: ws[10] as i32,
        island_index: ws[11] as i32,
        draw_scale: ws[12],
        type_,
        generation,
        collide_connected,
    };
    assert(j.edges[0] == joint_read(d, s0.0, s0.1).0.edges[0]);
    assert(j.edges[1] == joint_read(d, s0.0, s0.1).0.edges[1]);
    assert(j.edges =~= joint_read(d, s0.0, s0.1).0.edges);
    j
}

/// A joint slot reads back from where it was written, its user data
/// zero, and the reader ends right after it.
pub proof fn law_joint_round_trip(j: Joint, d: Seq<u8>, c: int)
    requires
        0 <= c,
        c + joint_bytes(j).len() <= d.len(),
        d.subrange(c, c + joint_bytes(j).len()) == joint_bytes(j),
    ensures
        joint_read(d, true, c).0 == (Joint { user_data: 0, ..j }),
        joint_read(d, true, c).1 == (true, c + joint_bytes(j).len()),
{
    let ws = joint_words(j);
    let e = joint_bytes(j);
    lemma_u32s_len(ws);
    reveal_with_fuel(pow256, 9);
    lemma_le_round_trip(0, 8);
    lemma_le_round_trip(j.generation as nat, 2);
    assert(e.len() == 8 + 52 + 1 + 2 + 1);
    assert(d.subrange(c, c + 8) =~= e.subrange(0, 8));
    assert(e.subrange(0, 8) =~= u64_bytes(0));
    assert(d.subrange(c + 8, c + 60) =~= e.subrange(8, 60));
    assert(e.subrange(8, 60) =~= u32s_bytes(ws));
    lemma_u32s_read_back(ws, d, c + 8);
    assert(e[60] == joint_type_code(j.type_));
    assert(d[c + 60] == e[60]);
    assert(d.subrange(c + 60, c + 61) =~= seq![joint_type_code(j.type_)]);
    assert(le_value(seq![joint_type_code(j.type_)]) == joint_type_code(j.type_)) by {
        reveal_with_fuel(le_value, 2);
    }
    assert(d.subrange(c + 61, c + 63) =~= e.subrange(61, 63));
    assert(e.subrange(61, 63) =~= u16_bytes(j.generation));
    assert(e[63] == bool_byte(j.collide_connected));
    assert(d[c + 63] == e[63]);
    let r = joint_read(d, true, c).0;
    lemma_i32_bits(j.set_index);
    lemma_i32_bits(j.color_index);
    lemma_i32_bits(j.local_index);
    lemma_i32_bits(j.edges[0].body_id);
    lemma_i32_bits(j.edges[0].prev_key);
    lemma_i32_bits(j.edges[0].next_key);
    lemma_i32_bits(j.edges[1].body_id);
    lemma_i32_bits(j.edges[1].prev_key);
    lemma_i32_bits(j.edges[1].next_key);
    lemma_i32_bits(j.joint_id);
    lemma_i32_bits(j.island_id);
    lemma_i32_bits(j.island_index);
    assert(word_at(d, true, c + 8, 3) == ws[3]);
    assert(r.edges[0] == j.edges[0]);
    assert(word_at(d, true, c + 8, 6) == ws[6]);
    assert(r.edges[1] == j.edges[1]);
    assert(r.edges =~= j.edges);
}

} // verus!
