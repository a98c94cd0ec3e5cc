use vstd::prelude::*;
use super::decode::{
    bool_read, joint_base_read, law_joint_base_round_trip, law_vec2_round_trip, law_xf_round_trip,
    lemma_bool_read_back, lemma_split, lemma_u32_read_back, lemma_u64_read_back, r_joint_base, r_vec2, r_xf,
    read_bool, read_u32, read_u64, u32_read, u64_read_at, vec2_read, xf_read,
};
use super::joint_defs::{
    distance_joint_def_read, law_distance_joint_def_round_trip, law_motor_joint_def_round_trip,
    law_prismatic_joint_def_round_trip, law_revolute_joint_def_round_trip, law_weld_joint_def_round_trip,
    law_wheel_joint_def_round_trip, motor_joint_def_read, prismatic_joint_def_read, r_distance_joint_def,
    r_motor_joint_def, r_prismatic_joint_def, r_revolute_joint_def, r_weld_joint_def, r_wheel_joint_def,
    revolute_joint_def_read, weld_joint_def_read, wheel_joint_def_read,
};
use super::ops::{
    OP_CREATE_DISTANCE_JOINT, OP_CREATE_FILTER_JOINT, OP_CREATE_MOTOR_JOINT, OP_CREATE_PRISMATIC_JOINT,
    OP_CREATE_REVOLUTE_JOINT, OP_CREATE_WELD_JOINT, OP_CREATE_WHEEL_JOINT, OP_DESTROY_JOINT, OP_DISTANCE_ENABLE_LIMIT,
    OP_DISTANCE_ENABLE_MOTOR, OP_DISTANCE_ENABLE_SPRING, OP_DISTANCE_SET_LENGTH, OP_DISTANCE_SET_LENGTH_RANGE,
    OP_DISTANCE_SET_SPRING_FORCE_RANGE, OP_JOINT_SET_COLLIDE_CONNECTED, OP_JOINT_SET_CONSTRAINT_TUNING,
    OP_JOINT_SET_FORCE_THRESHOLD, OP_JOINT_SET_LOCAL_FRAME_A, OP_JOINT_SET_LOCAL_FRAME_B,
    OP_JOINT_SET_TORQUE_THRESHOLD, OP_JOINT_WAKE_BODIES, OP_MOTOR_SET_LINEAR_VELOCITY, OP_PRISMATIC_ENABLE_LIMIT,
    OP_PRISMATIC_ENABLE_MOTOR, OP_PRISMATIC_ENABLE_SPRING, OP_PRISMATIC_SET_LIMITS, OP_REVOLUTE_ENABLE_LIMIT,
    OP_REVOLUTE_ENABLE_MOTOR, OP_REVOLUTE_ENABLE_SPRING, OP_REVOLUTE_SET_LIMITS, OP_WHEEL_ENABLE_LIMIT,
    OP_WHEEL_ENABLE_MOTOR, OP_WHEEL_ENABLE_SPRING, OP_WHEEL_SET_LIMITS, OP_WHEEL_SET_MAX_MOTOR_TORQUE,
};
use crate::geometry::{Transform, Vec2};
use crate::id::{pack_id64, unpack_id64, JointId};
use crate::snapshot::SnapReader;
use crate::types::{
    DistanceJointDef, FilterJointDef, JointDef, MotorJointDef, PrismaticJointDef, RevoluteJointDef, WeldJointDef,
    WheelJointDef,
};
use crate::write::{
    bool_byte, distance_joint_def_bytes, id64_bytes, joint_base_bytes, motor_joint_def_bytes,
    prismatic_joint_def_bytes, revolute_joint_def_bytes, u32_bytes, vec2_bytes, weld_joint_def_bytes,
    wheel_joint_def_bytes, xf_bytes,
};

verus! {

broadcast use crate::write::lemma_le_bytes_len;

/// A joint definition of any kind, as a create record carries it.
#[derive(Clone, Copy, Debug)]
pub enum JointDefinition {
    Distance(DistanceJointDef),
    Motor(MotorJointDef),
    Filter(FilterJointDef),
    Prismatic(PrismaticJointDef),
    Revolute(RevoluteJointDef),
    Weld(WeldJointDef),
    Wheel(WheelJointDef),
}

/// A joint record read back: the call it recorded, with its arguments.
/// Records that differ only in which switch, real or pair of reals they set
/// share a variant and keep their opcode.
#[derive(Clone, Copy, Debug)]
pub enum JointCommand {
    /// A joint created from `def`; `id` is the id the world returned when
    /// the call was recorded.
    Create { def: JointDefinition, id: JointId },
    Destroy { joint: JointId, wake_attached: bool },
    /// Local frame A or B.
    SetFrame { opcode: u8, joint: JointId, frame: Transform },
    /// Collide-connected, or a spring, limit or motor switch of one kind.
    Flag { opcode: u8, joint: JointId, flag: bool },
    /// Wake the joint's bodies.
    Marker { opcode: u8, joint: JointId },
    /// A threshold, or a real parameter of one kind.
    Real { opcode: u8, joint: JointId, value: u32 },
    /// Constraint tuning, a spring force range, or a pair of limits.
    RealPair { opcode: u8, joint: JointId, a: u32, b: u32 },
    /// The motor joint's linear velocity.
    Vector { opcode: u8, joint: JointId, v: Vec2 },
}

/// Records that set one switch of a joint.
pub open spec fn joint_flag_op(op: u8) -> bool {
    ||| op == OP_JOINT_SET_COLLIDE_CONNECTED
    ||| op == OP_DISTANCE_ENABLE_SPRING
    ||| op == OP_DISTANCE_ENABLE_LIMIT
    ||| op == OP_DISTANCE_ENABLE_MOTOR
    ||| op == OP_PRISMATIC_ENABLE_SPRING
    ||| op == OP_PRISMATIC_ENABLE_LIMIT
    ||| op == OP_PRISMATIC_ENABLE_MOTOR
    ||| op == OP_REVOLUTE_ENABLE_SPRING
    ||| op == OP_REVOLUTE_ENABLE_LIMIT
    ||| op == OP_REVOLUTE_ENABLE_MOTOR
    ||| op == OP_WHEEL_ENABLE_SPRING
    ||| op == OP_WHEEL_ENABLE_LIMIT
    ||| op == OP_WHEEL_ENABLE_MOTOR
}

/// Records that set a pair of reals of a joint.
pub open spec fn joint_pair_op(op: u8) -> bool {
    ||| op == OP_JOINT_SET_CONSTRAINT_TUNING
    ||| op == OP_DISTANCE_SET_SPRING_FORCE_RANGE
    ||| op == OP_DISTANCE_SET_LENGTH_RANGE
    ||| op == OP_PRISMATIC_SET_LIMITS
    ||| op == OP_REVOLUTE_SET_LIMITS
    ||| op == OP_WHEEL_SET_LIMITS
}

/// Records that set one real of a joint: the two thresholds, and every
/// per-kind record that is not a switch, a pair or the motor velocity.
pub open spec fn joint_real_op(op: u8) -> bool {
    ||| op == OP_JOINT_SET_FORCE_THRESHOLD
    ||| op == OP_JOINT_SET_TORQUE_THRESHOLD
    ||| (OP_DISTANCE_SET_LENGTH <= op <= OP_WHEEL_SET_MAX_MOTOR_TORQUE && !joint_flag_op(op) && !joint_pair_op(op)
        && op != OP_MOTOR_SET_LINEAR_VELOCITY)
}

fn is_joint_flag_op(op: u8) -> (b: bool)
    ensures
        b == joint_flag_op(op),
{
    op == OP_JOINT_SET_COLLIDE_CONNECTED || op == OP_DISTANCE_ENABLE_SPRING || op == OP_DISTANCE_ENABLE_LIMIT
        || op == OP_DISTANCE_ENABLE_MOTOR || op == OP_PRISMATIC_ENABLE_SPRING || op == OP_PRISMATIC_ENABLE_LIMIT
        || op == OP_PRISMATIC_ENABLE_MOTOR || op == OP_REVOLUTE_ENABLE_SPRING || op == OP_REVOLUTE_ENABLE_LIMIT
        || op == OP_REVOLUTE_ENABLE_MOTOR || op == OP_WHEEL_ENABLE_SPRING || op == OP_WHEEL_ENABLE_LIMIT
        || op == OP_WHEEL_ENABLE_MOTOR
}

fn is_joint_pair_op(op: u8) -> (b: bool)
    ensures
        b == joint_pair_op(op),
{
    op == OP_JOINT_SET_CONSTRAINT_TUNING || op == OP_DISTANCE_SET_SPRING_FORCE_RANGE
        || op == OP_DISTANCE_SET_LENGTH_RANGE || op == OP_PRISMATIC_SET_LIMITS || op == OP_REVOLUTE_SET_LIMITS
        || op == OP_WHEEL_SET_LIMITS
}

/// The joint id a packed 64-bit word names.
pub open spec fn joint_id_from(x: u64) -> JointId {
    JointId { index1: unpack_id64(x).0, world0: unpack_id64(x).1, generation: unpack_id64(x).2 }
}

/// A joint id read at `(ok, c)`: its packed 64-bit form.
pub open spec fn joint_id_read(d: Seq<u8>, ok: bool, c: int) -> (JointId, (bool, int)) {
    let (x, s) = u64_read_at(d, ok, c);
    (joint_id_from(x), s)
}

/// Read a joint id in its packed 64-bit form.
fn read_joint_id(r: &mut SnapReader) -> (id: JointId)
    ensures
        final(r).data@ == old(r).data@,
        (id, (final(r).ok, final(r).cursor as int)) == joint_id_read(old(r).data@, old(r).ok, old(r).cursor as int),
{
    JointId::load(read_u64(r))
}

/// The definition a create record of joint kind `k` (its opcode less the
/// first create opcode) carries, read at `(ok, c)`.
pub open spec fn joint_definition_read(k: u8, d: Seq<u8>, ok: bool, c: int) -> (JointDefinition, (bool, int)) {
    if k == 0 {
        let (v, s) = distance_joint_def_read(d, ok, c);
        (JointDefinition::Distance(v), s)
    } else if k == 1 {
        let (v, s) = motor_joint_def_read(d, ok, c);
        (JointDefinition::Motor(v), s)
    } else if k == 2 {
        let (base, s) = joint_base_read(d, ok, c);
        (JointDefinition::Filter(FilterJointDef { base }), s)
    } else if k == 3 {
        let (v, s) = prismatic_joint_def_read(d, ok, c);
        (JointDefinition::Prismatic(v), s)
    } else if k == 4 {
        let (v, s) = revolute_joint_def_read(d, ok, c);
        (JointDefinition::Revolute(v), s)
    } else if k == 5 {
        let (v, s) = weld_joint_def_read(d, ok, c);
        (JointDefinition::Weld(v), s)
    } else {
        let (v, s) = wheel_joint_def_read(d, ok, c);
        (JointDefinition::Wheel(v), s)
    }
}

/// Read the definition a create record of joint kind `k` carries.
fn read_joint_definition(k: u8, r: &mut SnapReader) -> (def: JointDefinition)
    ensures
        final(r).data@ == old(r).data@,
        (def, (final(r).ok, final(r).cursor as int)) == joint_definition_read(k, old(r).data@, old(r).ok, old(r).cursor as int),
{
    if k == 0 {
        JointDefinition::Distance(r_distance_joint_def(r))
    } else if k == 1 {
        JointDefinition::Motor(r_motor_joint_def(r))
    } else if k == 2 {
        JointDefinition::Filter(FilterJointDef { base: r_joint_base(r) })
    } else if k == 3 {
        JointDefinition::Prismatic(r_prismatic_joint_def(r))
    } else if k == 4 {
        JointDefinition::Revolute(r_revolute_joint_def(r))
    } else if k == 5 {
        JointDefinition::Weld(r_weld_joint_def(r))
    } else {
        JointDefinition::Wheel(r_wheel_joint_def(r))
    }
}

/// The joint record under `opcode` read at `(ok, c)`, or `None` when the
/// opcode is not one of this family. A create record starts with a world
/// word that is not used.
pub open spec fn joint_command_read(opcode: u8, d: Seq<u8>, ok: bool, c: int) -> Option<(JointCommand, (bool, int))> {
    if OP_CREATE_DISTANCE_JOINT <= opcode <= OP_CREATE_WHEEL_JOINT {
        let (_w, s1) = u32_read(d, ok, c);
        let (def, s2) = joint_definition_read((opcode - OP_CREATE_DISTANCE_JOINT) as u8, d, s1.0, s1.1);
        let (id, s3) = joint_id_read(d, s2.0, s2.1);
        Some((JointCommand::Create { def, id }, s3))
    } else if opcode == OP_DESTROY_JOINT {
        let (joint, s1) = joint_id_read(d, ok, c);
        let (wake_attached, s2) = bool_read(d, s1.0, s1.1);
        Some((JointCommand::Destroy { joint, wake_attached }, s2))
    } else if opcode == OP_JOINT_SET_LOCAL_FRAME_A || opcode == OP_JOINT_SET_LOCAL_FRAME_B {
        let (joint, s1) = joint_id_read(d, ok, c);
        let (frame, s2) = xf_read(d, s1.0, s1.1);
        Some((JointCommand::SetFrame { opcode, joint, frame }, s2))
    } else if joint_flag_op(opcode) {
        let (joint, s1) = joint_id_read(d, ok, c);
        let (flag, s2) = bool_read(d, s1.0, s1.1);
        Some((JointCommand::Flag { opcode, joint, flag }, s2))
    } else if opcode == OP_JOINT_WAKE_BODIES {
        let (joint, s1) = joint_id_read(d, ok, c);
        Some((JointCommand::Marker { opcode, joint }, s1))
    } else if joint_pair_op(opcode) {
        let (joint, s1) = joint_id_read(d, ok, c);
        let (a, s2) = u32_read(d, s1.0, s1.1);
        let (b, s3) = u32_read(d, s2.0, s2.1);
        Some((JointCommand::RealPair { opcode, joint, a, b }, s3))
    } else if opcode == OP_MOTOR_SET_LINEAR_VELOCITY {
        let (joint, s1) = joint_id_read(d, ok, c);
        let (v, s2) = vec2_read(d, s1.0, s1.1);
        Some((JointCommand::Vector { opcode, joint, v }, s2))
    } else if joint_real_op(opcode) {
        let (joint, s1) = joint_id_read(d, ok, c);
        let (value, s2) = u32_read(d, s1.0, s1.1);
        Some((JointCommand::Real { opcode, joint, value }, s2))
    } else {
        None
    }
}

/// Read the arguments of a joint record whose opcode was already read.
/// `None`, with the reader untouched, when the opcode is not one of this
/// family. Reading goes on past a short payload, giving zeros, as every
/// reader does.
pub fn read_joint_command(opcode: u8, r: &mut SnapReader) -> (cmd: Option<JointCommand>)
    ensures
        final(r).data@ == old(r).data@,
        match joint_command_read(opcode, old(r).data@, old(r).ok, old(r).cursor as int) {
            Some((x, s)) => cmd == Some(x) && (final(r).ok, final(r).cursor as int) == s,
            None => cmd is None && final(r).ok == old(r).ok && final(r).cursor == old(r).cursor,
        },
{
    if OP_CREATE_DISTANCE_JOINT <= opcode && opcode <= OP_CREATE_WHEEL_JOINT {
        let _world = read_u32(r);
        let def = read_joint_definition(opcode - OP_CREATE_DISTANCE_JOINT, r);
        let id = read_joint_id(r);
        Some(JointCommand::Create { def, id })
    } else if opcode == OP_DESTROY_JOINT {
        let joint = read_joint_id(r);
        let wake_attached = read_bool(r);
        Some(JointCommand::Destroy { joint, wake_attached })
    } else if opcode == OP_JOINT_SET_LOCAL_FRAME_A || opcode == OP_JOINT_SET_LOCAL_FRAME_B {
        let joint = read_joint_id(r);
        let frame = r_xf(r);
        Some(JointCommand::SetFrame { opcode, joint, frame })
    } else if is_joint_flag_op(opcode) {
        let joint = read_joint_id(r);
        let flag = read_bool(r);
        Some(JointCommand::Flag { opcode, joint, flag })
    } else if opcode == OP_JOINT_WAKE_BODIES {
        let joint = read_joint_id(r);
        Some(JointCommand::Marker { opcode, joint })
    } else if is_joint_pair_op(opcode) {
        let joint = read_joint_id(r);
        let a = read_u32(r);
        let b = read_u32(r);
        Some(JointCommand::RealPair { opcode, joint, a, b })
    } else if opcode == OP_MOTOR_SET_LINEAR_VELOCITY {
        let joint = read_joint_id(r);
        let v = r_vec2(r);
        Some(JointCommand::Vector { opcode, joint, v })
    } else if opcode == OP_JOINT_SET_FORCE_THRESHOLD || opcode == OP_JOINT_SET_TORQUE_THRESHOLD || (
    OP_DISTANCE_SET_LENGTH <= opcode && opcode <= OP_WHEEL_SET_MAX_MOTOR_TORQUE) {
        let joint = read_joint_id(r);
        let value = read_u32(r);
        Some(JointCommand::Real { opcode, joint, value })
    } else {
        None
    }
}

/// Index of a joint definition's kind, in the order of the create opcodes.
pub open spec fn joint_definition_kind(def: JointDefinition) -> u8 {
    match def {
        JointDefinition::Distance(_) => 0,
        JointDefinition::Motor(_) => 1,
        JointDefinition::Filter(_) => 2,
        JointDefinition::Prismatic(_) => 3,
        JointDefinition::Revolute(_) => 4,
        JointDefinition::Weld(_) => 5,
        JointDefinition::Wheel(_) => 6,
    }
}

/// Wire form of a joint definition of any kind.
pub open spec fn joint_definition_bytes(def: JointDefinition) -> Seq<u8> {
    match def {
        JointDefinition::Distance(v) => distance_joint_def_bytes(v),
        JointDefinition::Motor(v) => motor_joint_def_bytes(v),
        JointDefinition::Filter(v) => joint_base_bytes(v.base),
        JointDefinition::Prismatic(v) => prismatic_joint_def_bytes(v),
        JointDefinition::Revolute(v) => revolute_joint_def_bytes(v),
        JointDefinition::Weld(v) => weld_joint_def_bytes(v),
        JointDefinition::Wheel(v) => wheel_joint_def_bytes(v),
    }
}

/// A joint definition as a recording carries it: its user data reads back
/// as zero.
pub open spec fn joint_definition_recorded(def: JointDefinition) -> JointDefinition {
    match def {
        JointDefinition::Distance(v) => JointDefinition::Distance(
            DistanceJointDef { base: JointDef { user_data: 0, ..v.base }, ..v },
        ),
        JointDefinition::Motor(v) => JointDefinition::Motor(MotorJointDef { base: JointDef { user_data: 0, ..v.base }, ..v }),
        JointDefinition::Filter(v) => JointDefinition::Filter(FilterJointDef { base: JointDef { user_data: 0, ..v.base } }),
        JointDefinition::Prismatic(v) => JointDefinition::Prismatic(
            PrismaticJointDef { base: JointDef { user_data: 0, ..v.base }, ..v },
        ),
        JointDefinition::Revolute(v) => JointDefinition::Revolute(
            RevoluteJointDef { base: JointDef { user_data: 0, ..v.base }, ..v },
        ),
        JointDefinition::Weld(v) => JointDefinition::Weld(WeldJointDef { base: JointDef { user_data: 0, ..v.base }, ..v }),
        JointDefinition::Wheel(v) => JointDefinition::Wheel(WheelJointDef { base: JointDef { user_data: 0, ..v.base }, ..v }),
    }
}

/// A joint definition reads back from its wire form under its kind.
#[verifier::spinoff_prover]
#[verifier::rlimit(30)]
proof fn lemma_joint_definition_read_back(def: JointDefinition, d: Seq<u8>, c: int)
    requires
        0 <= c,
        c + joint_definition_bytes(def).len() <= d.len(),
        d.subrange(c, c + joint_definition_bytes(def).len()) == joint_definition_bytes(def),
    ensures
        joint_definition_read(joint_definition_kind(def), d, true, c) == (
            joint_definition_recorded(def),
            (true, c + joint_definition_bytes(def).len()),
        ),
{
    match def {
        JointDefinition::Distance(v) => {
            assert(distance_joint_def_bytes(v).len() == 116);
            law_distance_joint_def_round_trip(v, d, c);
        },
        JointDefinition::Motor(v) => {
            assert(motor_joint_def_bytes(v).len() == 121);
            law_motor_joint_def_round_trip(v, d, c);
        },
        JointDefinition::Filter(v) => {
            assert(joint_base_bytes(v.base).len() == 77);
            law_joint_base_round_trip(v.base, d, c);
        },
        JointDefinition::Prismatic(v) => {
            assert(prismatic_joint_def_bytes(v).len() == 108);
            law_prismatic_joint_def_round_trip(v, d, c);
        },
        JointDefinition::Revolute(v) => {
            assert(revolute_joint_def_bytes(v).len() == 108);
            law_revolute_joint_def_round_trip(v, d, c);
        },
        JointDefinition::Weld(v) => {
            assert(weld_joint_def_bytes(v).len() == 93);
            law_weld_joint_def_round_trip(v, d, c);
        },
        JointDefinition::Wheel(v) => {
            assert(wheel_joint_def_bytes(v).len() == 104);
            law_wheel_joint_def_round_trip(v, d, c);
        },
    }
}

/// The opcode a joint command is recorded under.
pub open spec fn joint_command_opcode(cmd: JointCommand) -> u8 {
    match cmd {
        JointCommand::Create { def, .. } => (OP_CREATE_DISTANCE_JOINT + joint_definition_kind(def)) as u8,
        JointCommand::Destroy { .. } => OP_DESTROY_JOINT,
        JointCommand::SetFrame { opcode, .. } => opcode,
        JointCommand::Flag { opcode, .. } => opcode,
        JointCommand::Marker { opcode, .. } => opcode,
        JointCommand::Real { opcode, .. } => opcode,
        JointCommand::RealPair { opcode, .. } => opcode,
        JointCommand::Vector { opcode, .. } => opcode,
    }
}

/// Whether the opcode a command carries names a record of its kind.
pub open spec fn joint_command_ok(cmd: JointCommand) -> bool {
    match cmd {
        JointCommand::SetFrame { opcode, .. } => opcode == OP_JOINT_SET_LOCAL_FRAME_A || opcode
            == OP_JOINT_SET_LOCAL_FRAME_B,
        JointCommand::Flag { opcode, .. } => joint_flag_op(opcode),
        JointCommand::Marker { opcode, .. } => opcode == OP_JOINT_WAKE_BODIES,
        JointCommand::Real { opcode, .. } => joint_real_op(opcode),
        JointCommand::RealPair { opcode, .. } => joint_pair_op(opcode),
        JointCommand::Vector { opcode, .. } => opcode == OP_MOTOR_SET_LINEAR_VELOCITY,
        _ => true,
    }
}

/// The payload a joint command is recorded with, as the op writers lay it
/// down; a create record's world word is one.
pub open spec fn joint_command_bytes(cmd: JointCommand) -> Seq<u8> {
    match cmd {
        JointCommand::Create { def, id } => u32_bytes(1) + joint_definition_bytes(def) + id64_bytes(
            id.index1,
            id.world0,
            id.generation,
        ),
        JointCommand::Destroy { joint, wake_attached } => id64_bytes(joint.index1, joint.world0, joint.generation)
            + seq![bool_byte(wake_attached)],
        JointCommand::SetFrame { joint, frame, .. } => id64_bytes(joint.index1, joint.world0, joint.generation)
            + xf_bytes(frame),
        JointCommand::Flag { joint, flag, .. } => id64_bytes(joint.index1, joint.world0, joint.generation)
            + seq![bool_byte(flag)],
        JointCommand::Marker { joint, .. } => id64_bytes(joint.index1, joint.world0, joint.generation),
        JointCommand::Real { joint, value, .. } => id64_bytes(joint.index1, joint.world0, joint.generation)
            + u32_bytes(value),
        JointCommand::RealPair { joint, a, b, .. } => id64_bytes(joint.index1, joint.world0, joint.generation)
            + u32_bytes(a) + u32_bytes(b),
        JointCommand::Vector { joint, v, .. } => id64_bytes(joint.index1, joint.world0, joint.generation)
            + vec2_bytes(v),
    }
}

/// A command as a recording carries it: a definition's user data is not
/// recorded and reads back as zero.
pub open spec fn joint_command_recorded(cmd: JointCommand) -> JointCommand {
    match cmd {
        JointCommand::Create { def, id } => JointCommand::Create { def: joint_definition_recorded(def), id },
        _ => cmd,
    }
}

/// A joint id reads back from its encoding.
proof fn lemma_joint_id_read_back(id: JointId, d: Seq<u8>, c: int)
    requires
        0 <= c,
        c + 8 <= d.len(),
        d.subrange(c, c + 8) == id64_bytes(id.index1, id.world0, id.generation),
    ensures
        joint_id_read(d, true, c) == (id, (true, c + 8)),
{
    lemma_u64_read_back(pack_id64(id.index1, id.world0, id.generation), d, c);
    crate::id::lemma_id64_round_trip(id.index1, id.world0, id.generation);
}

/// Replaying a joint record gives back the call that was recorded: the
/// payload a command is recorded with, read under its opcode, is that
/// command (less what is not recorded), and reading ends at the payload's
/// end.
#[verifier::spinoff_prover]
#[verifier::rlimit(30)]
pub proof fn law_joint_command_round_trip(cmd: JointCommand, d: Seq<u8>, c: int)
    requires
        joint_command_ok(cmd),
        0 <= c,
        c + joint_command_bytes(cmd).len() <= d.len(),
        d.subrange(c, c + joint_command_bytes(cmd).len()) == joint_command_bytes(cmd),
    ensures
        joint_command_read(joint_command_opcode(cmd), d, true, c) == Some(
            (joint_command_recorded(cmd), (true, c + joint_command_bytes(cmd).len())),
        ),
{
    match cmd {
        JointCommand::Create { def, id } => {
            let a = u32_bytes(1);
            let b = joint_definition_bytes(def);
            let e = id64_bytes(id.index1, id.world0, id.generation);
            lemma_split(d, c, a + b, e);
            lemma_split(d, c, a, b);
            lemma_u32_read_back(1, d, c);
            lemma_joint_definition_read_back(def, d, c + 4);
            lemma_joint_id_read_back(id, d, c + 4 + b.len());
        },
        JointCommand::Destroy { joint, wake_attached } => {
            let a = id64_bytes(joint.index1, joint.world0, joint.generation);
            lemma_split(d, c, a, seq![bool_byte(wake_attached)]);
            lemma_joint_id_read_back(joint, d, c);
            lemma_bool_read_back(wake_attached, d, c + 8);
        },
        JointCommand::SetFrame { joint, frame, .. } => {
            let a = id64_bytes(joint.index1, joint.world0, joint.generation);
            lemma_split(d, c, a, xf_bytes(frame));
            lemma_joint_id_read_back(joint, d, c);
            law_xf_round_trip(frame, d, c + 8);
        },
        JointCommand::Flag { joint, flag, .. } => {
            let a = id64_bytes(joint.index1, joint.world0, joint.generation);
            lemma_split(d, c, a, seq![bool_byte(flag)]);
            lemma_joint_id_read_back(joint, d, c);
            lemma_bool_read_back(flag, d, c + 8);
        },
        JointCommand::Marker { joint, .. } => {
            lemma_joint_id_read_back(joint, d, c);
        },
        JointCommand::Real { joint, value, .. } => {
            let a = id64_bytes(joint.index1, joint.world0, joint.generation);
            lemma_split(d, c, a, u32_bytes(value));
            lemma_joint_id_read_back(joint, d, c);
            lemma_u32_read_back(value, d, c + 8);
        },
        JointCommand::RealPair { joint, a: x, b: y, .. } => {
            let a = id64_bytes(joint.index1, joint.world0, joint.generation);
            lemma_split(d, c, a + u32_bytes(x), u32_bytes(y));
            lemma_split(d, c, a, u32_bytes(x));
            lemma_joint_id_read_back(joint, d, c);
            lemma_u32_read_back(x, d, c + 8);
            lemma_u32_read_back(y, d, c + 12);
        },
        JointCommand::Vector { joint, v, .. } => {
            let a = id64_bytes(joint.index1, joint.world0, joint.generation);
            lemma_split(d, c, a, vec2_bytes(v));
            lemma_joint_id_read_back(joint, d, c);
            law_vec2_round_trip(v, d, c + 8);
        },
    }
}

} // verus!
