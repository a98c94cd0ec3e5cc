use vstd::prelude::*;
use super::decode::{
    body_def_read, body_id_read, body_type_from, bool_read, i32_read, law_body_def_round_trip, law_body_id_round_trip,
    law_rot_round_trip, law_string_round_trip, law_vec2_round_trip, law_xf_round_trip, lemma_bool_read_back,
    lemma_i32_read_back, lemma_split, lemma_u32_read_back, r_body_def, r_rot, r_string, r_vec2, r_worldxf, read_bool,
    read_i32, read_u32, read_u64, rot_read, string_read, u32_read, vec2_read, xf_read,
};
use super::ops::{
    OP_BODY_APPLY_ANGULAR_IMPULSE, OP_BODY_APPLY_FORCE, OP_BODY_APPLY_FORCE_TO_CENTER, OP_BODY_APPLY_LINEAR_IMPULSE,
    OP_BODY_APPLY_LINEAR_IMPULSE_TO_CENTER, OP_BODY_APPLY_MASS_FROM_SHAPES, OP_BODY_APPLY_TORQUE,
    OP_BODY_CLEAR_FORCES, OP_BODY_DISABLE, OP_BODY_ENABLE, OP_BODY_ENABLE_CONTACT_EVENTS,
    OP_BODY_ENABLE_CONTACT_RECYCLING, OP_BODY_ENABLE_HIT_EVENTS, OP_BODY_ENABLE_SLEEP, OP_BODY_SET_ANGULAR_DAMPING,
    OP_BODY_SET_ANGULAR_VELOCITY, OP_BODY_SET_AWAKE, OP_BODY_SET_BULLET, OP_BODY_SET_GRAVITY_SCALE,
    OP_BODY_SET_LINEAR_DAMPING, OP_BODY_SET_LINEAR_VELOCITY, OP_BODY_SET_MASS_DATA, OP_BODY_SET_MOTION_LOCKS,
    OP_BODY_SET_NAME, OP_BODY_SET_SLEEP_THRESHOLD, OP_BODY_SET_TARGET_TRANSFORM, OP_BODY_SET_TRANSFORM,
    OP_BODY_SET_TYPE, OP_BODY_WAKE_TOUCHING, OP_CREATE_BODY, OP_DESTROY_BODY,
};
use crate::geometry::{MassData, Pos, Rot, Vec2, WorldTransform};
use crate::id::BodyId;
use crate::snapshot::SnapReader;
use crate::types::{body_type_code, BodyDef, BodyDefView, BodyType, MotionLocks};
use crate::write::{
    body_def_bytes, bool_byte, i32_bytes, id64_bytes, locks_bytes, mass_data_bytes, rot_bytes, str_bytes, u32_bytes,
    vec2_bytes, xf_bytes, REC_MAX_STR_LEN,
};
use vstd::utf8::{encode_utf8, is_ascii_chars};

verus! {

broadcast use crate::write::lemma_le_bytes_len;

/// A body record read back: the call it recorded, with its arguments.
/// Records that differ only in which switch or which real they set, or which
/// push they give, share a variant and keep their opcode.
#[derive(Debug)]
pub enum BodyCommand {
    /// A body created from `def`; `id` is the id the world returned when the
    /// call was recorded.
    Create { def: BodyDef, id: BodyId },
    /// Destroy, clear forces, mass from shapes, wake touching, disable,
    /// enable.
    Marker { opcode: u8, body: BodyId },
    SetTransform { body: BodyId, position: Pos, rotation: Rot },
    SetLinearVelocity { body: BodyId, v: Vec2 },
    SetType { body: BodyId, body_type: BodyType },
    SetName { body: BodyId, name: String },
    /// Angular velocity, linear or angular damping, gravity scale, sleep
    /// threshold.
    Real { opcode: u8, body: BodyId, value: u32 },
    SetTargetTransform { body: BodyId, target: WorldTransform, time_step: u32, wake: bool },
    /// A force or a linear impulse at a point.
    PushAt { opcode: u8, body: BodyId, v: Vec2, point: Pos, wake: bool },
    /// A force or a linear impulse at the center of mass.
    Push { opcode: u8, body: BodyId, v: Vec2, wake: bool },
    /// A torque or an angular impulse.
    Turn { opcode: u8, body: BodyId, value: u32, wake: bool },
    SetMassData { body: BodyId, mass_data: MassData },
    /// Awake, sleep, bullet, contact recycling, contact events, hit events.
    Flag { opcode: u8, body: BodyId, flag: bool },
    SetMotionLocks { body: BodyId, locks: MotionLocks },
}

/// A body command as the contracts see it: names as characters.
pub enum BodyCommandView {
    Create { def: BodyDefView, id: BodyId },
    Marker { opcode: u8, body: BodyId },
    SetTransform { body: BodyId, position: Pos, rotation: Rot },
    SetLinearVelocity { body: BodyId, v: Vec2 },
    SetType { body: BodyId, body_type: BodyType },
    SetName { body: BodyId, name: Seq<char> },
    Real { opcode: u8, body: BodyId, value: u32 },
    SetTargetTransform { body: BodyId, target: WorldTransform, time_step: u32, wake: bool },
    PushAt { opcode: u8, body: BodyId, v: Vec2, point: Pos, wake: bool },
    Push { opcode: u8, body: BodyId, v: Vec2, wake: bool },
    Turn { opcode: u8, body: BodyId, value: u32, wake: bool },
    SetMassData { body: BodyId, mass_data: MassData },
    Flag { opcode: u8, body: BodyId, flag: bool },
    SetMotionLocks { body: BodyId, locks: MotionLocks },
}

impl View for BodyCommand {
    type V = BodyCommandView;

    open spec fn view(&self) -> BodyCommandView {
        match *self {
            BodyCommand::Create { def, id } => BodyCommandView::Create { def: def@, id },
            BodyCommand::Marker { opcode, body } => BodyCommandView::Marker { opcode, body },
            BodyCommand::SetTransform { body, position, rotation } => BodyCommandView::SetTransform {
                body,
                position,
                rotation,
            },
            BodyCommand::SetLinearVelocity { body, v } => BodyCommandView::SetLinearVelocity { body, v },
            BodyCommand::SetType { body, body_type } => BodyCommandView::SetType { body, body_type },
            BodyCommand::SetName { body, name } => BodyCommandView::SetName { body, name: name@ },
            BodyCommand::Real { opcode, body, value } => BodyCommandView::Real { opcode, body, value },
            BodyCommand::SetTargetTransform { body, target, time_step, wake } => BodyCommandView::SetTargetTransform {
                body,
                target,
                time_step,
                wake,
            },
            BodyCommand::PushAt { opcode, body, v, point, wake } => BodyCommandView::PushAt {
                opcode,
                body,
                v,
                point,
                wake,
            },
            BodyCommand::Push { opcode, body, v, wake } => BodyCommandView::Push { opcode, body, v, wake },
            BodyCommand::Turn { opcode, body, value, wake } => BodyCommandView::Turn { opcode, body, value, wake },
            BodyCommand::SetMassData { body, mass_data } => BodyCommandView::SetMassData { body, mass_data },
            BodyCommand::Flag { opcode, body, flag } => BodyCommandView::Flag { opcode, body, flag },
            BodyCommand::SetMotionLocks { body, locks } => BodyCommandView::SetMotionLocks { body, locks },
        }
    }
}

/// Records that mark a body with no argument.
pub open spec fn body_marker_op(op: u8) -> bool {
    ||| op == OP_DESTROY_BODY
    ||| op == OP_BODY_CLEAR_FORCES
    ||| op == OP_BODY_APPLY_MASS_FROM_SHAPES
    ||| op == OP_BODY_WAKE_TOUCHING
    ||| op == OP_BODY_DISABLE
    ||| op == OP_BODY_ENABLE
}

/// Records that set one real of a body.
pub open spec fn body_real_op(op: u8) -> bool {
    ||| op == OP_BODY_SET_ANGULAR_VELOCITY
    ||| op == OP_BODY_SET_LINEAR_DAMPING
    ||| op == OP_BODY_SET_ANGULAR_DAMPING
    ||| op == OP_BODY_SET_GRAVITY_SCALE
    ||| op == OP_BODY_SET_SLEEP_THRESHOLD
}

/// Records that set one switch of a body.
pub open spec fn body_flag_op(op: u8) -> bool {
    ||| op == OP_BODY_SET_AWAKE
    ||| op == OP_BODY_ENABLE_SLEEP
    ||| op == OP_BODY_SET_BULLET
    ||| op == OP_BODY_ENABLE_CONTACT_RECYCLING
    ||| op == OP_BODY_ENABLE_CONTACT_EVENTS
    ||| op == OP_BODY_ENABLE_HIT_EVENTS
}

/// Mass data read at `(ok, c)`: mass, center, rotational inertia.
pub open spec fn mass_data_read(d: Seq<u8>, ok: bool, c: int) -> (MassData, (bool, int)) {
    let (mass, s1) = u32_read(d, ok, c);
    let (center, s2) = vec2_read(d, s1.0, s1.1);
    let (rotational_inertia, s3) = u32_read(d, s2.0, s2.1);
    (MassData { mass, center, rotational_inertia }, s3)
}

/// Motion locks read at `(ok, c)`: x, y, rotation.
pub open spec fn locks_read(d: Seq<u8>, ok: bool, c: int) -> (MotionLocks, (bool, int)) {
    let (linear_x, s1) = bool_read(d, ok, c);
    let (linear_y, s2) = bool_read(d, s1.0, s1.1);
    let (angular_z, s3) = bool_read(d, s2.0, s2.1);
    (MotionLocks { linear_x, linear_y, angular_z }, s3)
}

/// The body record under `opcode` read at `(ok, c)`, or `None` when the
/// opcode is not one of this family. A create record starts with a world
/// word that is not used.
pub open spec fn body_command_read(opcode: u8, d: Seq<u8>, ok: bool, c: int) -> Option<(BodyCommandView, (bool, int))> {
    if opcode == OP_CREATE_BODY {
        let (_w, s1) = u32_read(d, ok, c);
        let (def, s2) = body_def_read(d, s1.0, s1.1);
        let (id, s3) = body_id_read(d, s2.0, s2.1);
        Some((BodyCommandView::Create { def, id }, s3))
    } else {
        let (body, s1) = body_id_read(d, ok, c);
        if body_marker_op(opcode) {
            Some((BodyCommandView::Marker { opcode, body }, s1))
        } else if opcode == OP_BODY_SET_TRANSFORM {
            let (position, s2) = vec2_read(d, s1.0, s1.1);
            let (rotation, s3) = rot_read(d, s2.0, s2.1);
            Some((BodyCommandView::SetTransform { body, position, rotation }, s3))
        } else if opcode == OP_BODY_SET_LINEAR_VELOCITY {
            let (v, s2) = vec2_read(d, s1.0, s1.1);
            Some((BodyCommandView::SetLinearVelocity { body, v }, s2))
        } else if opcode == OP_BODY_SET_TYPE {
            let (t, s2) = i32_read(d, s1.0, s1.1);
            Some((BodyCommandView::SetType { body, body_type: body_type_from(t) }, s2))
        } else if opcode == OP_BODY_SET_NAME {
            let (name, s2) = string_read(d, s1.0, s1.1);
            Some((BodyCommandView::SetName { body, name }, s2))
        } else if body_real_op(opcode) {
            let (value, s2) = u32_read(d, s1.0, s1.1);
            Some((BodyCommandView::Real { opcode, body, value }, s2))
        } else if opcode == OP_BODY_SET_TARGET_TRANSFORM {
            let (target, s2) = xf_read(d, s1.0, s1.1);
            let (time_step, s3) = u32_read(d, s2.0, s2.1);
            let (wake, s4) = bool_read(d, s3.0, s3.1);
            Some((BodyCommandView::SetTargetTransform { body, target, time_step, wake }, s4))
        } else if opcode == OP_BODY_APPLY_FORCE || opcode == OP_BODY_APPLY_LINEAR_IMPULSE {
            let (v, s2) = vec2_read(d, s1.0, s1.1);
            let (point, s3) = vec2_read(d, s2.0, s2.1);
            let (wake, s4) = bool_read(d, s3.0, s3.1);
            Some((BodyCommandView::PushAt { opcode, body, v, point, wake }, s4))
        } else if opcode == OP_BODY_APPLY_FORCE_TO_CENTER || opcode == OP_BODY_APPLY_LINEAR_IMPULSE_TO_CENTER {
            let (v, s2) = vec2_read(d, s1.0, s1.1);
            let (wake, s3) = bool_read(d, s2.0, s2.1);
            Some((BodyCommandView::Push { opcode, body, v, wake }, s3))
        } else if opcode == OP_BODY_APPLY_TORQUE || opcode == OP_BODY_APPLY_ANGULAR_IMPULSE {
            let (value, s2) = u32_read(d, s1.0, s1.1);
            let (wake, s3) = bool_read(d, s2.0, s2.1);
            Some((BodyCommandView::Turn { opcode, body, value, wake }, s3))
        } else if opcode == OP_BODY_SET_MASS_DATA {
            let (mass_data, s2) = mass_data_read(d, s1.0, s1.1);
            Some((BodyCommandView::SetMassData { body, mass_data }, s2))
        } else if body_flag_op(opcode) {
            let (flag, s2) = bool_read(d, s1.0, s1.1);
            Some((BodyCommandView::Flag { opcode, body, flag }, s2))
        } else if opcode == OP_BODY_SET_MOTION_LOCKS {
            let (locks, s2) = locks_read(d, s1.0, s1.1);
            Some((BodyCommandView::SetMotionLocks { body, locks }, s2))
        } else {
            None
        }
    }
}

/// Whether `opcode` is one of the body family.
pub open spec fn body_op(opcode: u8) -> bool {
    ||| opcode == OP_CREATE_BODY
    ||| OP_BODY_SET_TRANSFORM <= opcode <= OP_BODY_ENABLE_HIT_EVENTS
    ||| opcode == OP_DESTROY_BODY
}

/// Read the arguments of a body record whose opcode was already read.
/// `None`, with the reader untouched, when the opcode is not one of this
/// family. Reading goes on past a short payload, giving zeros, as every
/// reader does.
pub fn read_body_command(opcode: u8, r: &mut SnapReader) -> (cmd: Option<BodyCommand>)
    ensures
        final(r).data@ == old(r).data@,
        match body_command_read(opcode, old(r).data@, old(r).ok, old(r).cursor as int) {
            Some((x, s)) => cmd is Some && cmd->0@ == x && (final(r).ok, final(r).cursor as int) == s,
            None => cmd is None && final(r).ok == old(r).ok && final(r).cursor == old(r).cursor,
        },
{
    if opcode == OP_CREATE_BODY {
        let _world = read_u32(r);
        let def = r_body_def(r);
        let id = BodyId::load(read_u64(r));
        return Some(BodyCommand::Create { def, id });
    }
    if !(opcode == OP_DESTROY_BODY || (OP_BODY_SET_TRANSFORM <= opcode && opcode <= OP_BODY_ENABLE_HIT_EVENTS)) {
        return None;
    }
    let body = BodyId::load(read_u64(r));
    if opcode == OP_DESTROY_BODY || opcode == OP_BODY_CLEAR_FORCES || opcode == OP_BODY_APPLY_MASS_FROM_SHAPES
        || opcode == OP_BODY_WAKE_TOUCHING || opcode == OP_BODY_DISABLE || opcode == OP_BODY_ENABLE {
        Some(BodyCommand::Marker { opcode, body })
    } else if opcode == OP_BODY_SET_TRANSFORM {
        let position = r_vec2(r);
        let rotation = r_rot(r);
        Some(BodyCommand::SetTransform { body, position, rotation })
    } else if opcode == OP_BODY_SET_LINEAR_VELOCITY {
        let v = r_vec2(r);
        Some(BodyCommand::SetLinearVelocity { body, v })
    } else if opcode == OP_BODY_SET_TYPE {
        let t = read_i32(r);
        let body_type = if t == 0 {
            BodyType::Static
        } else if t == 1 {
            BodyType::Kinematic
        } else {
            BodyType::Dynamic
        };
        Some(BodyCommand::SetType { body, body_type })
    } else if opcode == OP_BODY_SET_NAME {
        let name = r_string(r);
        Some(BodyCommand::SetName { body, name })
    } else if opcode == OP_BODY_SET_ANGULAR_VELOCITY || opcode == OP_BODY_SET_LINEAR_DAMPING || opcode
        == OP_BODY_SET_ANGULAR_DAMPING || opcode == OP_BODY_SET_GRAVITY_SCALE || opcode == OP_BODY_SET_SLEEP_THRESHOLD {
        let value = read_u32(r);
        Some(BodyCommand::Real { opcode, body, value })
    } else if opcode == OP_BODY_SET_TARGET_TRANSFORM {
        let target = r_worldxf(r);
        let time_step = read_u32(r);
        let wake = read_bool(r);
        Some(BodyCommand::SetTargetTransform { body, target, time_step, wake })
    } else if opcode == OP_BODY_APPLY_FORCE || opcode == OP_BODY_APPLY_LINEAR_IMPULSE {
        let v = r_vec2(r);
        let point = r_vec2(r);
        let wake = read_bool(r);
        Some(BodyCommand::PushAt { opcode, body, v, point, wake })
    } else if opcode == OP_BODY_APPLY_FORCE_TO_CENTER || opcode == OP_BODY_APPLY_LINEAR_IMPULSE_TO_CENTER {
        let v = r_vec2(r);
        let wake = read_bool(r);
        Some(BodyCommand::Push { opcode, body, v, wake })
    } else if opcode == OP_BODY_APPLY_TORQUE || opcode == OP_BODY_APPLY_ANGULAR_IMPULSE {
        let value = read_u32(r);
        let wake = read_bool(r);
        Some(BodyCommand::Turn { opcode, body, value, wake })
    } else if opcode == OP_BODY_SET_MASS_DATA {
        let mass = read_u32(r);
        let center = r_vec2(r);
        let rotational_inertia = read_u32(r);
        Some(BodyCommand::SetMassData { body, mass_data: MassData { mass, center, rotational_inertia } })
    } else if opcode == OP_BODY_SET_AWAKE || opcode == OP_BODY_ENABLE_SLEEP || opcode == OP_BODY_SET_BULLET || opcode
        == OP_BODY_ENABLE_CONTACT_RECYCLING || opcode == OP_BODY_ENABLE_CONTACT_EVENTS || opcode
        == OP_BODY_ENABLE_HIT_EVENTS {
        let flag = read_bool(r);
        Some(BodyCommand::Flag { opcode, body, flag })
    } else {
        let linear_x = read_bool(r);
        let linear_y = read_bool(r);
        let angular_z = read_bool(r);
        Some(BodyCommand::SetMotionLocks { body, locks: MotionLocks { linear_x, linear_y, angular_z } })
    }
}

/// The opcode a body command is recorded under.
pub open spec fn body_command_opcode(cmd: BodyCommand) -> u8 {
    match cmd {
        BodyCommand::Create { .. } => OP_CREATE_BODY,
        BodyCommand::Marker { opcode, .. } => opcode,
        BodyCommand::SetTransform { .. } => OP_BODY_SET_TRANSFORM,
        BodyCommand::SetLinearVelocity { .. } => OP_BODY_SET_LINEAR_VELOCITY,
        BodyCommand::SetType { .. } => OP_BODY_SET_TYPE,
        BodyCommand::SetName { .. } => OP_BODY_SET_NAME,
        BodyCommand::Real { opcode, .. } => opcode,
        BodyCommand::SetTargetTransform { .. } => OP_BODY_SET_TARGET_TRANSFORM,
        BodyCommand::PushAt { opcode, .. } => opcode,
        BodyCommand::Push { opcode, .. } => opcode,
        BodyCommand::Turn { opcode, .. } => opcode,
        BodyCommand::SetMassData { .. } => OP_BODY_SET_MASS_DATA,
        BodyCommand::Flag { opcode, .. } => opcode,
        BodyCommand::SetMotionLocks { .. } => OP_BODY_SET_MOTION_LOCKS,
    }
}

/// Whether the opcode a command carries names a record of its kind.
pub open spec fn body_command_ok(cmd: BodyCommand) -> bool {
    match cmd {
        BodyCommand::Marker { opcode, .. } => body_marker_op(opcode),
        BodyCommand::Real { opcode, .. } => body_real_op(opcode),
        BodyCommand::PushAt { opcode, .. } => opcode == OP_BODY_APPLY_FORCE || opcode == OP_BODY_APPLY_LINEAR_IMPULSE,
        BodyCommand::Push { opcode, .. } => opcode == OP_BODY_APPLY_FORCE_TO_CENTER || opcode
            == OP_BODY_APPLY_LINEAR_IMPULSE_TO_CENTER,
        BodyCommand::Turn { opcode, .. } => opcode == OP_BODY_APPLY_TORQUE || opcode == OP_BODY_APPLY_ANGULAR_IMPULSE,
        BodyCommand::Flag { opcode, .. } => body_flag_op(opcode),
        _ => true,
    }
}

/// Whether the names a command carries come back as they went: ASCII, and
/// no longer than a record keeps.
pub open spec fn body_command_names_ok(cmd: BodyCommand) -> bool {
    match cmd {
        BodyCommand::Create { def, .. } => is_ascii_chars(def.name@) && def.name@.len() <= REC_MAX_STR_LEN,
        BodyCommand::SetName { name, .. } => is_ascii_chars(name@) && name@.len() <= REC_MAX_STR_LEN,
        _ => true,
    }
}

/// The arguments of a body command as recorded, after the body id.
pub open spec fn body_command_args(cmd: BodyCommand) -> Seq<u8> {
    match cmd {
        BodyCommand::Create { .. } => Seq::empty(),
        BodyCommand::Marker { .. } => Seq::empty(),
        BodyCommand::SetTransform { position, rotation, .. } => vec2_bytes(position) + rot_bytes(rotation),
        BodyCommand::SetLinearVelocity { v, .. } => vec2_bytes(v),
        BodyCommand::SetType { body_type, .. } => i32_bytes(body_type_code(body_type)),
        BodyCommand::SetName { name, .. } => str_bytes(encode_utf8(name@)),
        BodyCommand::Real { value, .. } => u32_bytes(value),
        BodyCommand::SetTargetTransform { target, time_step, wake, .. } => xf_bytes(target) + u32_bytes(time_step)
            + seq![bool_byte(wake)],
        BodyCommand::PushAt { v, point, wake, .. } => vec2_bytes(v) + vec2_bytes(point) + seq![bool_byte(wake)],
        BodyCommand::Push { v, wake, .. } => vec2_bytes(v) + seq![bool_byte(wake)],
        BodyCommand::Turn { value, wake, .. } => u32_bytes(value) + seq![bool_byte(wake)],
        BodyCommand::SetMassData { mass_data, .. } => mass_data_bytes(mass_data),
        BodyCommand::Flag { flag, .. } => seq![bool_byte(flag)],
        BodyCommand::SetMotionLocks { locks, .. } => locks_bytes(locks),
    }
}

/// The body a command other than create names.
pub open spec fn body_command_body(cmd: BodyCommand) -> BodyId {
    match cmd {
        BodyCommand::Create { id, .. } => id,
        BodyCommand::Marker { body, .. } => body,
        BodyCommand::SetTransform { body, .. } => body,
        BodyCommand::SetLinearVelocity { body, .. } => body,
        BodyCommand::SetType { body, .. } => body,
        BodyCommand::SetName { body, .. } => body,
        BodyCommand::Real { body, .. } => body,
        BodyCommand::SetTargetTransform { body, .. } => body,
        BodyCommand::PushAt { body, .. } => body,
        BodyCommand::Push { body, .. } => body,
        BodyCommand::Turn { body, .. } => body,
        BodyCommand::SetMassData { body, .. } => body,
        BodyCommand::Flag { body, .. } => body,
        BodyCommand::SetMotionLocks { body, .. } => body,
    }
}

/// The payload a body command is recorded with, as the op writers lay it
/// down; a create record's world word is one.
pub open spec fn body_command_bytes(cmd: BodyCommand) -> Seq<u8> {
    match cmd {
        BodyCommand::Create { def, id } => u32_bytes(1) + body_def_bytes(def) + id64_bytes(
            id.index1,
            id.world0,
            id.generation,
        ),
        _ => {
            let b = body_command_body(cmd);
            id64_bytes(b.index1, b.world0, b.generation) + body_command_args(cmd)
        },
    }
}

/// A command as a recording carries it: a definition's user data is not
/// recorded and reads back as zero.
pub open spec fn body_command_recorded(cmd: BodyCommand) -> BodyCommandView {
    match cmd {
        BodyCommand::Create { def, id } => BodyCommandView::Create { def: BodyDefView { user_data: 0, ..def@ }, id },
        _ => cmd@,
    }
}

/// The arguments after the body id read back, for every kind but create.
#[verifier::spinoff_prover]
#[verifier::rlimit(30)]
proof fn lemma_body_args_read_back(cmd: BodyCommand, d: Seq<u8>, c: int)
    requires
        !(cmd is Create),
        body_command_ok(cmd),
        body_command_names_ok(cmd),
        0 <= c,
        c + 8 + body_command_args(cmd).len() <= d.len(),
        d.subrange(c + 8, c + 8 + body_command_args(cmd).len()) == body_command_args(cmd),
        body_id_read(d, true, c) == (body_command_body(cmd), (true, c + 8)),
    ensures
        body_command_read(body_command_opcode(cmd), d, true, c) == Some(
            (body_command_recorded(cmd), (true, c + 8 + body_command_args(cmd).len())),
        ),
{
    let e = c + 8;
    match cmd {
        BodyCommand::SetTransform { position, rotation, .. } => {
            lemma_split(d, e, vec2_bytes(position), rot_bytes(rotation));
            law_vec2_round_trip(position, d, e);
            law_rot_round_trip(rotation, d, e + 8);
        },
        BodyCommand::SetLinearVelocity { v, .. } => {
            law_vec2_round_trip(v, d, e);
        },
        BodyCommand::SetType { body_type, .. } => {
            lemma_i32_read_back(body_type_code(body_type), d, e);
        },
        BodyCommand::SetName { name, .. } => {
            vstd::utf8::is_ascii_chars_encode_utf8(name@);
            law_string_round_trip(name@, d, e);
        },
        BodyCommand::Real { value, .. } => {
            lemma_u32_read_back(value, d, e);
        },
        BodyCommand::SetTargetTransform { target, time_step, wake, .. } => {
            lemma_split(d, e, xf_bytes(target) + u32_bytes(time_step), seq![bool_byte(wake)]);
            lemma_split(d, e, xf_bytes(target), u32_bytes(time_step));
            law_xf_round_trip(target, d, e);
            lemma_u32_read_back(time_step, d, e + 16);
            lemma_bool_read_back(wake, d, e + 20);
        },
        BodyCommand::PushAt { v, point, wake, .. } => {
            lemma_split(d, e, vec2_bytes(v) + vec2_bytes(point), seq![bool_byte(wake)]);
            lemma_split(d, e, vec2_bytes(v), vec2_bytes(point));
            law_vec2_round_trip(v, d, e);
            law_vec2_round_trip(point, d, e + 8);
            lemma_bool_read_back(wake, d, e + 16);
        },
        BodyCommand::Push { v, wake, .. } => {
            lemma_split(d, e, vec2_bytes(v), seq![bool_byte(wake)]);
            law_vec2_round_trip(v, d, e);
            lemma_bool_read_back(wake, d, e + 8);
        },
        BodyCommand::Turn { value, wake, .. } => {
            lemma_split(d, e, u32_bytes(value), seq![bool_byte(wake)]);
            lemma_u32_read_back(value, d, e);
            lemma_bool_read_back(wake, d, e + 4);
        },
        BodyCommand::SetMassData { mass_data, .. } => {
            let m = u32_bytes(mass_data.mass);
            let cb = vec2_bytes(mass_data.center);
            lemma_split(d, e, m + cb, u32_bytes(mass_data.rotational_inertia));
            lemma_split(d, e, m, cb);
            lemma_u32_read_back(mass_data.mass, d, e);
            law_vec2_round_trip(mass_data.center, d, e + 4);
            lemma_u32_read_back(mass_data.rotational_inertia, d, e + 12);
        },
        BodyCommand::Flag { flag, .. } => {
            lemma_bool_read_back(flag, d, e);
        },
        BodyCommand::SetMotionLocks { locks, .. } => {
            let l = locks_bytes(locks);
            assert(d[e] == l[0] && d[e + 1] == l[1] && d[e + 2] == l[2]) by {
                assert(d[e] == d.subrange(e, e + 3)[0]);
                assert(d[e + 1] == d.subrange(e, e + 3)[1]);
                assert(d[e + 2] == d.subrange(e, e + 3)[2]);
            }
        },
        _ => {},
    }
}

/// Replaying a body record gives back the call that was recorded: the
/// payload a command is recorded with, read under its opcode, is that
/// command (less what is not recorded), and reading ends at the payload's
/// end. Names must be ASCII and within the recorded length to come back as
/// they were.
pub proof fn law_body_command_round_trip(cmd: BodyCommand, d: Seq<u8>, c: int)
    requires
        body_command_ok(cmd),
        body_command_names_ok(cmd),
        0 <= c,
        c + body_command_bytes(cmd).len() <= d.len(),
        d.subrange(c, c + body_command_bytes(cmd).len()) == body_command_bytes(cmd),
    ensures
        body_command_read(body_command_opcode(cmd), d, true, c) == Some(
            (body_command_recorded(cmd), (true, c + body_command_bytes(cmd).len())),
        ),
{
    match cmd {
        BodyCommand::Create { def, id } => {
            let a = u32_bytes(1);
            let b = body_def_bytes(def);
            let e = id64_bytes(id.index1, id.world0, id.generation);
            vstd::utf8::is_ascii_chars_encode_utf8(def.name@);
            assert(b.len() == 67 + def.name@.len());
            lemma_split(d, c, a + b, e);
            lemma_split(d, c, a, b);
            lemma_u32_read_back(1, d, c);
            law_body_def_round_trip(def, d, c + 4);
            law_body_id_round_trip(id, d, c + 4 + b.len());
        },
        _ => {
            let b = body_command_body(cmd);
            let a = id64_bytes(b.index1, b.world0, b.generation);
            lemma_split(d, c, a, body_command_args(cmd));
            law_body_id_round_trip(b, d, c);
            lemma_body_args_read_back(cmd, d, c);
        },
    }
}

} // verus!
