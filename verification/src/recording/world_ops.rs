use vstd::prelude::*;
use super::decode::{
    bool_read, law_vec2_round_trip, lemma_bool_read_back, lemma_split, lemma_u32_read_back, lemma_u64_read_back,
    r_vec2, read_bool, read_u32, read_u64, u32_read, u64_read_at, vec2_read,
};
use super::ops::{
    OP_WORLD_ENABLE_CONTINUOUS, OP_WORLD_ENABLE_SLEEPING, OP_WORLD_ENABLE_SPECULATIVE, OP_WORLD_ENABLE_WARM_STARTING,
    OP_WORLD_EXPLODE, OP_WORLD_REBUILD_STATIC_TREE, OP_WORLD_SET_CONTACT_RECYCLE_DISTANCE,
    OP_WORLD_SET_CONTACT_TUNING, OP_WORLD_SET_GRAVITY, OP_WORLD_SET_HIT_EVENT_THRESHOLD,
    OP_WORLD_SET_MAXIMUM_LINEAR_SPEED, OP_WORLD_SET_RESTITUTION_THRESHOLD,
};
use crate::geometry::Vec2;
use crate::id::WorldId;
use crate::snapshot::SnapReader;
use crate::types::ExplosionDef;
use crate::write::{bool_byte, explosion_def_bytes, u32_bytes, u64_bytes, vec2_bytes, world_id_bytes};

verus! {

broadcast use crate::write::lemma_le_bytes_len;

/// A world record read back: the world setting it recorded. Every such
/// record starts with the recording world's id, which replay does not use.
#[derive(Clone, Copy, Debug)]
pub enum WorldCommand {
    /// Sleeping, continuous collision, warm starting or speculative
    /// collision switched.
    Flag { opcode: u8, flag: bool },
    /// The restitution or hit event threshold, the contact recycle distance,
    /// or the maximum linear speed.
    Real { opcode: u8, value: u32 },
    SetGravity { gravity: Vec2 },
    Explode { def: ExplosionDef },
    SetContactTuning { hertz: u32, damping_ratio: u32, push_speed: u32 },
    /// The static tree rebuilt.
    RebuildStaticTree,
}

/// Records that switch a world setting.
pub open spec fn world_flag_op(op: u8) -> bool {
    ||| op == OP_WORLD_ENABLE_SLEEPING
    ||| op == OP_WORLD_ENABLE_CONTINUOUS
    ||| op == OP_WORLD_ENABLE_WARM_STARTING
    ||| op == OP_WORLD_ENABLE_SPECULATIVE
}

/// Records that set one real world setting.
pub open spec fn world_real_op(op: u8) -> bool {
    ||| op == OP_WORLD_SET_RESTITUTION_THRESHOLD
    ||| op == OP_WORLD_SET_HIT_EVENT_THRESHOLD
    ||| op == OP_WORLD_SET_CONTACT_RECYCLE_DISTANCE
    ||| op == OP_WORLD_SET_MAXIMUM_LINEAR_SPEED
}

/// An explosion definition read at `(ok, c)`: mask, position, radius,
/// falloff, impulse per length.
pub open spec fn explosion_def_read(d: Seq<u8>, ok: bool, c: int) -> (ExplosionDef, (bool, int)) {
    let (mask_bits, s1) = u64_read_at(d, ok, c);
    let (position, s2) = vec2_read(d, s1.0, s1.1);
    let (radius, s3) = u32_read(d, s2.0, s2.1);
    let (falloff, s4) = u32_read(d, s3.0, s3.1);
    let (impulse_per_length, s5) = u32_read(d, s4.0, s4.1);
    (ExplosionDef { mask_bits, position, radius, falloff, impulse_per_length }, s5)
}

/// The world record under `opcode` read at `(ok, c)`, or `None` when the
/// opcode is not one of this family.
pub open spec fn world_command_read(opcode: u8, d: Seq<u8>, ok: bool, c: int) -> Option<(WorldCommand, (bool, int))> {
    let (_w, s0) = u32_read(d, ok, c);
    if world_flag_op(opcode) {
        let (flag, s1) = bool_read(d, s0.0, s0.1);
        Some((WorldCommand::Flag { opcode, flag }, s1))
    } else if world_real_op(opcode) {
        let (value, s1) = u32_read(d, s0.0, s0.1);
        Some((WorldCommand::Real { opcode, value }, s1))
    } else if opcode == OP_WORLD_SET_GRAVITY {
        let (gravity, s1) = vec2_read(d, s0.0, s0.1);
        Some((WorldCommand::SetGravity { gravity }, s1))
    } else if opcode == OP_WORLD_EXPLODE {
        let (def, s1) = explosion_def_read(d, s0.0, s0.1);
        Some((WorldCommand::Explode { def }, s1))
    } else if opcode == OP_WORLD_SET_CONTACT_TUNING {
        let (hertz, s1) = u32_read(d, s0.0, s0.1);
        let (damping_ratio, s2) = u32_read(d, s1.0, s1.1);
        let (push_speed, s3) = u32_read(d, s2.0, s2.1);
        Some((WorldCommand::SetContactTuning { hertz, damping_ratio, push_speed }, s3))
    } else if opcode == OP_WORLD_REBUILD_STATIC_TREE {
        Some((WorldCommand::RebuildStaticTree, s0))
    } else {
        None
    }
}

/// Read the arguments of a world record whose opcode was already read.
/// `None`, with the reader untouched, when the opcode is not one of this
/// family. Reading goes on past a short payload, giving zeros, as every
/// reader does.
pub fn read_world_command(opcode: u8, r: &mut SnapReader) -> (cmd: Option<WorldCommand>)
    ensures
        final(r).data@ == old(r).data@,
        match world_command_read(opcode, old(r).data@, old(r).ok, old(r).cursor as int) {
            Some((x, s)) => cmd == Some(x) && (final(r).ok, final(r).cursor as int) == s,
            None => cmd is None && final(r).ok == old(r).ok && final(r).cursor == old(r).cursor,
        },
{
    let is_flag = opcode == OP_WORLD_ENABLE_SLEEPING || opcode == OP_WORLD_ENABLE_CONTINUOUS || opcode
        == OP_WORLD_ENABLE_WARM_STARTING || opcode == OP_WORLD_ENABLE_SPECULATIVE;
    let is_real = opcode == OP_WORLD_SET_RESTITUTION_THRESHOLD || opcode == OP_WORLD_SET_HIT_EVENT_THRESHOLD || opcode
        == OP_WORLD_SET_CONTACT_RECYCLE_DISTANCE || opcode == OP_WORLD_SET_MAXIMUM_LINEAR_SPEED;
    if !(is_flag || is_real || opcode == OP_WORLD_SET_GRAVITY || opcode == OP_WORLD_EXPLODE || opcode
        == OP_WORLD_SET_CONTACT_TUNING || opcode == OP_WORLD_REBUILD_STATIC_TREE) {
        return None;
    }
    let _world = read_u32(r);
    if is_flag {
        let flag = read_bool(r);
        Some(WorldCommand::Flag { opcode, flag })
    } else if is_real {
        let value = read_u32(r);
        Some(WorldCommand::Real { opcode, value })
    } else if opcode == OP_WORLD_SET_GRAVITY {
        let gravity = r_vec2(r);
        Some(WorldCommand::SetGravity { gravity })
    } else if opcode == OP_WORLD_EXPLODE {
        let mask_bits = read_u64(r);
        let position = r_vec2(r);
        let radius = read_u32(r);
        let falloff = read_u32(r);
        let impulse_per_length = read_u32(r);
        Some(WorldCommand::Explode { def: ExplosionDef { mask_bits, position, radius, falloff, impulse_per_length } })
    } else if opcode == OP_WORLD_SET_CONTACT_TUNING {
        let hertz = read_u32(r);
        let damping_ratio = read_u32(r);
        let push_speed = read_u32(r);
        Some(WorldCommand::SetContactTuning { hertz, damping_ratio, push_speed })
    } else {
        Some(WorldCommand::RebuildStaticTree)
    }
}

/// The opcode a world command is recorded under.
pub open spec fn world_command_opcode(cmd: WorldCommand) -> u8 {
    match cmd {
        WorldCommand::Flag { opcode, .. } => opcode,
        WorldCommand::Real { opcode, .. } => opcode,
        WorldCommand::SetGravity { .. } => OP_WORLD_SET_GRAVITY,
        WorldCommand::Explode { .. } => OP_WORLD_EXPLODE,
        WorldCommand::SetContactTuning { .. } => OP_WORLD_SET_CONTACT_TUNING,
        WorldCommand::RebuildStaticTree => OP_WORLD_REBUILD_STATIC_TREE,
    }
}

/// Whether the opcode a command carries names a record of its kind.
pub open spec fn world_command_ok(cmd: WorldCommand) -> bool {
    match cmd {
        WorldCommand::Flag { opcode, .. } => world_flag_op(opcode),
        WorldCommand::Real { opcode, .. } => world_real_op(opcode),
        _ => true,
    }
}

/// The arguments of a world command as recorded, after the world id.
pub open spec fn world_command_args(cmd: WorldCommand) -> Seq<u8> {
    match cmd {
        WorldCommand::Flag { flag, .. } => seq![bool_byte(flag)],
        WorldCommand::Real { value, .. } => u32_bytes(value),
        WorldCommand::SetGravity { gravity } => vec2_bytes(gravity),
        WorldCommand::Explode { def } => explosion_def_bytes(def),
        WorldCommand::SetContactTuning { hertz, damping_ratio, push_speed } => u32_bytes(hertz) + u32_bytes(
            damping_ratio,
        ) + u32_bytes(push_speed),
        WorldCommand::RebuildStaticTree => Seq::empty(),
    }
}

/// The payload a world command is recorded with, by the world `world`, as
/// the op writers lay it down.
pub open spec fn world_command_bytes(world: WorldId, cmd: WorldCommand) -> Seq<u8> {
    world_id_bytes(world) + world_command_args(cmd)
}

/// Replaying a world record gives back the setting that was recorded: the
/// payload a command is recorded with, read under its opcode, is that
/// command, and reading ends at the payload's end.
pub proof fn law_world_command_round_trip(world: WorldId, cmd: WorldCommand, d: Seq<u8>, c: int)
    requires
        world_command_ok(cmd),
        0 <= c,
        c + world_command_bytes(world, cmd).len() <= d.len(),
        d.subrange(c, c + world_command_bytes(world, cmd).len()) == world_command_bytes(world, cmd),
    ensures
        world_command_read(world_command_opcode(cmd), d, true, c) == Some(
            (cmd, (true, c + world_command_bytes(world, cmd).len())),
        ),
{
    let w = world_id_bytes(world);
    let rest = world_command_args(cmd);
    lemma_split(d, c, w, rest);
    lemma_u32_read_back(crate::id::pack_world_id(world), d, c);
    match cmd {
        WorldCommand::Flag { flag, .. } => {
            lemma_bool_read_back(flag, d, c + 4);
        },
        WorldCommand::Real { value, .. } => {
            lemma_u32_read_back(value, d, c + 4);
        },
        WorldCommand::SetGravity { gravity } => {
            law_vec2_round_trip(gravity, d, c + 4);
        },
        WorldCommand::Explode { def } => {
            let m = u64_bytes(def.mask_bits);
            let p = vec2_bytes(def.position);
            lemma_split(d, c + 4, m + p + u32_bytes(def.radius) + u32_bytes(def.falloff), u32_bytes(def.impulse_per_length));
            lemma_split(d, c + 4, m + p + u32_bytes(def.radius), u32_bytes(def.falloff));
            lemma_split(d, c + 4, m + p, u32_bytes(def.radius));
            lemma_split(d, c + 4, m, p);
            lemma_u64_read_back(def.mask_bits, d, c + 4);
            law_vec2_round_trip(def.position, d, c + 12);
            lemma_u32_read_back(def.radius, d, c + 20);
            lemma_u32_read_back(def.falloff, d, c + 24);
            lemma_u32_read_back(def.impulse_per_length, d, c + 28);
        },
        WorldCommand::SetContactTuning { hertz, damping_ratio, push_speed } => {
            lemma_split(d, c + 4, u32_bytes(hertz) + u32_bytes(damping_ratio), u32_bytes(push_speed));
            lemma_split(d, c + 4, u32_bytes(hertz), u32_bytes(damping_ratio));
            lemma_u32_read_back(hertz, d, c + 4);
            lemma_u32_read_back(damping_ratio, d, c + 8);
            lemma_u32_read_back(push_speed, d, c + 12);
        },
        WorldCommand::RebuildStaticTree => {},
    }
}

} // verus!
