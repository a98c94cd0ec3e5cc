use vstd::prelude::*;
use super::{frame_bytes, law_framing_matches_commit, opened, Recording, REC_MAX_PAYLOAD};
use crate::geometry::{Aabb, MassData, Pos, Rot, Transform, Vec2, WorldTransform};
use crate::id::{BodyId, ChainId, JointId, ShapeId, WorldId};
use crate::shape::ShapeGeometry;
use crate::world::World;
use super::read::world_id_of;
use crate::types::{body_type_code, BodyDef, BodyType, ChainDef, ExplosionDef, Filter, MotionLocks, ShapeDef, SurfaceMaterial};
use crate::write::{
    bool_byte, filter_bytes, i32_bytes, id64_bytes, locks_bytes, material_bytes, rec_w_bodyid,
    rec_w_bool, rec_w_chainid, rec_w_filter, rec_w_i32, rec_w_jointid, rec_w_locks,
    rec_w_material, rec_w_shapeid, rec_w_str, rec_w_u64, rec_w_worldid, str_bytes, u64_bytes,
    world_id_bytes, aabb_bytes, capsule_bytes, chain_segment_bytes, circle_bytes, explosion_def_bytes,
    mass_data_bytes, polygon_bytes, rec_w_aabb, rec_w_capsule, rec_w_chainseg, rec_w_circle, rec_w_explosiondef,
    rec_w_massdata, rec_w_polygon, rec_w_position, rec_w_rot, rec_w_segment, rec_w_u32, rec_w_vec2, rec_w_worldxf,
    rec_w_xf, rot_bytes, segment_bytes, u32_bytes, vec2_bytes, xf_bytes, lemma_vec2s_len, body_def_bytes,
    chain_def_bytes, lemma_materials_len, rec_w_bodydef, rec_w_chaindef, rec_w_shapedef, shape_def_bytes,
};
use vstd::string::StringSliceAdditionalSpecFns;

verus! {

broadcast use crate::write::lemma_le_bytes_len;

// Opcodes. Ranges: 0x0x world config, 0x1x-0x3x body, 0x4x-0x6x shape,
// 0x7x chain, 0x80 step, 0x9x-0xD1 joints, 0xEx queries, 0xFx markers.

pub const OP_DESTROY_WORLD: u8 = 0x01;
pub const OP_WORLD_ENABLE_SLEEPING: u8 = 0x02;
pub const OP_WORLD_ENABLE_CONTINUOUS: u8 = 0x03;
pub const OP_WORLD_SET_RESTITUTION_THRESHOLD: u8 = 0x04;
pub const OP_WORLD_SET_HIT_EVENT_THRESHOLD: u8 = 0x05;
pub const OP_WORLD_SET_GRAVITY: u8 = 0x06;
pub const OP_WORLD_EXPLODE: u8 = 0x07;
pub const OP_WORLD_SET_CONTACT_TUNING: u8 = 0x08;
pub const OP_WORLD_SET_CONTACT_RECYCLE_DISTANCE: u8 = 0x09;
pub const OP_WORLD_SET_MAXIMUM_LINEAR_SPEED: u8 = 0x0A;
pub const OP_WORLD_ENABLE_WARM_STARTING: u8 = 0x0B;
pub const OP_WORLD_REBUILD_STATIC_TREE: u8 = 0x0C;
pub const OP_WORLD_ENABLE_SPECULATIVE: u8 = 0x0D;
pub const OP_STEP: u8 = 0x80;
pub const OP_STATE_HASH: u8 = 0xF1;
pub const OP_RECORDING_BOUNDS: u8 = 0xF2;
pub const OP_CREATE_DISTANCE_JOINT: u8 = 0x90;
pub const OP_CREATE_MOTOR_JOINT: u8 = 0x91;
pub const OP_CREATE_FILTER_JOINT: u8 = 0x92;
pub const OP_CREATE_PRISMATIC_JOINT: u8 = 0x93;
pub const OP_CREATE_REVOLUTE_JOINT: u8 = 0x94;
pub const OP_CREATE_WELD_JOINT: u8 = 0x95;
pub const OP_CREATE_WHEEL_JOINT: u8 = 0x96;
pub const OP_DESTROY_JOINT: u8 = 0x97;
pub const OP_JOINT_SET_LOCAL_FRAME_A: u8 = 0x98;
pub const OP_JOINT_SET_LOCAL_FRAME_B: u8 = 0x99;
pub const OP_JOINT_SET_COLLIDE_CONNECTED: u8 = 0x9A;
pub const OP_JOINT_WAKE_BODIES: u8 = 0x9B;
pub const OP_JOINT_SET_CONSTRAINT_TUNING: u8 = 0x9C;
pub const OP_JOINT_SET_FORCE_THRESHOLD: u8 = 0x9D;
pub const OP_JOINT_SET_TORQUE_THRESHOLD: u8 = 0x9E;
pub const OP_DISTANCE_SET_LENGTH: u8 = 0xA0;
pub const OP_DISTANCE_ENABLE_SPRING: u8 = 0xA1;
pub const OP_DISTANCE_SET_SPRING_FORCE_RANGE: u8 = 0xA2;
pub const OP_DISTANCE_SET_SPRING_HERTZ: u8 = 0xA3;
pub const OP_DISTANCE_SET_SPRING_DAMPING_RATIO: u8 = 0xA4;
pub const OP_DISTANCE_ENABLE_LIMIT: u8 = 0xA5;
pub const OP_DISTANCE_SET_LENGTH_RANGE: u8 = 0xA6;
pub const OP_DISTANCE_ENABLE_MOTOR: u8 = 0xA7;
pub const OP_DISTANCE_SET_MOTOR_SPEED: u8 = 0xA8;
pub const OP_DISTANCE_SET_MAX_MOTOR_FORCE: u8 = 0xA9;
pub const OP_MOTOR_SET_LINEAR_VELOCITY: u8 = 0xAA;
pub const OP_MOTOR_SET_ANGULAR_VELOCITY: u8 = 0xAB;
pub const OP_MOTOR_SET_MAX_VELOCITY_FORCE: u8 = 0xAC;
pub const OP_MOTOR_SET_MAX_VELOCITY_TORQUE: u8 = 0xAD;
pub const OP_MOTOR_SET_LINEAR_HERTZ: u8 = 0xAE;
pub const OP_MOTOR_SET_LINEAR_DAMPING_RATIO: u8 = 0xAF;
pub const OP_MOTOR_SET_ANGULAR_HERTZ: u8 = 0xB0;
pub const OP_MOTOR_SET_ANGULAR_DAMPING_RATIO: u8 = 0xB1;
pub const OP_MOTOR_SET_MAX_SPRING_FORCE: u8 = 0xB2;
pub const OP_MOTOR_SET_MAX_SPRING_TORQUE: u8 = 0xB3;
pub const OP_PRISMATIC_ENABLE_SPRING: u8 = 0xB4;
pub const OP_PRISMATIC_SET_SPRING_HERTZ: u8 = 0xB5;
pub const OP_PRISMATIC_SET_SPRING_DAMPING_RATIO: u8 = 0xB6;
pub const OP_PRISMATIC_SET_TARGET_TRANSLATION: u8 = 0xB7;
pub const OP_PRISMATIC_ENABLE_LIMIT: u8 = 0xB8;
pub const OP_PRISMATIC_SET_LIMITS: u8 = 0xB9;
pub const OP_PRISMATIC_ENABLE_MOTOR: u8 = 0xBA;
pub const OP_PRISMATIC_SET_MOTOR_SPEED: u8 = 0xBB;
pub const OP_PRISMATIC_SET_MAX_MOTOR_FORCE: u8 = 0xBC;
pub const OP_REVOLUTE_ENABLE_SPRING: u8 = 0xBD;
pub const OP_REVOLUTE_SET_SPRING_HERTZ: u8 = 0xBE;
pub const OP_REVOLUTE_SET_SPRING_DAMPING_RATIO: u8 = 0xBF;
pub const OP_REVOLUTE_SET_TARGET_ANGLE: u8 = 0xC0;
pub const OP_REVOLUTE_ENABLE_LIMIT: u8 = 0xC1;
pub const OP_REVOLUTE_SET_LIMITS: u8 = 0xC2;
pub const OP_REVOLUTE_ENABLE_MOTOR: u8 = 0xC3;
pub const OP_REVOLUTE_SET_MOTOR_SPEED: u8 = 0xC4;
pub const OP_REVOLUTE_SET_MAX_MOTOR_TORQUE: u8 = 0xC5;
pub const OP_WELD_SET_LINEAR_HERTZ: u8 = 0xC6;
pub const OP_WELD_SET_LINEAR_DAMPING_RATIO: u8 = 0xC7;
pub const OP_WELD_SET_ANGULAR_HERTZ: u8 = 0xC8;
pub const OP_WELD_SET_ANGULAR_DAMPING_RATIO: u8 = 0xC9;
pub const OP_WHEEL_ENABLE_SPRING: u8 = 0xCA;
pub const OP_WHEEL_SET_SPRING_HERTZ: u8 = 0xCB;
pub const OP_WHEEL_SET_SPRING_DAMPING_RATIO: u8 = 0xCC;
pub const OP_WHEEL_ENABLE_LIMIT: u8 = 0xCD;
pub const OP_WHEEL_SET_LIMITS: u8 = 0xCE;
pub const OP_WHEEL_ENABLE_MOTOR: u8 = 0xCF;
pub const OP_WHEEL_SET_MOTOR_SPEED: u8 = 0xD0;
pub const OP_WHEEL_SET_MAX_MOTOR_TORQUE: u8 = 0xD1;
pub const OP_CREATE_CIRCLE_SHAPE: u8 = 0x40;
pub const OP_CREATE_CAPSULE_SHAPE: u8 = 0x41;
pub const OP_CREATE_SEGMENT_SHAPE: u8 = 0x42;
pub const OP_CREATE_POLYGON_SHAPE: u8 = 0x43;
pub const OP_CREATE_CHAIN_SEGMENT_SHAPE: u8 = 0x44;
pub const OP_DESTROY_SHAPE: u8 = 0x45;
pub const OP_SHAPE_SET_DENSITY: u8 = 0x50;
pub const OP_SHAPE_SET_FRICTION: u8 = 0x51;
pub const OP_SHAPE_SET_RESTITUTION: u8 = 0x52;
pub const OP_SHAPE_SET_USER_MATERIAL: u8 = 0x53;
pub const OP_SHAPE_SET_SURFACE_MATERIAL: u8 = 0x54;
pub const OP_SHAPE_SET_FILTER: u8 = 0x55;
pub const OP_SHAPE_ENABLE_SENSOR_EVENTS: u8 = 0x56;
pub const OP_SHAPE_ENABLE_CONTACT_EVENTS: u8 = 0x57;
pub const OP_SHAPE_ENABLE_PRE_SOLVE_EVENTS: u8 = 0x58;
pub const OP_SHAPE_ENABLE_HIT_EVENTS: u8 = 0x59;
pub const OP_SHAPE_SET_CIRCLE: u8 = 0x5A;
pub const OP_SHAPE_SET_CAPSULE: u8 = 0x5B;
pub const OP_SHAPE_SET_SEGMENT: u8 = 0x5C;
pub const OP_SHAPE_SET_POLYGON: u8 = 0x5D;
pub const OP_SHAPE_SET_CHAIN_SEGMENT: u8 = 0x5E;
pub const OP_SHAPE_APPLY_WIND: u8 = 0x5F;
pub const OP_CREATE_CHAIN: u8 = 0x70;
pub const OP_DESTROY_CHAIN: u8 = 0x71;
pub const OP_CHAIN_SET_SURFACE_MATERIAL: u8 = 0x72;
pub const OP_CREATE_BODY: u8 = 0x10;
pub const OP_DESTROY_BODY: u8 = 0x11;
pub const OP_BODY_SET_TRANSFORM: u8 = 0x20;
pub const OP_BODY_SET_LINEAR_VELOCITY: u8 = 0x21;
pub const OP_BODY_SET_TYPE: u8 = 0x22;
pub const OP_BODY_SET_NAME: u8 = 0x23;
pub const OP_BODY_SET_ANGULAR_VELOCITY: u8 = 0x24;
pub const OP_BODY_SET_TARGET_TRANSFORM: u8 = 0x25;
pub const OP_BODY_APPLY_FORCE: u8 = 0x26;
pub const OP_BODY_APPLY_FORCE_TO_CENTER: u8 = 0x27;
pub const OP_BODY_APPLY_TORQUE: u8 = 0x28;
pub const OP_BODY_CLEAR_FORCES: u8 = 0x29;
pub const OP_BODY_APPLY_LINEAR_IMPULSE: u8 = 0x2A;
pub const OP_BODY_APPLY_LINEAR_IMPULSE_TO_CENTER: u8 = 0x2B;
pub const OP_BODY_APPLY_ANGULAR_IMPULSE: u8 = 0x2C;
pub const OP_BODY_SET_MASS_DATA: u8 = 0x2D;
pub const OP_BODY_APPLY_MASS_FROM_SHAPES: u8 = 0x2E;
pub const OP_BODY_SET_LINEAR_DAMPING: u8 = 0x2F;
pub const OP_BODY_SET_ANGULAR_DAMPING: u8 = 0x30;
pub const OP_BODY_SET_GRAVITY_SCALE: u8 = 0x31;
pub const OP_BODY_SET_AWAKE: u8 = 0x32;
pub const OP_BODY_WAKE_TOUCHING: u8 = 0x33;
pub const OP_BODY_ENABLE_SLEEP: u8 = 0x34;
pub const OP_BODY_SET_SLEEP_THRESHOLD: u8 = 0x35;
pub const OP_BODY_DISABLE: u8 = 0x36;
pub const OP_BODY_ENABLE: u8 = 0x37;
pub const OP_BODY_SET_MOTION_LOCKS: u8 = 0x38;
pub const OP_BODY_SET_BULLET: u8 = 0x39;
pub const OP_BODY_ENABLE_CONTACT_RECYCLING: u8 = 0x3A;
pub const OP_BODY_ENABLE_CONTACT_EVENTS: u8 = 0x3B;
pub const OP_BODY_ENABLE_HIT_EVENTS: u8 = 0x3C;
pub const OP_QUERY_OVERLAP_AABB: u8 = 0xE0;
pub const OP_QUERY_OVERLAP_SHAPE: u8 = 0xE1;
pub const OP_QUERY_CAST_RAY: u8 = 0xE2;
pub const OP_QUERY_CAST_SHAPE: u8 = 0xE3;
pub const OP_QUERY_COLLIDE_MOVER: u8 = 0xE4;
pub const OP_QUERY_CAST_RAY_CLOSEST: u8 = 0xE5;
pub const OP_QUERY_CAST_MOVER: u8 = 0xE6;
pub const OP_SHAPE_TEST_POINT: u8 = 0xE7;
pub const OP_SHAPE_RAY_CAST: u8 = 0xE8;

/// A world-config op carrying one flag. (WorldEnableSleeping and kin)
pub fn write_world_bool(rec: &mut Recording, opcode: u8, world_id: WorldId, flag: bool)
    ensures
        final(rec).bytes() == old(rec).bytes() + frame_bytes(opcode, world_id_bytes(world_id) + seq![bool_byte(flag)]),
        final(rec).open_slot() == old(rec).bytes().len() + 1,
        old(rec).keeps_bounds(*final(rec)),
{
    let ghost b0 = rec.bytes();
    let ghost payload = world_id_bytes(world_id) + seq![bool_byte(flag)];
    rec.begin_record(opcode);
    rec_w_worldid(&mut rec.buffer, world_id);
    rec_w_bool(&mut rec.buffer, flag);
    proof {
        assert(rec.bytes() =~= opened(b0, opcode) + payload);
        law_framing_matches_commit(b0, opcode, payload);
    }
    rec.end_record();
}

/// A world-config op with no payload beyond the world id. (WorldRebuildStaticTree)
pub fn write_world_marker(rec: &mut Recording, opcode: u8, world_id: WorldId)
    ensures
        final(rec).bytes() == old(rec).bytes() + frame_bytes(opcode, world_id_bytes(world_id)),
        final(rec).open_slot() == old(rec).bytes().len() + 1,
        old(rec).keeps_bounds(*final(rec)),
{
    let ghost b0 = rec.bytes();
    let ghost payload = world_id_bytes(world_id);
    rec.begin_record(opcode);
    rec_w_worldid(&mut rec.buffer, world_id);
    proof {
        assert(rec.bytes() =~= opened(b0, opcode) + payload);
        law_framing_matches_commit(b0, opcode, payload);
    }
    rec.end_record();
}

/// The world-state hash that replay compares against.
pub fn write_state_hash(rec: &mut Recording, world_id: WorldId, hash: u64)
    ensures
        final(rec).bytes() == old(rec).bytes() + frame_bytes(OP_STATE_HASH, world_id_bytes(world_id) + u64_bytes(hash)),
        final(rec).open_slot() == old(rec).bytes().len() + 1,
        old(rec).keeps_bounds(*final(rec)),
{
    let ghost b0 = rec.bytes();
    let ghost payload = world_id_bytes(world_id) + u64_bytes(hash);
    rec.begin_record(OP_STATE_HASH);
    rec_w_worldid(&mut rec.buffer, world_id);
    rec_w_u64(&mut rec.buffer, hash);
    proof {
        assert(rec.bytes() =~= opened(b0, OP_STATE_HASH) + payload);
        law_framing_matches_commit(b0, OP_STATE_HASH, payload);
    }
    rec.end_record();
}

/// The end-of-session marker.
pub fn write_destroy_world(rec: &mut Recording, world_id: WorldId)
    ensures
        final(rec).bytes() == old(rec).bytes() + frame_bytes(OP_DESTROY_WORLD, world_id_bytes(world_id)),
        final(rec).open_slot() == old(rec).bytes().len() + 1,
        old(rec).keeps_bounds(*final(rec)),
{
    let ghost b0 = rec.bytes();
    let ghost payload = world_id_bytes(world_id);
    rec.begin_record(OP_DESTROY_WORLD);
    rec_w_worldid(&mut rec.buffer, world_id);
    proof {
        assert(rec.bytes() =~= opened(b0, OP_DESTROY_WORLD) + payload);
        law_framing_matches_commit(b0, OP_DESTROY_WORLD, payload);
    }
    rec.end_record();
}

/// A body op with no payload beyond the body id.
pub fn write_body_marker(rec: &mut Recording, opcode: u8, body: BodyId)
    ensures
        final(rec).bytes() == old(rec).bytes() + frame_bytes(opcode, id64_bytes(body.index1, body.world0, body.generation)),
        final(rec).open_slot() == old(rec).bytes().len() + 1,
        old(rec).keeps_bounds(*final(rec)),
{
    let ghost b0 = rec.bytes();
    let ghost payload = id64_bytes(body.index1, body.world0, body.generation);
    rec.begin_record(opcode);
    rec_w_bodyid(&mut rec.buffer, body);
    proof {
        assert(rec.bytes() =~= opened(b0, opcode) + payload);
        law_framing_matches_commit(b0, opcode, payload);
    }
    rec.end_record();
}

/// A body op carrying one flag.
pub fn write_body_bool(rec: &mut Recording, opcode: u8, body: BodyId, flag: bool)
    ensures
        final(rec).bytes() == old(rec).bytes() + frame_bytes(opcode, id64_bytes(body.index1, body.world0, body.generation) + seq![bool_byte(flag)]),
        final(rec).open_slot() == old(rec).bytes().len() + 1,
        old(rec).keeps_bounds(*final(rec)),
{
    let ghost b0 = rec.bytes();
    let ghost payload = id64_bytes(body.index1, body.world0, body.generation) + seq![bool_byte(flag)];
    rec.begin_record(opcode);
    rec_w_bodyid(&mut rec.buffer, body);
    rec_w_bool(&mut rec.buffer, flag);
    proof {
        assert(rec.bytes() =~= opened(b0, opcode) + payload);
        law_framing_matches_commit(b0, opcode, payload);
    }
    rec.end_record();
}

/// Record a body type change: the body id, then the type's number.
pub fn write_body_set_type(rec: &mut Recording, body: BodyId, body_type: BodyType)
    ensures
        final(rec).bytes() == old(rec).bytes() + frame_bytes(OP_BODY_SET_TYPE, id64_bytes(body.index1, body.world0, body.generation) + i32_bytes(body_type_code(body_type))),
        final(rec).open_slot() == old(rec).bytes().len() + 1,
        old(rec).keeps_bounds(*final(rec)),
{
    let ghost b0 = rec.bytes();
    let ghost payload = id64_bytes(body.index1, body.world0, body.generation) + i32_bytes(body_type_code(body_type));
    rec.begin_record(OP_BODY_SET_TYPE);
    rec_w_bodyid(&mut rec.buffer, body);
    rec_w_i32(&mut rec.buffer, body_type.code());
    proof {
        assert(rec.bytes() =~= opened(b0, OP_BODY_SET_TYPE) + payload);
        law_framing_matches_commit(b0, OP_BODY_SET_TYPE, payload);
    }
    rec.end_record();
}

/// Record a body name change: the body id, then the name.
pub fn write_body_set_name(rec: &mut Recording, body: BodyId, name: &str)
    ensures
        final(rec).bytes() == old(rec).bytes() + frame_bytes(OP_BODY_SET_NAME, id64_bytes(body.index1, body.world0, body.generation) + str_bytes(name.spec_bytes())),
        final(rec).open_slot() == old(rec).bytes().len() + 1,
        old(rec).keeps_bounds(*final(rec)),
{
    let ghost b0 = rec.bytes();
    let ghost payload = id64_bytes(body.index1, body.world0, body.generation) + str_bytes(name.spec_bytes());
    rec.begin_record(OP_BODY_SET_NAME);
    rec_w_bodyid(&mut rec.buffer, body);
    rec_w_str(&mut rec.buffer, name);
    proof {
        assert(rec.bytes() =~= opened(b0, OP_BODY_SET_NAME) + payload);
        law_framing_matches_commit(b0, OP_BODY_SET_NAME, payload);
    }
    rec.end_record();
}

/// Record a motion lock change: the body id, then the three locks.
pub fn write_body_set_motion_locks(rec: &mut Recording, body: BodyId, locks: MotionLocks)
    ensures
        final(rec).bytes() == old(rec).bytes() + frame_bytes(OP_BODY_SET_MOTION_LOCKS, id64_bytes(body.index1, body.world0, body.generation) + locks_bytes(locks)),
        final(rec).open_slot() == old(rec).bytes().len() + 1,
        old(rec).keeps_bounds(*final(rec)),
{
    let ghost b0 = rec.bytes();
    let ghost payload = id64_bytes(body.index1, body.world0, body.generation) + locks_bytes(locks);
    rec.begin_record(OP_BODY_SET_MOTION_LOCKS);
    rec_w_bodyid(&mut rec.buffer, body);
    rec_w_locks(&mut rec.buffer, locks);
    proof {
        assert(rec.bytes() =~= opened(b0, OP_BODY_SET_MOTION_LOCKS) + payload);
        law_framing_matches_commit(b0, OP_BODY_SET_MOTION_LOCKS, payload);
    }
    rec.end_record();
}

/// Record a shape destruction: the shape id and whether the body mass updates.
pub fn write_destroy_shape(rec: &mut Recording, shape: ShapeId, update_body_mass: bool)
    ensures
        final(rec).bytes() == old(rec).bytes() + frame_bytes(OP_DESTROY_SHAPE, id64_bytes(shape.index1, shape.world0, shape.generation) + seq![bool_byte(update_body_mass)]),
        final(rec).open_slot() == old(rec).bytes().len() + 1,
        old(rec).keeps_bounds(*final(rec)),
{
    let ghost b0 = rec.bytes();
    let ghost payload = id64_bytes(shape.index1, shape.world0, shape.generation) + seq![bool_byte(update_body_mass)];
    rec.begin_record(OP_DESTROY_SHAPE);
    rec_w_shapeid(&mut rec.buffer, shape);
    rec_w_bool(&mut rec.buffer, update_body_mass);
    proof {
        assert(rec.bytes() =~= opened(b0, OP_DESTROY_SHAPE) + payload);
        law_framing_matches_commit(b0, OP_DESTROY_SHAPE, payload);
    }
    rec.end_record();
}

/// A shape op carrying one flag.
pub fn write_shape_bool(rec: &mut Recording, opcode: u8, shape: ShapeId, flag: bool)
    ensures
        final(rec).bytes() == old(rec).bytes() + frame_bytes(opcode, id64_bytes(shape.index1, shape.world0, shape.generation) + seq![bool_byte(flag)]),
        final(rec).open_slot() == old(rec).bytes().len() + 1,
        old(rec).keeps_bounds(*final(rec)),
{
    let ghost b0 = rec.bytes();
    let ghost payload = id64_bytes(shape.index1, shape.world0, shape.generation) + seq![bool_byte(flag)];
    rec.begin_record(opcode);
    rec_w_shapeid(&mut rec.buffer, shape);
    rec_w_bool(&mut rec.buffer, flag);
    proof {
        assert(rec.bytes() =~= opened(b0, opcode) + payload);
        law_framing_matches_commit(b0, opcode, payload);
    }
    rec.end_record();
}

/// Record a user material change: the shape id, then the material id.
pub fn write_shape_set_user_material(rec: &mut Recording, shape: ShapeId, material: u64)
    ensures
        final(rec).bytes() == old(rec).bytes() + frame_bytes(OP_SHAPE_SET_USER_MATERIAL, id64_bytes(shape.index1, shape.world0, shape.generation) + u64_bytes(material)),
        final(rec).open_slot() == old(rec).bytes().len() + 1,
        old(rec).keeps_bounds(*final(rec)),
{
    let ghost b0 = rec.bytes();
    let ghost payload = id64_bytes(shape.index1, shape.world0, shape.generation) + u64_bytes(material);
    rec.begin_record(OP_SHAPE_SET_USER_MATERIAL);
    rec_w_shapeid(&mut rec.buffer, shape);
    rec_w_u64(&mut rec.buffer, material);
    proof {
        assert(rec.bytes() =~= opened(b0, OP_SHAPE_SET_USER_MATERIAL) + payload);
        law_framing_matches_commit(b0, OP_SHAPE_SET_USER_MATERIAL, payload);
    }
    rec.end_record();
}

/// Record a surface material change: the shape id, then the material.
pub fn write_shape_set_surface_material(rec: &mut Recording, shape: ShapeId, material: SurfaceMaterial)
    ensures
        final(rec).bytes() == old(rec).bytes() + frame_bytes(OP_SHAPE_SET_SURFACE_MATERIAL, id64_bytes(shape.index1, shape.world0, shape.generation) + material_bytes(material)),
        final(rec).open_slot() == old(rec).bytes().len() + 1,
        old(rec).keeps_bounds(*final(rec)),
{
    let ghost b0 = rec.bytes();
    let ghost payload = id64_bytes(shape.index1, shape.world0, shape.generation) + material_bytes(material);
    rec.begin_record(OP_SHAPE_SET_SURFACE_MATERIAL);
    rec_w_shapeid(&mut rec.buffer, shape);
    rec_w_material(&mut rec.buffer, material);
    proof {
        assert(rec.bytes() =~= opened(b0, OP_SHAPE_SET_SURFACE_MATERIAL) + payload);
        law_framing_matches_commit(b0, OP_SHAPE_SET_SURFACE_MATERIAL, payload);
    }
    rec.end_record();
}

/// Record a filter change: the shape id, then the filter.
pub fn write_shape_set_filter(rec: &mut Recording, shape: ShapeId, filter: Filter)
    ensures
        final(rec).bytes() == old(rec).bytes() + frame_bytes(OP_SHAPE_SET_FILTER, id64_bytes(shape.index1, shape.world0, shape.generation) + filter_bytes(filter)),
        final(rec).open_slot() == old(rec).bytes().len() + 1,
        old(rec).keeps_bounds(*final(rec)),
{
    let ghost b0 = rec.bytes();
    let ghost payload = id64_bytes(shape.index1, shape.world0, shape.generation) + filter_bytes(filter);
    rec.begin_record(OP_SHAPE_SET_FILTER);
    rec_w_shapeid(&mut rec.buffer, shape);
    rec_w_filter(&mut rec.buffer, filter);
    proof {
        assert(rec.bytes() =~= opened(b0, OP_SHAPE_SET_FILTER) + payload);
        law_framing_matches_commit(b0, OP_SHAPE_SET_FILTER, payload);
    }
    rec.end_record();
}

/// Record a chain destruction: the chain id.
pub fn write_destroy_chain(rec: &mut Recording, chain: ChainId)
    ensures
        final(rec).bytes() == old(rec).bytes() + frame_bytes(OP_DESTROY_CHAIN, id64_bytes(chain.index1, chain.world0, chain.generation)),
        final(rec).open_slot() == old(rec).bytes().len() + 1,
        old(rec).keeps_bounds(*final(rec)),
{
    let ghost b0 = rec.bytes();
    let ghost payload = id64_bytes(chain.index1, chain.world0, chain.generation);
    rec.begin_record(OP_DESTROY_CHAIN);
    rec_w_chainid(&mut rec.buffer, chain);
    proof {
        assert(rec.bytes() =~= opened(b0, OP_DESTROY_CHAIN) + payload);
        law_framing_matches_commit(b0, OP_DESTROY_CHAIN, payload);
    }
    rec.end_record();
}

/// Record a chain material change: the chain id, the material and its index.
pub fn write_chain_set_surface_material(rec: &mut Recording, chain: ChainId, material: SurfaceMaterial, material_index: i32)
    ensures
        final(rec).bytes() == old(rec).bytes() + frame_bytes(OP_CHAIN_SET_SURFACE_MATERIAL, id64_bytes(chain.index1, chain.world0, chain.generation) + material_bytes(material) + i32_bytes(material_index)),
        final(rec).open_slot() == old(rec).bytes().len() + 1,
        old(rec).keeps_bounds(*final(rec)),
{
    let ghost b0 = rec.bytes();
    let ghost payload = id64_bytes(chain.index1, chain.world0, chain.generation) + material_bytes(material) + i32_bytes(material_index);
    rec.begin_record(OP_CHAIN_SET_SURFACE_MATERIAL);
    rec_w_chainid(&mut rec.buffer, chain);
    rec_w_material(&mut rec.buffer, material);
    rec_w_i32(&mut rec.buffer, material_index);
    proof {
        assert(rec.bytes() =~= opened(b0, OP_CHAIN_SET_SURFACE_MATERIAL) + payload);
        law_framing_matches_commit(b0, OP_CHAIN_SET_SURFACE_MATERIAL, payload);
    }
    rec.end_record();
}

/// Record a joint destruction: the joint id and whether attached bodies wake.
pub fn write_destroy_joint(rec: &mut Recording, joint: JointId, wake_attached: bool)
    ensures
        final(rec).bytes() == old(rec).bytes() + frame_bytes(OP_DESTROY_JOINT, id64_bytes(joint.index1, joint.world0, joint.generation) + seq![bool_byte(wake_attached)]),
        final(rec).open_slot() == old(rec).bytes().len() + 1,
        old(rec).keeps_bounds(*final(rec)),
{
    let ghost b0 = rec.bytes();
    let ghost payload = id64_bytes(joint.index1, joint.world0, joint.generation) + seq![bool_byte(wake_attached)];
    rec.begin_record(OP_DESTROY_JOINT);
    rec_w_jointid(&mut rec.buffer, joint);
    rec_w_bool(&mut rec.buffer, wake_attached);
    proof {
        assert(rec.bytes() =~= opened(b0, OP_DESTROY_JOINT) + payload);
        law_framing_matches_commit(b0, OP_DESTROY_JOINT, payload);
    }
    rec.end_record();
}

/// A joint op with no payload beyond the joint id.
pub fn write_joint_marker(rec: &mut Recording, opcode: u8, joint: JointId)
    ensures
        final(rec).bytes() == old(rec).bytes() + frame_bytes(opcode, id64_bytes(joint.index1, joint.world0, joint.generation)),
        final(rec).open_slot() == old(rec).bytes().len() + 1,
        old(rec).keeps_bounds(*final(rec)),
{
    let ghost b0 = rec.bytes();
    let ghost payload = id64_bytes(joint.index1, joint.world0, joint.generation);
    rec.begin_record(opcode);
    rec_w_jointid(&mut rec.buffer, joint);
    proof {
        assert(rec.bytes() =~= opened(b0, opcode) + payload);
        law_framing_matches_commit(b0, opcode, payload);
    }
    rec.end_record();
}

/// A joint op carrying one flag.
pub fn write_joint_bool(rec: &mut Recording, opcode: u8, joint: JointId, flag: bool)
    ensures
        final(rec).bytes() == old(rec).bytes() + frame_bytes(opcode, id64_bytes(joint.index1, joint.world0, joint.generation) + seq![bool_byte(flag)]),
        final(rec).open_slot() == old(rec).bytes().len() + 1,
        old(rec).keeps_bounds(*final(rec)),
{
    let ghost b0 = rec.bytes();
    let ghost payload = id64_bytes(joint.index1, joint.world0, joint.generation) + seq![bool_byte(flag)];
    rec.begin_record(opcode);
    rec_w_jointid(&mut rec.buffer, joint);
    rec_w_bool(&mut rec.buffer, flag);
    proof {
        assert(rec.bytes() =~= opened(b0, opcode) + payload);
        law_framing_matches_commit(b0, opcode, payload);
    }
    rec.end_record();
}

/// Wire form of a shape geometry, by its kind.
pub open spec fn geometry_bytes(g: ShapeGeometry) -> Seq<u8> {
    match g {
        ShapeGeometry::Circle(c) => circle_bytes(c),
        ShapeGeometry::Capsule(c) => capsule_bytes(c),
        ShapeGeometry::Segment(s) => segment_bytes(s),
        ShapeGeometry::Polygon(p) => polygon_bytes(p),
        ShapeGeometry::ChainSegment(c) => chain_segment_bytes(c),
    }
}

/// No geometry takes more than 144 bytes: a polygon's sixteen vector
/// slots, centroid, radius and count.
pub proof fn lemma_geometry_len(g: ShapeGeometry)
    ensures
        geometry_bytes(g).len() <= 144,
{
    if let ShapeGeometry::Polygon(p) = g {
        lemma_vec2s_len(p.vertices@);
        lemma_vec2s_len(p.normals@);
    }
}

/// Append the geometry payload of the kind at hand.
fn w_geometry(buf: &mut Vec<u8>, geometry: &ShapeGeometry)
    ensures
        final(buf)@ == old(buf)@ + geometry_bytes(*geometry),
{
    match geometry {
        ShapeGeometry::Circle(c) => rec_w_circle(buf, *c),
        ShapeGeometry::Capsule(c) => rec_w_capsule(buf, *c),
        ShapeGeometry::Segment(s) => rec_w_segment(buf, *s),
        ShapeGeometry::Polygon(p) => rec_w_polygon(buf, p),
        ShapeGeometry::ChainSegment(c) => rec_w_chainseg(buf, *c),
    }
}

/// A world-config op carrying one real value, as its bit pattern, such as
/// the restitution threshold.
pub fn write_world_f32(rec: &mut Recording, opcode: u8, world_id: WorldId, value: u32)
    ensures
        final(rec).bytes() == old(rec).bytes() + frame_bytes(opcode, world_id_bytes(world_id) + u32_bytes(value)),
        final(rec).open_slot() == old(rec).bytes().len() + 1,
        old(rec).keeps_bounds(*final(rec)),
{
    let ghost b0 = rec.bytes();
    let ghost payload = world_id_bytes(world_id) + u32_bytes(value);
    rec.begin_record(opcode);
    rec_w_worldid(&mut rec.buffer, world_id);
    rec_w_u32(&mut rec.buffer, value);
    proof {
        assert(rec.bytes() =~= opened(b0, opcode) + payload);
        law_framing_matches_commit(b0, opcode, payload);
    }
    rec.end_record();
}

/// Record a gravity change: the world id, then the gravity vector.
pub fn write_world_set_gravity(rec: &mut Recording, world_id: WorldId, gravity: Vec2)
    ensures
        final(rec).bytes() == old(rec).bytes() + frame_bytes(OP_WORLD_SET_GRAVITY, world_id_bytes(world_id) + vec2_bytes(gravity)),
        final(rec).open_slot() == old(rec).bytes().len() + 1,
        old(rec).keeps_bounds(*final(rec)),
{
    let ghost b0 = rec.bytes();
    let ghost payload = world_id_bytes(world_id) + vec2_bytes(gravity);
    rec.begin_record(OP_WORLD_SET_GRAVITY);
    rec_w_worldid(&mut rec.buffer, world_id);
    rec_w_vec2(&mut rec.buffer, gravity);
    proof {
        assert(rec.bytes() =~= opened(b0, OP_WORLD_SET_GRAVITY) + payload);
        law_framing_matches_commit(b0, OP_WORLD_SET_GRAVITY, payload);
    }
    rec.end_record();
}

/// Record a contact tuning change: the world id, then hertz, damping ratio and push speed.
pub fn write_world_set_contact_tuning(rec: &mut Recording, world_id: WorldId, hertz: u32, damping_ratio: u32, push_speed: u32)
    ensures
        final(rec).bytes() == old(rec).bytes() + frame_bytes(OP_WORLD_SET_CONTACT_TUNING, world_id_bytes(world_id) + u32_bytes(hertz) + u32_bytes(damping_ratio) + u32_bytes(push_speed)),
        final(rec).open_slot() == old(rec).bytes().len() + 1,
        old(rec).keeps_bounds(*final(rec)),
{
    let ghost b0 = rec.bytes();
    let ghost payload = world_id_bytes(world_id) + u32_bytes(hertz) + u32_bytes(damping_ratio) + u32_bytes(push_speed);
    rec.begin_record(OP_WORLD_SET_CONTACT_TUNING);
    rec_w_worldid(&mut rec.buffer, world_id);
    rec_w_u32(&mut rec.buffer, hertz);
    rec_w_u32(&mut rec.buffer, damping_ratio);
    rec_w_u32(&mut rec.buffer, push_speed);
    proof {
        assert(rec.bytes() =~= opened(b0, OP_WORLD_SET_CONTACT_TUNING) + payload);
        law_framing_matches_commit(b0, OP_WORLD_SET_CONTACT_TUNING, payload);
    }
    rec.end_record();
}

/// Record an explosion: the world id, then the explosion definition.
pub fn write_world_explode(rec: &mut Recording, world_id: WorldId, def: &ExplosionDef)
    ensures
        final(rec).bytes() == old(rec).bytes() + frame_bytes(OP_WORLD_EXPLODE, world_id_bytes(world_id) + explosion_def_bytes(*def)),
        final(rec).open_slot() == old(rec).bytes().len() + 1,
        old(rec).keeps_bounds(*final(rec)),
{
    let ghost b0 = rec.bytes();
    let ghost payload = world_id_bytes(world_id) + explosion_def_bytes(*def);
    rec.begin_record(OP_WORLD_EXPLODE);
    rec_w_worldid(&mut rec.buffer, world_id);
    rec_w_explosiondef(&mut rec.buffer, def);
    proof {
        assert(rec.bytes() =~= opened(b0, OP_WORLD_EXPLODE) + payload);
        law_framing_matches_commit(b0, OP_WORLD_EXPLODE, payload);
    }
    rec.end_record();
}

/// One world step: the time step's bit pattern and the sub-step count.
/// Record a world step: the world id, the time step and the sub-step count.
pub fn write_step(rec: &mut Recording, world_id: WorldId, dt: u32, sub_step_count: i32)
    ensures
        final(rec).bytes() == old(rec).bytes() + frame_bytes(OP_STEP, world_id_bytes(world_id) + u32_bytes(dt) + i32_bytes(sub_step_count)),
        final(rec).open_slot() == old(rec).bytes().len() + 1,
        old(rec).keeps_bounds(*final(rec)),
{
    let ghost b0 = rec.bytes();
    let ghost payload = world_id_bytes(world_id) + u32_bytes(dt) + i32_bytes(sub_step_count);
    rec.begin_record(OP_STEP);
    rec_w_worldid(&mut rec.buffer, world_id);
    rec_w_u32(&mut rec.buffer, dt);
    rec_w_i32(&mut rec.buffer, sub_step_count);
    proof {
        assert(rec.bytes() =~= opened(b0, OP_STEP) + payload);
        law_framing_matches_commit(b0, OP_STEP, payload);
    }
    rec.end_record();
}

/// The bounds a viewer frames the whole recording with. (RecordingBounds)
pub fn write_recording_bounds(rec: &mut Recording, bounds: Aabb)
    ensures
        final(rec).bytes() == old(rec).bytes() + frame_bytes(OP_RECORDING_BOUNDS, aabb_bytes(bounds)),
        final(rec).open_slot() == old(rec).bytes().len() + 1,
        old(rec).keeps_bounds(*final(rec)),
{
    let ghost b0 = rec.bytes();
    let ghost payload = aabb_bytes(bounds);
    rec.begin_record(OP_RECORDING_BOUNDS);
    rec_w_aabb(&mut rec.buffer, bounds);
    proof {
        assert(rec.bytes() =~= opened(b0, OP_RECORDING_BOUNDS) + payload);
        law_framing_matches_commit(b0, OP_RECORDING_BOUNDS, payload);
    }
    rec.end_record();
}

/// A body op carrying one real value.
pub fn write_body_f32(rec: &mut Recording, opcode: u8, body: BodyId, value: u32)
    ensures
        final(rec).bytes() == old(rec).bytes() + frame_bytes(opcode, id64_bytes(body.index1, body.world0, body.generation) + u32_bytes(value)),
        final(rec).open_slot() == old(rec).bytes().len() + 1,
        old(rec).keeps_bounds(*final(rec)),
{
    let ghost b0 = rec.bytes();
    let ghost payload = id64_bytes(body.index1, body.world0, body.generation) + u32_bytes(value);
    rec.begin_record(opcode);
    rec_w_bodyid(&mut rec.buffer, body);
    rec_w_u32(&mut rec.buffer, value);
    proof {
        assert(rec.bytes() =~= opened(b0, opcode) + payload);
        law_framing_matches_commit(b0, opcode, payload);
    }
    rec.end_record();
}

/// A body op carrying one vector.
pub fn write_body_vec2(rec: &mut Recording, opcode: u8, body: BodyId, v: Vec2)
    ensures
        final(rec).bytes() == old(rec).bytes() + frame_bytes(opcode, id64_bytes(body.index1, body.world0, body.generation) + vec2_bytes(v)),
        final(rec).open_slot() == old(rec).bytes().len() + 1,
        old(rec).keeps_bounds(*final(rec)),
{
    let ghost b0 = rec.bytes();
    let ghost payload = id64_bytes(body.index1, body.world0, body.generation) + vec2_bytes(v);
    rec.begin_record(opcode);
    rec_w_bodyid(&mut rec.buffer, body);
    rec_w_vec2(&mut rec.buffer, v);
    proof {
        assert(rec.bytes() =~= opened(b0, opcode) + payload);
        law_framing_matches_commit(b0, opcode, payload);
    }
    rec.end_record();
}

/// Force or impulse at a world point: vector, position, wake flag.
pub fn write_body_vec2_point_bool(rec: &mut Recording, opcode: u8, body: BodyId, v: Vec2, point: Pos, wake: bool)
    ensures
        final(rec).bytes() == old(rec).bytes() + frame_bytes(opcode, id64_bytes(body.index1, body.world0, body.generation) + vec2_bytes(v) + vec2_bytes(point) + seq![bool_byte(wake)]),
        final(rec).open_slot() == old(rec).bytes().len() + 1,
        old(rec).keeps_bounds(*final(rec)),
{
    let ghost b0 = rec.bytes();
    let ghost payload = id64_bytes(body.index1, body.world0, body.generation) + vec2_bytes(v) + vec2_bytes(point) + seq![bool_byte(wake)];
    rec.begin_record(opcode);
    rec_w_bodyid(&mut rec.buffer, body);
    rec_w_vec2(&mut rec.buffer, v);
    rec_w_position(&mut rec.buffer, point);
    rec_w_bool(&mut rec.buffer, wake);
    proof {
        assert(rec.bytes() =~= opened(b0, opcode) + payload);
        law_framing_matches_commit(b0, opcode, payload);
    }
    rec.end_record();
}

/// A body op carrying a vector and a wake flag.
pub fn write_body_vec2_bool(rec: &mut Recording, opcode: u8, body: BodyId, v: Vec2, wake: bool)
    ensures
        final(rec).bytes() == old(rec).bytes() + frame_bytes(opcode, id64_bytes(body.index1, body.world0, body.generation) + vec2_bytes(v) + seq![bool_byte(wake)]),
        final(rec).open_slot() == old(rec).bytes().len() + 1,
        old(rec).keeps_bounds(*final(rec)),
{
    let ghost b0 = rec.bytes();
    let ghost payload = id64_bytes(body.index1, body.world0, body.generation) + vec2_bytes(v) + seq![bool_byte(wake)];
    rec.begin_record(opcode);
    rec_w_bodyid(&mut rec.buffer, body);
    rec_w_vec2(&mut rec.buffer, v);
    rec_w_bool(&mut rec.buffer, wake);
    proof {
        assert(rec.bytes() =~= opened(b0, opcode) + payload);
        law_framing_matches_commit(b0, opcode, payload);
    }
    rec.end_record();
}

/// A body op carrying a real value and a wake flag.
pub fn write_body_f32_bool(rec: &mut Recording, opcode: u8, body: BodyId, value: u32, wake: bool)
    ensures
        final(rec).bytes() == old(rec).bytes() + frame_bytes(opcode, id64_bytes(body.index1, body.world0, body.generation) + u32_bytes(value) + seq![bool_byte(wake)]),
        final(rec).open_slot() == old(rec).bytes().len() + 1,
        old(rec).keeps_bounds(*final(rec)),
{
    let ghost b0 = rec.bytes();
    let ghost payload = id64_bytes(body.index1, body.world0, body.generation) + u32_bytes(value) + seq![bool_byte(wake)];
    rec.begin_record(opcode);
    rec_w_bodyid(&mut rec.buffer, body);
    rec_w_u32(&mut rec.buffer, value);
    rec_w_bool(&mut rec.buffer, wake);
    proof {
        assert(rec.bytes() =~= opened(b0, opcode) + payload);
        law_framing_matches_commit(b0, opcode, payload);
    }
    rec.end_record();
}

/// Record a body transform change: the body id, position and rotation.
pub fn write_body_set_transform(rec: &mut Recording, body: BodyId, position: Pos, rotation: Rot)
    ensures
        final(rec).bytes() == old(rec).bytes() + frame_bytes(OP_BODY_SET_TRANSFORM, id64_bytes(body.index1, body.world0, body.generation) + vec2_bytes(position) + rot_bytes(rotation)),
        final(rec).open_slot() == old(rec).bytes().len() + 1,
        old(rec).keeps_bounds(*final(rec)),
{
    let ghost b0 = rec.bytes();
    let ghost payload = id64_bytes(body.index1, body.world0, body.generation) + vec2_bytes(position) + rot_bytes(rotation);
    rec.begin_record(OP_BODY_SET_TRANSFORM);
    rec_w_bodyid(&mut rec.buffer, body);
    rec_w_position(&mut rec.buffer, position);
    rec_w_rot(&mut rec.buffer, rotation);
    proof {
        assert(rec.bytes() =~= opened(b0, OP_BODY_SET_TRANSFORM) + payload);
        law_framing_matches_commit(b0, OP_BODY_SET_TRANSFORM, payload);
    }
    rec.end_record();
}

/// Record a body target transform: the body id, the target, the time step and whether to wake.
pub fn write_body_set_target_transform(rec: &mut Recording, body: BodyId, target: WorldTransform, time_step: u32, wake: bool)
    ensures
        final(rec).bytes() == old(rec).bytes() + frame_bytes(OP_BODY_SET_TARGET_TRANSFORM, id64_bytes(body.index1, body.world0, body.generation) + xf_bytes(target) + u32_bytes(time_step) + seq![bool_byte(wake)]),
        final(rec).open_slot() == old(rec).bytes().len() + 1,
        old(rec).keeps_bounds(*final(rec)),
{
    let ghost b0 = rec.bytes();
    let ghost payload = id64_bytes(body.index1, body.world0, body.generation) + xf_bytes(target) + u32_bytes(time_step) + seq![bool_byte(wake)];
    rec.begin_record(OP_BODY_SET_TARGET_TRANSFORM);
    rec_w_bodyid(&mut rec.buffer, body);
    rec_w_worldxf(&mut rec.buffer, target);
    rec_w_u32(&mut rec.buffer, time_step);
    rec_w_bool(&mut rec.buffer, wake);
    proof {
        assert(rec.bytes() =~= opened(b0, OP_BODY_SET_TARGET_TRANSFORM) + payload);
        law_framing_matches_commit(b0, OP_BODY_SET_TARGET_TRANSFORM, payload);
    }
    rec.end_record();
}

/// Record a mass data change: the body id, then the mass data.
pub fn write_body_set_mass_data(rec: &mut Recording, body: BodyId, mass_data: MassData)
    ensures
        final(rec).bytes() == old(rec).bytes() + frame_bytes(OP_BODY_SET_MASS_DATA, id64_bytes(body.index1, body.world0, body.generation) + mass_data_bytes(mass_data)),
        final(rec).open_slot() == old(rec).bytes().len() + 1,
        old(rec).keeps_bounds(*final(rec)),
{
    let ghost b0 = rec.bytes();
    let ghost payload = id64_bytes(body.index1, body.world0, body.generation) + mass_data_bytes(mass_data);
    rec.begin_record(OP_BODY_SET_MASS_DATA);
    rec_w_bodyid(&mut rec.buffer, body);
    rec_w_massdata(&mut rec.buffer, mass_data);
    proof {
        assert(rec.bytes() =~= opened(b0, OP_BODY_SET_MASS_DATA) + payload);
        law_framing_matches_commit(b0, OP_BODY_SET_MASS_DATA, payload);
    }
    rec.end_record();
}

/// A shape op carrying one real value.
pub fn write_shape_f32(rec: &mut Recording, opcode: u8, shape: ShapeId, value: u32)
    ensures
        final(rec).bytes() == old(rec).bytes() + frame_bytes(opcode, id64_bytes(shape.index1, shape.world0, shape.generation) + u32_bytes(value)),
        final(rec).open_slot() == old(rec).bytes().len() + 1,
        old(rec).keeps_bounds(*final(rec)),
{
    let ghost b0 = rec.bytes();
    let ghost payload = id64_bytes(shape.index1, shape.world0, shape.generation) + u32_bytes(value);
    rec.begin_record(opcode);
    rec_w_shapeid(&mut rec.buffer, shape);
    rec_w_u32(&mut rec.buffer, value);
    proof {
        assert(rec.bytes() =~= opened(b0, opcode) + payload);
        law_framing_matches_commit(b0, opcode, payload);
    }
    rec.end_record();
}

/// Record a density change: the shape id, the density and whether the body mass updates.
pub fn write_shape_set_density(rec: &mut Recording, shape: ShapeId, density: u32, update_body_mass: bool)
    ensures
        final(rec).bytes() == old(rec).bytes() + frame_bytes(OP_SHAPE_SET_DENSITY, id64_bytes(shape.index1, shape.world0, shape.generation) + u32_bytes(density) + seq![bool_byte(update_body_mass)]),
        final(rec).open_slot() == old(rec).bytes().len() + 1,
        old(rec).keeps_bounds(*final(rec)),
{
    let ghost b0 = rec.bytes();
    let ghost payload = id64_bytes(shape.index1, shape.world0, shape.generation) + u32_bytes(density) + seq![bool_byte(update_body_mass)];
    rec.begin_record(OP_SHAPE_SET_DENSITY);
    rec_w_shapeid(&mut rec.buffer, shape);
    rec_w_u32(&mut rec.buffer, density);
    rec_w_bool(&mut rec.buffer, update_body_mass);
    proof {
        assert(rec.bytes() =~= opened(b0, OP_SHAPE_SET_DENSITY) + payload);
        law_framing_matches_commit(b0, OP_SHAPE_SET_DENSITY, payload);
    }
    rec.end_record();
}

/// Geometry replacement ops share the shape id and geometry payload layout.
pub fn write_shape_geometry(rec: &mut Recording, opcode: u8, shape: ShapeId, geometry: &ShapeGeometry)
    ensures
        final(rec).bytes() == old(rec).bytes() + frame_bytes(opcode, id64_bytes(shape.index1, shape.world0, shape.generation) + geometry_bytes(*geometry)),
        final(rec).open_slot() == old(rec).bytes().len() + 1,
        old(rec).keeps_bounds(*final(rec)),
{
    proof {
        lemma_geometry_len(*geometry);
    }
    let ghost b0 = rec.bytes();
    let ghost payload = id64_bytes(shape.index1, shape.world0, shape.generation) + geometry_bytes(*geometry);
    rec.begin_record(opcode);
    rec_w_shapeid(&mut rec.buffer, shape);
    w_geometry(&mut rec.buffer, geometry);
    proof {
        assert(rec.bytes() =~= opened(b0, opcode) + payload);
        law_framing_matches_commit(b0, opcode, payload);
    }
    rec.end_record();
}

/// Record wind applied to a shape: the shape id, wind, drag, lift and whether to wake.
pub fn write_shape_apply_wind(rec: &mut Recording, shape: ShapeId, wind: Vec2, drag: u32, lift: u32, wake: bool)
    ensures
        final(rec).bytes() == old(rec).bytes() + frame_bytes(OP_SHAPE_APPLY_WIND, id64_bytes(shape.index1, shape.world0, shape.generation) + vec2_bytes(wind) + u32_bytes(drag) + u32_bytes(lift) + seq![bool_byte(wake)]),
        final(rec).open_slot() == old(rec).bytes().len() + 1,
        old(rec).keeps_bounds(*final(rec)),
{
    let ghost b0 = rec.bytes();
    let ghost payload = id64_bytes(shape.index1, shape.world0, shape.generation) + vec2_bytes(wind) + u32_bytes(drag) + u32_bytes(lift) + seq![bool_byte(wake)];
    rec.begin_record(OP_SHAPE_APPLY_WIND);
    rec_w_shapeid(&mut rec.buffer, shape);
    rec_w_vec2(&mut rec.buffer, wind);
    rec_w_u32(&mut rec.buffer, drag);
    rec_w_u32(&mut rec.buffer, lift);
    rec_w_bool(&mut rec.buffer, wake);
    proof {
        assert(rec.bytes() =~= opened(b0, OP_SHAPE_APPLY_WIND) + payload);
        law_framing_matches_commit(b0, OP_SHAPE_APPLY_WIND, payload);
    }
    rec.end_record();
}

/// A joint op carrying one real value.
pub fn write_joint_f32(rec: &mut Recording, opcode: u8, joint: JointId, value: u32)
    ensures
        final(rec).bytes() == old(rec).bytes() + frame_bytes(opcode, id64_bytes(joint.index1, joint.world0, joint.generation) + u32_bytes(value)),
        final(rec).open_slot() == old(rec).bytes().len() + 1,
        old(rec).keeps_bounds(*final(rec)),
{
    let ghost b0 = rec.bytes();
    let ghost payload = id64_bytes(joint.index1, joint.world0, joint.generation) + u32_bytes(value);
    rec.begin_record(opcode);
    rec_w_jointid(&mut rec.buffer, joint);
    rec_w_u32(&mut rec.buffer, value);
    proof {
        assert(rec.bytes() =~= opened(b0, opcode) + payload);
        law_framing_matches_commit(b0, opcode, payload);
    }
    rec.end_record();
}

/// A joint op carrying two real values.
pub fn write_joint_f32_pair(rec: &mut Recording, opcode: u8, joint: JointId, a: u32, b: u32)
    ensures
        final(rec).bytes() == old(rec).bytes() + frame_bytes(opcode, id64_bytes(joint.index1, joint.world0, joint.generation) + u32_bytes(a) + u32_bytes(b)),
        final(rec).open_slot() == old(rec).bytes().len() + 1,
        old(rec).keeps_bounds(*final(rec)),
{
    let ghost b0 = rec.bytes();
    let ghost payload = id64_bytes(joint.index1, joint.world0, joint.generation) + u32_bytes(a) + u32_bytes(b);
    rec.begin_record(opcode);
    rec_w_jointid(&mut rec.buffer, joint);
    rec_w_u32(&mut rec.buffer, a);
    rec_w_u32(&mut rec.buffer, b);
    proof {
        assert(rec.bytes() =~= opened(b0, opcode) + payload);
        law_framing_matches_commit(b0, opcode, payload);
    }
    rec.end_record();
}

/// A joint op carrying one vector.
pub fn write_joint_vec2(rec: &mut Recording, opcode: u8, joint: JointId, v: Vec2)
    ensures
        final(rec).bytes() == old(rec).bytes() + frame_bytes(opcode, id64_bytes(joint.index1, joint.world0, joint.generation) + vec2_bytes(v)),
        final(rec).open_slot() == old(rec).bytes().len() + 1,
        old(rec).keeps_bounds(*final(rec)),
{
    let ghost b0 = rec.bytes();
    let ghost payload = id64_bytes(joint.index1, joint.world0, joint.generation) + vec2_bytes(v);
    rec.begin_record(opcode);
    rec_w_jointid(&mut rec.buffer, joint);
    rec_w_vec2(&mut rec.buffer, v);
    proof {
        assert(rec.bytes() =~= opened(b0, opcode) + payload);
        law_framing_matches_commit(b0, opcode, payload);
    }
    rec.end_record();
}

/// A joint op carrying a local frame.
pub fn write_joint_xf(rec: &mut Recording, opcode: u8, joint: JointId, frame: Transform)
    ensures
        final(rec).bytes() == old(rec).bytes() + frame_bytes(opcode, id64_bytes(joint.index1, joint.world0, joint.generation) + xf_bytes(frame)),
        final(rec).open_slot() == old(rec).bytes().len() + 1,
        old(rec).keeps_bounds(*final(rec)),
{
    let ghost b0 = rec.bytes();
    let ghost payload = id64_bytes(joint.index1, joint.world0, joint.generation) + xf_bytes(frame);
    rec.begin_record(opcode);
    rec_w_jointid(&mut rec.buffer, joint);
    rec_w_xf(&mut rec.buffer, frame);
    proof {
        assert(rec.bytes() =~= opened(b0, opcode) + payload);
        law_framing_matches_commit(b0, opcode, payload);
    }
    rec.end_record();
}

/// Body create op: the informational world argument (always 1), the
/// definition, and the id the world returned, so replay can check it.
pub fn write_create_body(rec: &mut Recording, def: &BodyDef, id: BodyId)
    ensures
        final(rec).bytes() == old(rec).bytes() + frame_bytes(OP_CREATE_BODY,
            u32_bytes(1) + body_def_bytes(*def) + id64_bytes(id.index1, id.world0, id.generation)),
        final(rec).open_slot() == old(rec).bytes().len() + 1,
        old(rec).keeps_bounds(*final(rec)),
{
    let ghost b0 = rec.bytes();
    let ghost payload = u32_bytes(1) + body_def_bytes(*def) + id64_bytes(id.index1, id.world0, id.generation);
    rec.begin_record(OP_CREATE_BODY);
    rec_w_u32(&mut rec.buffer, 1);
    rec_w_bodydef(&mut rec.buffer, def);
    rec_w_bodyid(&mut rec.buffer, id);
    proof {
        assert(rec.bytes() =~= opened(b0, OP_CREATE_BODY) + payload);
        assert(body_def_bytes(*def).len() <= 65534 + 73);
        law_framing_matches_commit(b0, OP_CREATE_BODY, payload);
    }
    rec.end_record();
}

/// Shape create op: body id, definition, geometry, and the id the world
/// returned. The opcode names the geometry kind.
pub fn write_create_shape(rec: &mut Recording, opcode: u8, body: BodyId, def: &ShapeDef, geometry: &ShapeGeometry,
    id: ShapeId)
    ensures
        final(rec).bytes() == old(rec).bytes() + frame_bytes(opcode, id64_bytes(body.index1, body.world0, body.generation)
            + shape_def_bytes(*def) + geometry_bytes(*geometry) + id64_bytes(id.index1, id.world0, id.generation)),
        final(rec).open_slot() == old(rec).bytes().len() + 1,
        old(rec).keeps_bounds(*final(rec)),
{
    proof {
        lemma_geometry_len(*geometry);
    }
    let ghost b0 = rec.bytes();
    let ghost payload = id64_bytes(body.index1, body.world0, body.generation) + shape_def_bytes(*def)
        + geometry_bytes(*geometry) + id64_bytes(id.index1, id.world0, id.generation);
    rec.begin_record(opcode);
    rec_w_bodyid(&mut rec.buffer, body);
    rec_w_shapedef(&mut rec.buffer, def);
    w_geometry(&mut rec.buffer, geometry);
    rec_w_shapeid(&mut rec.buffer, id);
    proof {
        assert(rec.bytes() =~= opened(b0, opcode) + payload);
        law_framing_matches_commit(b0, opcode, payload);
    }
    rec.end_record();
}

/// Chain create op: body id, definition with its points and materials
/// inlined, and the id the world returned.
pub fn write_create_chain(rec: &mut Recording, body: BodyId, def: &ChainDef, id: ChainId)
    requires
        54 + 8 * def.points@.len() + 28 * def.materials@.len() <= REC_MAX_PAYLOAD,
    ensures
        final(rec).bytes() == old(rec).bytes() + frame_bytes(OP_CREATE_CHAIN, id64_bytes(body.index1, body.world0,
            body.generation) + chain_def_bytes(*def) + id64_bytes(id.index1, id.world0, id.generation)),
        final(rec).open_slot() == old(rec).bytes().len() + 1,
        old(rec).keeps_bounds(*final(rec)),
{
    proof {
        lemma_vec2s_len(def.points@);
        lemma_materials_len(def.materials@);
    }
    let ghost b0 = rec.bytes();
    let ghost payload = id64_bytes(body.index1, body.world0, body.generation) + chain_def_bytes(*def)
        + id64_bytes(id.index1, id.world0, id.generation);
    rec.begin_record(OP_CREATE_CHAIN);
    rec_w_bodyid(&mut rec.buffer, body);
    rec_w_chaindef(&mut rec.buffer, def);
    rec_w_chainid(&mut rec.buffer, id);
    proof {
        assert(rec.bytes() =~= opened(b0, OP_CREATE_CHAIN) + payload);
        law_framing_matches_commit(b0, OP_CREATE_CHAIN, payload);
    }
    rec.end_record();
}

/// Joint create op: the informational world argument (always 1), the
/// definition as its type's writer laid it down, and the id the world
/// returned. The opcode names the joint type.
pub fn write_create_joint(rec: &mut Recording, opcode: u8, def_payload: &[u8], id: JointId)
    requires
        def_payload@.len() + 12 <= REC_MAX_PAYLOAD,
    ensures
        final(rec).bytes() == old(rec).bytes() + frame_bytes(opcode, u32_bytes(1) + def_payload@
            + id64_bytes(id.index1, id.world0, id.generation)),
        final(rec).open_slot() == old(rec).bytes().len() + 1,
        old(rec).keeps_bounds(*final(rec)),
{
    let ghost b0 = rec.bytes();
    let ghost payload = u32_bytes(1) + def_payload@ + id64_bytes(id.index1, id.world0, id.generation);
    rec.begin_record(opcode);
    rec_w_u32(&mut rec.buffer, 1);
    let ghost mid = rec.bytes();
    let mut i: usize = 0;
    while i < def_payload.len()
        invariant
            0 <= i <= def_payload@.len(),
            rec.bytes() == mid + def_payload@.take(i as int),
            rec.open_slot() == b0.len() + 1,
            old(rec).keeps_bounds(*rec),
        decreases def_payload@.len() - i,
    {
        rec.buffer.push(def_payload[i]);
        i = i + 1;
        assert(rec.bytes() =~= mid + def_payload@.take(i as int));
    }
    assert(def_payload@.take(def_payload@.len() as int) =~= def_payload@);
    rec_w_jointid(&mut rec.buffer, id);
    proof {
        assert(rec.bytes() =~= opened(b0, opcode) + payload);
        law_framing_matches_commit(b0, opcode, payload);
    }
    rec.end_record();
}

/// The box a stopped session records: the bounds folded in, or the zero
/// box when there are none.
pub open spec fn final_bounds(rec: Recording) -> Aabb {
    if rec.has_bounds() {
        rec.bounds()
    } else {
        Aabb { lower_bound: Vec2 { x: 0, y: 0 }, upper_bound: Vec2 { x: 0, y: 0 } }
    }
}

/// What stopping appends to a session: the bounds record, then the
/// end-of-session marker naming the world.
pub open spec fn stop_bytes(rec: Recording, world_id: WorldId) -> Seq<u8> {
    frame_bytes(OP_RECORDING_BOUNDS, aabb_bytes(final_bounds(rec))) + frame_bytes(OP_DESTROY_WORLD, world_id_bytes(world_id))
}

/// Take the world's session, append the bounds and the end marker so the
/// buffer stands on its own, and hand it back; `None` when no session
/// records.
fn stop_recording_internal(world: &mut World) -> (r: Option<Recording>)
    requires
        old(world).world_id < u16::MAX,
    ensures
        final(world).recording is None,
        final(world).same_but_recording(old(world)),
        match old(world).recording {
            None => r is None,
            Some(rec) => {
                &&& r is Some
                &&& r->0.bytes() == rec.bytes() + stop_bytes(rec, WorldId { index1: (old(world).world_id + 1) as u16, generation: old(world).generation })
            },
        },
{
    let mut rec = match world.recording.take() {
        Some(rec) => rec,
        None => {
            return None;
        },
    };
    let ghost b0 = rec.bytes();
    let bounds = rec.bounds_or_zero();
    write_recording_bounds(&mut rec, bounds);
    let world_id = world_id_of(world);
    write_destroy_world(&mut rec, world_id);
    proof {
        vstd::seq_lib::lemma_concat_associative(b0, frame_bytes(OP_RECORDING_BOUNDS, aabb_bytes(bounds)), frame_bytes(OP_DESTROY_WORLD, world_id_bytes(world_id)));
    }
    Some(rec)
}

/// Stop the world's recording session and return the finished recording;
/// `None` when no session records. Refused while the world steps.
pub fn world_stop_recording(world: &mut World) -> (r: Option<Recording>)
    requires
        !old(world).locked,
        old(world).world_id < u16::MAX,
    ensures
        final(world).recording is None,
        final(world).same_but_recording(old(world)),
        match old(world).recording {
            None => r is None,
            Some(rec) => {
                &&& r is Some
                &&& r->0.bytes() == rec.bytes() + stop_bytes(rec, WorldId { index1: (old(world).world_id + 1) as u16, generation: old(world).generation })
            },
        },
{
    if world.locked {
        return None;
    }
    stop_recording_internal(world)
}

} // verus!
