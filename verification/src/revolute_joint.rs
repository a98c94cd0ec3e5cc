use vstd::prelude::*;
use crate::id::JointId;
use crate::joint::{
    get_joint_sim_check_type, joint_of, joint_sim_of, law_joint_update_reads_back, payload_replaced,
    set_joint_payload, JointPayload, JointType, RevoluteJoint,
};
use crate::recording::ops::{
    OP_REVOLUTE_ENABLE_LIMIT, OP_REVOLUTE_ENABLE_MOTOR, OP_REVOLUTE_ENABLE_SPRING, OP_REVOLUTE_SET_MAX_MOTOR_TORQUE, OP_REVOLUTE_SET_MOTOR_SPEED, OP_REVOLUTE_SET_SPRING_DAMPING_RATIO, OP_REVOLUTE_SET_SPRING_HERTZ, OP_REVOLUTE_SET_TARGET_ANGLE, write_joint_bool, write_joint_f32
};
use crate::world::{recorded, World};
use crate::write::{bool_byte, id64_bytes, u32_bytes};

verus! {

/// The revolute data of the joint an id names.
pub open spec fn revolute_of(world: &World, id: JointId) -> RevoluteJoint {
    match joint_sim_of(world, id).payload {
        JointPayload::Revolute(p) => p,
        _ => arbitrary(),
    }
}

/// `p` after its spring was switched to `flag`: a change clears the
/// spring's accumulated impulse.
pub open spec fn revolute_with_spring(p: RevoluteJoint, flag: bool) -> RevoluteJoint {
    if flag != p.enable_spring {
        RevoluteJoint { enable_spring: flag, spring_impulse: 0, ..p }
    } else {
        p
    }
}

/// Switch the spring of a revolute joint on or off; a change clears its
/// accumulated impulse.
pub fn revolute_joint_enable_spring(world: &mut World, joint_id: JointId, enable_spring: bool)
    requires
        old(world).wf(),
        !old(world).locked,
        old(world).valid_joint_id(joint_id),
        joint_of(old(world), joint_id).type_ == JointType::Revolute,
    ensures
        recorded(old(world).recording, final(world).recording, OP_REVOLUTE_ENABLE_SPRING,
            id64_bytes(joint_id.index1, joint_id.world0, joint_id.generation) + seq![bool_byte(enable_spring)]),
        payload_replaced(old(world), final(world), joint_id,
            JointPayload::Revolute(revolute_with_spring(revolute_of(old(world), joint_id), enable_spring))),
        final(world).wf(),
{
    if let Some(mut rec) = world.recording.take() {
        write_joint_bool(&mut rec, OP_REVOLUTE_ENABLE_SPRING, joint_id, enable_spring);
        world.recording = Some(rec);
    }
    let sim = get_joint_sim_check_type(world, joint_id, JointType::Revolute);
    if let JointPayload::Revolute(mut p) = sim.payload {
        if enable_spring != p.enable_spring {
            p.enable_spring = enable_spring;
            p.spring_impulse = 0;
        }
        set_joint_payload(world, joint_id, JointPayload::Revolute(p));
    }
}

/// Whether the spring of a revolute joint is on.
pub fn revolute_joint_is_spring_enabled(world: &World, joint_id: JointId) -> (r: bool)
    requires
        world.wf(),
        !world.locked,
        world.valid_joint_id(joint_id),
        joint_of(world, joint_id).type_ == JointType::Revolute,
    ensures
        r == revolute_of(world, joint_id).enable_spring,
{
    let sim = get_joint_sim_check_type(world, joint_id, JointType::Revolute);
    match sim.payload {
        JointPayload::Revolute(p) => p.enable_spring,
        _ => vstd::pervasive::unreached(),
    }
}

/// `p` after its limit was switched to `flag`: a change clears the
/// limit's accumulated impulses.
pub open spec fn revolute_with_limit(p: RevoluteJoint, flag: bool) -> RevoluteJoint {
    if flag != p.enable_limit {
        RevoluteJoint { enable_limit: flag, lower_impulse: 0, upper_impulse: 0, ..p }
    } else {
        p
    }
}

/// Switch the limit of a revolute joint on or off; a change clears its
/// accumulated impulse.
pub fn revolute_joint_enable_limit(world: &mut World, joint_id: JointId, enable_limit: bool)
    requires
        old(world).wf(),
        !old(world).locked,
        old(world).valid_joint_id(joint_id),
        joint_of(old(world), joint_id).type_ == JointType::Revolute,
    ensures
        recorded(old(world).recording, final(world).recording, OP_REVOLUTE_ENABLE_LIMIT,
            id64_bytes(joint_id.index1, joint_id.world0, joint_id.generation) + seq![bool_byte(enable_limit)]),
        payload_replaced(old(world), final(world), joint_id,
            JointPayload::Revolute(revolute_with_limit(revolute_of(old(world), joint_id), enable_limit))),
        final(world).wf(),
{
    if let Some(mut rec) = world.recording.take() {
        write_joint_bool(&mut rec, OP_REVOLUTE_ENABLE_LIMIT, joint_id, enable_limit);
        world.recording = Some(rec);
    }
    let sim = get_joint_sim_check_type(world, joint_id, JointType::Revolute);
    if let JointPayload::Revolute(mut p) = sim.payload {
        if enable_limit != p.enable_limit {
            p.enable_limit = enable_limit;
            p.lower_impulse = 0;
            p.upper_impulse = 0;
        }
        set_joint_payload(world, joint_id, JointPayload::Revolute(p));
    }
}

/// Whether the limit of a revolute joint is on.
pub fn revolute_joint_is_limit_enabled(world: &World, joint_id: JointId) -> (r: bool)
    requires
        world.wf(),
        !world.locked,
        world.valid_joint_id(joint_id),
        joint_of(world, joint_id).type_ == JointType::Revolute,
    ensures
        r == revolute_of(world, joint_id).enable_limit,
{
    let sim = get_joint_sim_check_type(world, joint_id, JointType::Revolute);
    match sim.payload {
        JointPayload::Revolute(p) => p.enable_limit,
        _ => vstd::pervasive::unreached(),
    }
}

/// `p` after its motor was switched to `flag`: a change clears the
/// motor's accumulated impulse.
pub open spec fn revolute_with_motor(p: RevoluteJoint, flag: bool) -> RevoluteJoint {
    if flag != p.enable_motor {
        RevoluteJoint { enable_motor: flag, motor_impulse: 0, ..p }
    } else {
        p
    }
}

/// Switch the motor of a revolute joint on or off; a change clears its
/// accumulated impulse.
pub fn revolute_joint_enable_motor(world: &mut World, joint_id: JointId, enable_motor: bool)
    requires
        old(world).wf(),
        !old(world).locked,
        old(world).valid_joint_id(joint_id),
        joint_of(old(world), joint_id).type_ == JointType::Revolute,
    ensures
        recorded(old(world).recording, final(world).recording, OP_REVOLUTE_ENABLE_MOTOR,
            id64_bytes(joint_id.index1, joint_id.world0, joint_id.generation) + seq![bool_byte(enable_motor)]),
        payload_replaced(old(world), final(world), joint_id,
            JointPayload::Revolute(revolute_with_motor(revolute_of(old(world), joint_id), enable_motor))),
        final(world).wf(),
{
    if let Some(mut rec) = world.recording.take() {
        write_joint_bool(&mut rec, OP_REVOLUTE_ENABLE_MOTOR, joint_id, enable_motor);
        world.recording = Some(rec);
    }
    let sim = get_joint_sim_check_type(world, joint_id, JointType::Revolute);
    if let JointPayload::Revolute(mut p) = sim.payload {
        if enable_motor != p.enable_motor {
            p.enable_motor = enable_motor;
            p.motor_impulse = 0;
        }
        set_joint_payload(world, joint_id, JointPayload::Revolute(p));
    }
}

/// Whether the motor of a revolute joint is on.
pub fn revolute_joint_is_motor_enabled(world: &World, joint_id: JointId) -> (r: bool)
    requires
        world.wf(),
        !world.locked,
        world.valid_joint_id(joint_id),
        joint_of(world, joint_id).type_ == JointType::Revolute,
    ensures
        r == revolute_of(world, joint_id).enable_motor,
{
    let sim = get_joint_sim_check_type(world, joint_id, JointType::Revolute);
    match sim.payload {
        JointPayload::Revolute(p) => p.enable_motor,
        _ => vstd::pervasive::unreached(),
    }
}

/// The lower angle limit, as a bit pattern.
pub fn revolute_joint_get_lower_limit(world: &World, joint_id: JointId) -> (r: u32)
    requires
        world.wf(),
        !world.locked,
        world.valid_joint_id(joint_id),
        joint_of(world, joint_id).type_ == JointType::Revolute,
    ensures
        r == revolute_of(world, joint_id).lower_angle,
{
    let sim = get_joint_sim_check_type(world, joint_id, JointType::Revolute);
    match sim.payload {
        JointPayload::Revolute(p) => p.lower_angle,
        _ => vstd::pervasive::unreached(),
    }
}

/// The upper angle limit, as a bit pattern.
pub fn revolute_joint_get_upper_limit(world: &World, joint_id: JointId) -> (r: u32)
    requires
        world.wf(),
        !world.locked,
        world.valid_joint_id(joint_id),
        joint_of(world, joint_id).type_ == JointType::Revolute,
    ensures
        r == revolute_of(world, joint_id).upper_angle,
{
    let sim = get_joint_sim_check_type(world, joint_id, JointType::Revolute);
    match sim.payload {
        JointPayload::Revolute(p) => p.upper_angle,
        _ => vstd::pervasive::unreached(),
    }
}

/// Set the spring stiffness in hertz, as a bit pattern.
pub fn revolute_joint_set_spring_hertz(world: &mut World, joint_id: JointId, hertz: u32)
    requires
        old(world).wf(),
        !old(world).locked,
        old(world).valid_joint_id(joint_id),
        joint_of(old(world), joint_id).type_ == JointType::Revolute,
    ensures
        recorded(old(world).recording, final(world).recording, OP_REVOLUTE_SET_SPRING_HERTZ,
            id64_bytes(joint_id.index1, joint_id.world0, joint_id.generation) + u32_bytes(hertz)),
        payload_replaced(old(world), final(world), joint_id,
            JointPayload::Revolute(RevoluteJoint { hertz: hertz, ..revolute_of(old(world), joint_id) })),
        final(world).wf(),
{
    if let Some(mut rec) = world.recording.take() {
        write_joint_f32(&mut rec, OP_REVOLUTE_SET_SPRING_HERTZ, joint_id, hertz);
        world.recording = Some(rec);
    }
    let sim = get_joint_sim_check_type(world, joint_id, JointType::Revolute);
    if let JointPayload::Revolute(mut p) = sim.payload {
        p.hertz = hertz;
        set_joint_payload(world, joint_id, JointPayload::Revolute(p));
    }
}

/// The spring stiffness in hertz, as a bit pattern.
pub fn revolute_joint_get_spring_hertz(world: &World, joint_id: JointId) -> (r: u32)
    requires
        world.wf(),
        !world.locked,
        world.valid_joint_id(joint_id),
        joint_of(world, joint_id).type_ == JointType::Revolute,
    ensures
        r == revolute_of(world, joint_id).hertz,
{
    let sim = get_joint_sim_check_type(world, joint_id, JointType::Revolute);
    match sim.payload {
        JointPayload::Revolute(p) => p.hertz,
        _ => vstd::pervasive::unreached(),
    }
}

/// Set the spring damping ratio, as a bit pattern.
pub fn revolute_joint_set_spring_damping_ratio(world: &mut World, joint_id: JointId, damping_ratio: u32)
    requires
        old(world).wf(),
        !old(world).locked,
        old(world).valid_joint_id(joint_id),
        joint_of(old(world), joint_id).type_ == JointType::Revolute,
    ensures
        recorded(old(world).recording, final(world).recording, OP_REVOLUTE_SET_SPRING_DAMPING_RATIO,
            id64_bytes(joint_id.index1, joint_id.world0, joint_id.generation) + u32_bytes(damping_ratio)),
        payload_replaced(old(world), final(world), joint_id,
            JointPayload::Revolute(RevoluteJoint { damping_ratio: damping_ratio, ..revolute_of(old(world), joint_id) })),
        final(world).wf(),
{
    if let Some(mut rec) = world.recording.take() {
        write_joint_f32(&mut rec, OP_REVOLUTE_SET_SPRING_DAMPING_RATIO, joint_id, damping_ratio);
        world.recording = Some(rec);
    }
    let sim = get_joint_sim_check_type(world, joint_id, JointType::Revolute);
    if let JointPayload::Revolute(mut p) = sim.payload {
        p.damping_ratio = damping_ratio;
        set_joint_payload(world, joint_id, JointPayload::Revolute(p));
    }
}

/// The spring damping ratio, as a bit pattern.
pub fn revolute_joint_get_spring_damping_ratio(world: &World, joint_id: JointId) -> (r: u32)
    requires
        world.wf(),
        !world.locked,
        world.valid_joint_id(joint_id),
        joint_of(world, joint_id).type_ == JointType::Revolute,
    ensures
        r == revolute_of(world, joint_id).damping_ratio,
{
    let sim = get_joint_sim_check_type(world, joint_id, JointType::Revolute);
    match sim.payload {
        JointPayload::Revolute(p) => p.damping_ratio,
        _ => vstd::pervasive::unreached(),
    }
}

/// Set the angle the spring pulls towards, as a bit pattern.
pub fn revolute_joint_set_target_angle(world: &mut World, joint_id: JointId, angle: u32)
    requires
        old(world).wf(),
        !old(world).locked,
        old(world).valid_joint_id(joint_id),
        joint_of(old(world), joint_id).type_ == JointType::Revolute,
    ensures
        recorded(old(world).recording, final(world).recording, OP_REVOLUTE_SET_TARGET_ANGLE,
            id64_bytes(joint_id.index1, joint_id.world0, joint_id.generation) + u32_bytes(angle)),
        payload_replaced(old(world), final(world), joint_id,
            JointPayload::Revolute(RevoluteJoint { target_angle: angle, ..revolute_of(old(world), joint_id) })),
        final(world).wf(),
{
    if let Some(mut rec) = world.recording.take() {
        write_joint_f32(&mut rec, OP_REVOLUTE_SET_TARGET_ANGLE, joint_id, angle);
        world.recording = Some(rec);
    }
    let sim = get_joint_sim_check_type(world, joint_id, JointType::Revolute);
    if let JointPayload::Revolute(mut p) = sim.payload {
        p.target_angle = angle;
        set_joint_payload(world, joint_id, JointPayload::Revolute(p));
    }
}

/// The angle the spring pulls towards, as a bit pattern.
pub fn revolute_joint_get_target_angle(world: &World, joint_id: JointId) -> (r: u32)
    requires
        world.wf(),
        !world.locked,
        world.valid_joint_id(joint_id),
        joint_of(world, joint_id).type_ == JointType::Revolute,
    ensures
        r == revolute_of(world, joint_id).target_angle,
{
    let sim = get_joint_sim_check_type(world, joint_id, JointType::Revolute);
    match sim.payload {
        JointPayload::Revolute(p) => p.target_angle,
        _ => vstd::pervasive::unreached(),
    }
}

/// Set the motor speed, as a bit pattern.
pub fn revolute_joint_set_motor_speed(world: &mut World, joint_id: JointId, motor_speed: u32)
    requires
        old(world).wf(),
        !old(world).locked,
        old(world).valid_joint_id(joint_id),
        joint_of(old(world), joint_id).type_ == JointType::Revolute,
    ensures
        recorded(old(world).recording, final(world).recording, OP_REVOLUTE_SET_MOTOR_SPEED,
            id64_bytes(joint_id.index1, joint_id.world0, joint_id.generation) + u32_bytes(motor_speed)),
        payload_replaced(old(world), final(world), joint_id,
            JointPayload::Revolute(RevoluteJoint { motor_speed: motor_speed, ..revolute_of(old(world), joint_id) })),
        final(world).wf(),
{
    if let Some(mut rec) = world.recording.take() {
        write_joint_f32(&mut rec, OP_REVOLUTE_SET_MOTOR_SPEED, joint_id, motor_speed);
        world.recording = Some(rec);
    }
    let sim = get_joint_sim_check_type(world, joint_id, JointType::Revolute);
    if let JointPayload::Revolute(mut p) = sim.payload {
        p.motor_speed = motor_speed;
        set_joint_payload(world, joint_id, JointPayload::Revolute(p));
    }
}

/// The motor speed, as a bit pattern.
pub fn revolute_joint_get_motor_speed(world: &World, joint_id: JointId) -> (r: u32)
    requires
        world.wf(),
        !world.locked,
        world.valid_joint_id(joint_id),
        joint_of(world, joint_id).type_ == JointType::Revolute,
    ensures
        r == revolute_of(world, joint_id).motor_speed,
{
    let sim = get_joint_sim_check_type(world, joint_id, JointType::Revolute);
    match sim.payload {
        JointPayload::Revolute(p) => p.motor_speed,
        _ => vstd::pervasive::unreached(),
    }
}

/// Set the largest torque the motor may apply, as a bit pattern.
pub fn revolute_joint_set_max_motor_torque(world: &mut World, joint_id: JointId, torque: u32)
    requires
        old(world).wf(),
        !old(world).locked,
        old(world).valid_joint_id(joint_id),
        joint_of(old(world), joint_id).type_ == JointType::Revolute,
    ensures
        recorded(old(world).recording, final(world).recording, OP_REVOLUTE_SET_MAX_MOTOR_TORQUE,
            id64_bytes(joint_id.index1, joint_id.world0, joint_id.generation) + u32_bytes(torque)),
        payload_replaced(old(world), final(world), joint_id,
            JointPayload::Revolute(RevoluteJoint { max_motor_torque: torque, ..revolute_of(old(world), joint_id) })),
        final(world).wf(),
{
    if let Some(mut rec) = world.recording.take() {
        write_joint_f32(&mut rec, OP_REVOLUTE_SET_MAX_MOTOR_TORQUE, joint_id, torque);
        world.recording = Some(rec);
    }
    let sim = get_joint_sim_check_type(world, joint_id, JointType::Revolute);
    if let JointPayload::Revolute(mut p) = sim.payload {
        p.max_motor_torque = torque;
        set_joint_payload(world, joint_id, JointPayload::Revolute(p));
    }
}

/// The largest torque the motor may apply, as a bit pattern.
pub fn revolute_joint_get_max_motor_torque(world: &World, joint_id: JointId) -> (r: u32)
    requires
        world.wf(),
        !world.locked,
        world.valid_joint_id(joint_id),
        joint_of(world, joint_id).type_ == JointType::Revolute,
    ensures
        r == revolute_of(world, joint_id).max_motor_torque,
{
    let sim = get_joint_sim_check_type(world, joint_id, JointType::Revolute);
    match sim.payload {
        JointPayload::Revolute(p) => p.max_motor_torque,
        _ => vstd::pervasive::unreached(),
    }
}

/// What a revolute joint setter stores is what the getters then read, and
/// the joint stays a live revolute joint under the same id.
pub proof fn law_revolute_update_reads_back(world: World, next: World, joint_id: JointId, p: RevoluteJoint)
    requires
        world.wf(),
        world.valid_joint_id(joint_id),
        joint_of(&world, joint_id).type_ == JointType::Revolute,
        payload_replaced(&world, &next, joint_id, JointPayload::Revolute(p)),
    ensures
        next.valid_joint_id(joint_id),
        joint_of(&next, joint_id).type_ == JointType::Revolute,
        revolute_of(&next, joint_id) == p,
{
    law_joint_update_reads_back(world, next, joint_id, JointPayload::Revolute(p));
}

/// Switching a spring, limit or motor to the state it already has changes
/// nothing, and switching twice to the same state is switching once.
pub proof fn law_revolute_switch_idempotent(p: RevoluteJoint, flag: bool)
    ensures
        revolute_with_spring(revolute_with_spring(p, flag), flag) == revolute_with_spring(p, flag),
        revolute_with_limit(revolute_with_limit(p, flag), flag) == revolute_with_limit(p, flag),
        revolute_with_motor(revolute_with_motor(p, flag), flag) == revolute_with_motor(p, flag),
        revolute_with_spring(p, p.enable_spring) == p,
        revolute_with_limit(p, p.enable_limit) == p,
        revolute_with_motor(p, p.enable_motor) == p,
{
}

/// After a switch the query reports the new state, and the other two
/// switches keep their state and impulses.
pub proof fn law_revolute_switch_reads_back(p: RevoluteJoint, flag: bool)
    ensures
        revolute_with_spring(p, flag).enable_spring == flag,
        revolute_with_spring(p, flag).enable_limit == p.enable_limit,
        revolute_with_spring(p, flag).lower_impulse == p.lower_impulse,
        revolute_with_spring(p, flag).upper_impulse == p.upper_impulse,
        revolute_with_spring(p, flag).enable_motor == p.enable_motor,
        revolute_with_spring(p, flag).motor_impulse == p.motor_impulse,
        revolute_with_limit(p, flag).enable_limit == flag,
        revolute_with_limit(p, flag).enable_spring == p.enable_spring,
        revolute_with_limit(p, flag).spring_impulse == p.spring_impulse,
        revolute_with_limit(p, flag).enable_motor == p.enable_motor,
        revolute_with_limit(p, flag).motor_impulse == p.motor_impulse,
        revolute_with_motor(p, flag).enable_motor == flag,
        revolute_with_motor(p, flag).enable_spring == p.enable_spring,
        revolute_with_motor(p, flag).spring_impulse == p.spring_impulse,
        revolute_with_motor(p, flag).enable_limit == p.enable_limit,
        revolute_with_motor(p, flag).lower_impulse == p.lower_impulse,
        revolute_with_motor(p, flag).upper_impulse == p.upper_impulse,
{
}

} // verus!
