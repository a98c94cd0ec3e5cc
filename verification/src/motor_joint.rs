use vstd::prelude::*;
use crate::geometry::Vec2;
use crate::id::JointId;
use crate::joint::{
    get_joint_sim_check_type, joint_of, joint_sim_of, law_joint_update_reads_back, payload_replaced,
    set_joint_payload, JointPayload, JointType, MotorJoint,
};
use crate::recording::ops::{
    OP_MOTOR_SET_ANGULAR_DAMPING_RATIO, OP_MOTOR_SET_ANGULAR_HERTZ, OP_MOTOR_SET_ANGULAR_VELOCITY, OP_MOTOR_SET_LINEAR_DAMPING_RATIO, OP_MOTOR_SET_LINEAR_HERTZ, OP_MOTOR_SET_LINEAR_VELOCITY, OP_MOTOR_SET_MAX_SPRING_FORCE, OP_MOTOR_SET_MAX_SPRING_TORQUE, OP_MOTOR_SET_MAX_VELOCITY_FORCE, OP_MOTOR_SET_MAX_VELOCITY_TORQUE, write_joint_f32, write_joint_vec2
};
use crate::world::{recorded, World};
use crate::write::{id64_bytes, u32_bytes, vec2_bytes};

verus! {

/// The motor data of the joint an id names.
pub open spec fn motor_of(world: &World, id: JointId) -> MotorJoint {
    match joint_sim_of(world, id).payload {
        JointPayload::Motor(p) => p,
        _ => arbitrary(),
    }
}

/// Set the target linear velocity, as bit patterns.
pub fn motor_joint_set_linear_velocity(world: &mut World, joint_id: JointId, velocity: Vec2)
    requires
        old(world).wf(),
        !old(world).locked,
        old(world).valid_joint_id(joint_id),
        joint_of(old(world), joint_id).type_ == JointType::Motor,
    ensures
        recorded(old(world).recording, final(world).recording, OP_MOTOR_SET_LINEAR_VELOCITY,
            id64_bytes(joint_id.index1, joint_id.world0, joint_id.generation) + vec2_bytes(velocity)),
        payload_replaced(old(world), final(world), joint_id,
            JointPayload::Motor(MotorJoint { linear_velocity: velocity, ..motor_of(old(world), joint_id) })),
        final(world).wf(),
{
    if let Some(mut rec) = world.recording.take() {
        write_joint_vec2(&mut rec, OP_MOTOR_SET_LINEAR_VELOCITY, joint_id, velocity);
        world.recording = Some(rec);
    }
    let sim = get_joint_sim_check_type(world, joint_id, JointType::Motor);
    if let JointPayload::Motor(mut p) = sim.payload {
        p.linear_velocity = velocity;
        set_joint_payload(world, joint_id, JointPayload::Motor(p));
    }
}

/// The target linear velocity, as bit patterns.
pub fn motor_joint_get_linear_velocity(world: &World, joint_id: JointId) -> (r: Vec2)
    requires
        world.wf(),
        !world.locked,
        world.valid_joint_id(joint_id),
        joint_of(world, joint_id).type_ == JointType::Motor,
    ensures
        r == motor_of(world, joint_id).linear_velocity,
{
    let sim = get_joint_sim_check_type(world, joint_id, JointType::Motor);
    match sim.payload {
        JointPayload::Motor(p) => p.linear_velocity,
        _ => vstd::pervasive::unreached(),
    }
}

/// Set the target angular velocity, as a bit pattern.
pub fn motor_joint_set_angular_velocity(world: &mut World, joint_id: JointId, velocity: u32)
    requires
        old(world).wf(),
        !old(world).locked,
        old(world).valid_joint_id(joint_id),
        joint_of(old(world), joint_id).type_ == JointType::Motor,
    ensures
        recorded(old(world).recording, final(world).recording, OP_MOTOR_SET_ANGULAR_VELOCITY,
            id64_bytes(joint_id.index1, joint_id.world0, joint_id.generation) + u32_bytes(velocity)),
        payload_replaced(old(world), final(world), joint_id,
            JointPayload::Motor(MotorJoint { angular_velocity: velocity, ..motor_of(old(world), joint_id) })),
        final(world).wf(),
{
    if let Some(mut rec) = world.recording.take() {
        write_joint_f32(&mut rec, OP_MOTOR_SET_ANGULAR_VELOCITY, joint_id, velocity);
        world.recording = Some(rec);
    }
    let sim = get_joint_sim_check_type(world, joint_id, JointType::Motor);
    if let JointPayload::Motor(mut p) = sim.payload {
        p.angular_velocity = velocity;
        set_joint_payload(world, joint_id, JointPayload::Motor(p));
    }
}

/// The target angular velocity, as a bit pattern.
pub fn motor_joint_get_angular_velocity(world: &World, joint_id: JointId) -> (r: u32)
    requires
        world.wf(),
        !world.locked,
        world.valid_joint_id(joint_id),
        joint_of(world, joint_id).type_ == JointType::Motor,
    ensures
        r == motor_of(world, joint_id).angular_velocity,
{
    let sim = get_joint_sim_check_type(world, joint_id, JointType::Motor);
    match sim.payload {
        JointPayload::Motor(p) => p.angular_velocity,
        _ => vstd::pervasive::unreached(),
    }
}

/// Set the largest torque used to reach the angular velocity, as a bit pattern.
pub fn motor_joint_set_max_velocity_torque(world: &mut World, joint_id: JointId, max_torque: u32)
    requires
        old(world).wf(),
        !old(world).locked,
        old(world).valid_joint_id(joint_id),
        joint_of(old(world), joint_id).type_ == JointType::Motor,
    ensures
        recorded(old(world).recording, final(world).recording, OP_MOTOR_SET_MAX_VELOCITY_TORQUE,
            id64_bytes(joint_id.index1, joint_id.world0, joint_id.generation) + u32_bytes(max_torque)),
        payload_replaced(old(world), final(world), joint_id,
            JointPayload::Motor(MotorJoint { max_velocity_torque: max_torque, ..motor_of(old(world), joint_id) })),
        final(world).wf(),
{
    if let Some(mut rec) = world.recording.take() {
        write_joint_f32(&mut rec, OP_MOTOR_SET_MAX_VELOCITY_TORQUE, joint_id, max_torque);
        world.recording = Some(rec);
    }
    let sim = get_joint_sim_check_type(world, joint_id, JointType::Motor);
    if let JointPayload::Motor(mut p) = sim.payload {
        p.max_velocity_torque = max_torque;
        set_joint_payload(world, joint_id, JointPayload::Motor(p));
    }
}

/// The largest torque used to reach the angular velocity, as a bit pattern.
pub fn motor_joint_get_max_velocity_torque(world: &World, joint_id: JointId) -> (r: u32)
    requires
        world.wf(),
        !world.locked,
        world.valid_joint_id(joint_id),
        joint_of(world, joint_id).type_ == JointType::Motor,
    ensures
        r == motor_of(world, joint_id).max_velocity_torque,
{
    let sim = get_joint_sim_check_type(world, joint_id, JointType::Motor);
    match sim.payload {
        JointPayload::Motor(p) => p.max_velocity_torque,
        _ => vstd::pervasive::unreached(),
    }
}

/// Set the largest force used to reach the linear velocity, as a bit pattern.
pub fn motor_joint_set_max_velocity_force(world: &mut World, joint_id: JointId, max_force: u32)
    requires
        old(world).wf(),
        !old(world).locked,
        old(world).valid_joint_id(joint_id),
        joint_of(old(world), joint_id).type_ == JointType::Motor,
    ensures
        recorded(old(world).recording, final(world).recording, OP_MOTOR_SET_MAX_VELOCITY_FORCE,
            id64_bytes(joint_id.index1, joint_id.world0, joint_id.generation) + u32_bytes(max_force)),
        payload_replaced(old(world), final(world), joint_id,
            JointPayload::Motor(MotorJoint { max_velocity_force: max_force, ..motor_of(old(world), joint_id) })),
        final(world).wf(),
{
    if let Some(mut rec) = world.recording.take() {
        write_joint_f32(&mut rec, OP_MOTOR_SET_MAX_VELOCITY_FORCE, joint_id, max_force);
        world.recording = Some(rec);
    }
    let sim = get_joint_sim_check_type(world, joint_id, JointType::Motor);
    if let JointPayload::Motor(mut p) = sim.payload {
        p.max_velocity_force = max_force;
        set_joint_payload(world, joint_id, JointPayload::Motor(p));
    }
}

/// The largest force used to reach the linear velocity, as a bit pattern.
pub fn motor_joint_get_max_velocity_force(world: &World, joint_id: JointId) -> (r: u32)
    requires
        world.wf(),
        !world.locked,
        world.valid_joint_id(joint_id),
        joint_of(world, joint_id).type_ == JointType::Motor,
    ensures
        r == motor_of(world, joint_id).max_velocity_force,
{
    let sim = get_joint_sim_check_type(world, joint_id, JointType::Motor);
    match sim.payload {
        JointPayload::Motor(p) => p.max_velocity_force,
        _ => vstd::pervasive::unreached(),
    }
}

/// Set the linear spring stiffness in hertz, as a bit pattern.
pub fn motor_joint_set_linear_hertz(world: &mut World, joint_id: JointId, hertz: u32)
    requires
        old(world).wf(),
        !old(world).locked,
        old(world).valid_joint_id(joint_id),
        joint_of(old(world), joint_id).type_ == JointType::Motor,
    ensures
        recorded(old(world).recording, final(world).recording, OP_MOTOR_SET_LINEAR_HERTZ,
            id64_bytes(joint_id.index1, joint_id.world0, joint_id.generation) + u32_bytes(hertz)),
        payload_replaced(old(world), final(world), joint_id,
            JointPayload::Motor(MotorJoint { linear_hertz: hertz, ..motor_of(old(world), joint_id) })),
        final(world).wf(),
{
    if let Some(mut rec) = world.recording.take() {
        write_joint_f32(&mut rec, OP_MOTOR_SET_LINEAR_HERTZ, joint_id, hertz);
        world.recording = Some(rec);
    }
    let sim = get_joint_sim_check_type(world, joint_id, JointType::Motor);
    if let JointPayload::Motor(mut p) = sim.payload {
        p.linear_hertz = hertz;
        set_joint_payload(world, joint_id, JointPayload::Motor(p));
    }
}

/// The linear spring stiffness in hertz, as a bit pattern.
pub fn motor_joint_get_linear_hertz(world: &World, joint_id: JointId) -> (r: u32)
    requires
        world.wf(),
        !world.locked,
        world.valid_joint_id(joint_id),
        joint_of(world, joint_id).type_ == JointType::Motor,
    ensures
        r == motor_of(world, joint_id).linear_hertz,
{
    let sim = get_joint_sim_check_type(world, joint_id, JointType::Motor);
    match sim.payload {
        JointPayload::Motor(p) => p.linear_hertz,
        _ => vstd::pervasive::unreached(),
    }
}

/// Set the linear spring damping ratio, as a bit pattern.
pub fn motor_joint_set_linear_damping_ratio(world: &mut World, joint_id: JointId, damping: u32)
    requires
        old(world).wf(),
        !old(world).locked,
        old(world).valid_joint_id(joint_id),
        joint_of(old(world), joint_id).type_ == JointType::Motor,
    ensures
        recorded(old(world).recording, final(world).recording, OP_MOTOR_SET_LINEAR_DAMPING_RATIO,
            id64_bytes(joint_id.index1, joint_id.world0, joint_id.generation) + u32_bytes(damping)),
        payload_replaced(old(world), final(world), joint_id,
            JointPayload::Motor(MotorJoint { linear_damping_ratio: damping, ..motor_of(old(world), joint_id) })),
        final(world).wf(),
{
    if let Some(mut rec) = world.recording.take() {
        write_joint_f32(&mut rec, OP_MOTOR_SET_LINEAR_DAMPING_RATIO, joint_id, damping);
        world.recording = Some(rec);
    }
    let sim = get_joint_sim_check_type(world, joint_id, JointType::Motor);
    if let JointPayload::Motor(mut p) = sim.payload {
        p.linear_damping_ratio = damping;
        set_joint_payload(world, joint_id, JointPayload::Motor(p));
    }
}

/// The linear spring damping ratio, as a bit pattern.
pub fn motor_joint_get_linear_damping_ratio(world: &World, joint_id: JointId) -> (r: u32)
    requires
        world.wf(),
        !world.locked,
        world.valid_joint_id(joint_id),
        joint_of(world, joint_id).type_ == JointType::Motor,
    ensures
        r == motor_of(world, joint_id).linear_damping_ratio,
{
    let sim = get_joint_sim_check_type(world, joint_id, JointType::Motor);
    match sim.payload {
        JointPayload::Motor(p) => p.linear_damping_ratio,
        _ => vstd::pervasive::unreached(),
    }
}

/// Set the angular spring stiffness in hertz, as a bit pattern.
pub fn motor_joint_set_angular_hertz(world: &mut World, joint_id: JointId, hertz: u32)
    requires
        old(world).wf(),
        !old(world).locked,
        old(world).valid_joint_id(joint_id),
        joint_of(old(world), joint_id).type_ == JointType::Motor,
    ensures
        recorded(old(world).recording, final(world).recording, OP_MOTOR_SET_ANGULAR_HERTZ,
            id64_bytes(joint_id.index1, joint_id.world0, joint_id.generation) + u32_bytes(hertz)),
        payload_replaced(old(world), final(world), joint_id,
            JointPayload::Motor(MotorJoint { angular_hertz: hertz, ..motor_of(old(world), joint_id) })),
        final(world).wf(),
{
    if let Some(mut rec) = world.recording.take() {
        write_joint_f32(&mut rec, OP_MOTOR_SET_ANGULAR_HERTZ, joint_id, hertz);
        world.recording = Some(rec);
    }
    let sim = get_joint_sim_check_type(world, joint_id, JointType::Motor);
    if let JointPayload::Motor(mut p) = sim.payload {
        p.angular_hertz = hertz;
        set_joint_payload(world, joint_id, JointPayload::Motor(p));
    }
}

/// The angular spring stiffness in hertz, as a bit pattern.
pub fn motor_joint_get_angular_hertz(world: &World, joint_id: JointId) -> (r: u32)
    requires
        world.wf(),
        !world.locked,
        world.valid_joint_id(joint_id),
        joint_of(world, joint_id).type_ == JointType::Motor,
    ensures
        r == motor_of(world, joint_id).angular_hertz,
{
    let sim = get_joint_sim_check_type(world, joint_id, JointType::Motor);
    match sim.payload {
        JointPayload::Motor(p) => p.angular_hertz,
        _ => vstd::pervasive::unreached(),
    }
}

/// Set the angular spring damping ratio, as a bit pattern.
pub fn motor_joint_set_angular_damping_ratio(world: &mut World, joint_id: JointId, damping: u32)
    requires
        old(world).wf(),
        !old(world).locked,
        old(world).valid_joint_id(joint_id),
        joint_of(old(world), joint_id).type_ == JointType::Motor,
    ensures
        recorded(old(world).recording, final(world).recording, OP_MOTOR_SET_ANGULAR_DAMPING_RATIO,
            id64_bytes(joint_id.index1, joint_id.world0, joint_id.generation) + u32_bytes(damping)),
        payload_replaced(old(world), final(world), joint_id,
            JointPayload::Motor(MotorJoint { angular_damping_ratio: damping, ..motor_of(old(world), joint_id) })),
        final(world).wf(),
{
    if let Some(mut rec) = world.recording.take() {
        write_joint_f32(&mut rec, OP_MOTOR_SET_ANGULAR_DAMPING_RATIO, joint_id, damping);
        world.recording = Some(rec);
    }
    let sim = get_joint_sim_check_type(world, joint_id, JointType::Motor);
    if let JointPayload::Motor(mut p) = sim.payload {
        p.angular_damping_ratio = damping;
        set_joint_payload(world, joint_id, JointPayload::Motor(p));
    }
}

/// The angular spring damping ratio, as a bit pattern.
pub fn motor_joint_get_angular_damping_ratio(world: &World, joint_id: JointId) -> (r: u32)
    requires
        world.wf(),
        !world.locked,
        world.valid_joint_id(joint_id),
        joint_of(world, joint_id).type_ == JointType::Motor,
    ensures
        r == motor_of(world, joint_id).angular_damping_ratio,
{
    let sim = get_joint_sim_check_type(world, joint_id, JointType::Motor);
    match sim.payload {
        JointPayload::Motor(p) => p.angular_damping_ratio,
        _ => vstd::pervasive::unreached(),
    }
}

/// Set the largest force the linear spring may apply, as a bit pattern.
pub fn motor_joint_set_max_spring_force(world: &mut World, joint_id: JointId, max_force: u32)
    requires
        old(world).wf(),
        !old(world).locked,
        old(world).valid_joint_id(joint_id),
        joint_of(old(world), joint_id).type_ == JointType::Motor,
    ensures
        recorded(old(world).recording, final(world).recording, OP_MOTOR_SET_MAX_SPRING_FORCE,
            id64_bytes(joint_id.index1, joint_id.world0, joint_id.generation) + u32_bytes(max_force)),
        payload_replaced(old(world), final(world), joint_id,
            JointPayload::Motor(MotorJoint { max_spring_force: max_force, ..motor_of(old(world), joint_id) })),
        final(world).wf(),
{
    if let Some(mut rec) = world.recording.take() {
        write_joint_f32(&mut rec, OP_MOTOR_SET_MAX_SPRING_FORCE, joint_id, max_force);
        world.recording = Some(rec);
    }
    let sim = get_joint_sim_check_type(world, joint_id, JointType::Motor);
    if let JointPayload::Motor(mut p) = sim.payload {
        p.max_spring_force = max_force;
        set_joint_payload(world, joint_id, JointPayload::Motor(p));
    }
}

/// The largest force the linear spring may apply, as a bit pattern.
pub fn motor_joint_get_max_spring_force(world: &World, joint_id: JointId) -> (r: u32)
    requires
        world.wf(),
        !world.locked,
        world.valid_joint_id(joint_id),
        joint_of(world, joint_id).type_ == JointType::Motor,
    ensures
        r == motor_of(world, joint_id).max_spring_force,
{
    let sim = get_joint_sim_check_type(world, joint_id, JointType::Motor);
    match sim.payload {
        JointPayload::Motor(p) => p.max_spring_force,
        _ => vstd::pervasive::unreached(),
    }
}

/// Set the largest torque the angular spring may apply, as a bit pattern.
pub fn motor_joint_set_max_spring_torque(world: &mut World, joint_id: JointId, max_torque: u32)
    requires
        old(world).wf(),
        !old(world).locked,
        old(world).valid_joint_id(joint_id),
        joint_of(old(world), joint_id).type_ == JointType::Motor,
    ensures
        recorded(old(world).recording, final(world).recording, OP_MOTOR_SET_MAX_SPRING_TORQUE,
            id64_bytes(joint_id.index1, joint_id.world0, joint_id.generation) + u32_bytes(max_torque)),
        payload_replaced(old(world), final(world), joint_id,
            JointPayload::Motor(MotorJoint { max_spring_torque: max_torque, ..motor_of(old(world), joint_id) })),
        final(world).wf(),
{
    if let Some(mut rec) = world.recording.take() {
        write_joint_f32(&mut rec, OP_MOTOR_SET_MAX_SPRING_TORQUE, joint_id, max_torque);
        world.recording = Some(rec);
    }
    let sim = get_joint_sim_check_type(world, joint_id, JointType::Motor);
    if let JointPayload::Motor(mut p) = sim.payload {
        p.max_spring_torque = max_torque;
        set_joint_payload(world, joint_id, JointPayload::Motor(p));
    }
}

/// The largest torque the angular spring may apply, as a bit pattern.
pub fn motor_joint_get_max_spring_torque(world: &World, joint_id: JointId) -> (r: u32)
    requires
        world.wf(),
        !world.locked,
        world.valid_joint_id(joint_id),
        joint_of(world, joint_id).type_ == JointType::Motor,
    ensures
        r == motor_of(world, joint_id).max_spring_torque,
{
    let sim = get_joint_sim_check_type(world, joint_id, JointType::Motor);
    match sim.payload {
        JointPayload::Motor(p) => p.max_spring_torque,
        _ => vstd::pervasive::unreached(),
    }
}

/// What a motor joint setter stores is what the getters then read, and
/// the joint stays a live motor joint under the same id.
pub proof fn law_motor_update_reads_back(world: World, next: World, joint_id: JointId, p: MotorJoint)
    requires
        world.wf(),
        world.valid_joint_id(joint_id),
        joint_of(&world, joint_id).type_ == JointType::Motor,
        payload_replaced(&world, &next, joint_id, JointPayload::Motor(p)),
    ensures
        next.valid_joint_id(joint_id),
        joint_of(&next, joint_id).type_ == JointType::Motor,
        motor_of(&next, joint_id) == p,
{
    law_joint_update_reads_back(world, next, joint_id, JointPayload::Motor(p));
}

} // verus!
