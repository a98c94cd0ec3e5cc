use vstd::prelude::*;
use crate::id::JointId;
use crate::joint::{joint_of, payload_replaced, JointPayload, JointType, MotorJoint, PrismaticJoint, RevoluteJoint};
use crate::recording::joint_ops::JointCommand;
use crate::recording::ops::{OP_MOTOR_SET_ANGULAR_DAMPING_RATIO, OP_MOTOR_SET_ANGULAR_HERTZ, OP_MOTOR_SET_ANGULAR_VELOCITY, OP_MOTOR_SET_LINEAR_DAMPING_RATIO, OP_MOTOR_SET_LINEAR_HERTZ, OP_MOTOR_SET_LINEAR_VELOCITY, OP_MOTOR_SET_MAX_SPRING_FORCE, OP_MOTOR_SET_MAX_SPRING_TORQUE, OP_MOTOR_SET_MAX_VELOCITY_FORCE, OP_MOTOR_SET_MAX_VELOCITY_TORQUE, OP_PRISMATIC_ENABLE_LIMIT, OP_PRISMATIC_ENABLE_MOTOR, OP_PRISMATIC_ENABLE_SPRING, OP_PRISMATIC_SET_MAX_MOTOR_FORCE, OP_PRISMATIC_SET_MOTOR_SPEED, OP_PRISMATIC_SET_SPRING_DAMPING_RATIO, OP_PRISMATIC_SET_SPRING_HERTZ, OP_PRISMATIC_SET_TARGET_TRANSLATION, OP_REVOLUTE_ENABLE_LIMIT, OP_REVOLUTE_ENABLE_MOTOR, OP_REVOLUTE_ENABLE_SPRING, OP_REVOLUTE_SET_MAX_MOTOR_TORQUE, OP_REVOLUTE_SET_MOTOR_SPEED, OP_REVOLUTE_SET_SPRING_DAMPING_RATIO, OP_REVOLUTE_SET_SPRING_HERTZ, OP_REVOLUTE_SET_TARGET_ANGLE};
use crate::world::World;
use crate::prismatic_joint::{prismatic_joint_enable_limit, prismatic_joint_enable_motor, prismatic_joint_enable_spring, prismatic_joint_set_max_motor_force, prismatic_joint_set_motor_speed, prismatic_joint_set_spring_damping_ratio, prismatic_joint_set_spring_hertz, prismatic_joint_set_target_translation, prismatic_of, prismatic_with_limit, prismatic_with_motor, prismatic_with_spring};
use crate::revolute_joint::{revolute_joint_enable_limit, revolute_joint_enable_motor, revolute_joint_enable_spring, revolute_joint_set_max_motor_torque, revolute_joint_set_motor_speed, revolute_joint_set_spring_damping_ratio, revolute_joint_set_spring_hertz, revolute_joint_set_target_angle, revolute_of, revolute_with_limit, revolute_with_motor, revolute_with_spring};
use crate::motor_joint::{motor_joint_set_angular_damping_ratio, motor_joint_set_angular_hertz, motor_joint_set_angular_velocity, motor_joint_set_linear_damping_ratio, motor_joint_set_linear_hertz, motor_joint_set_linear_velocity, motor_joint_set_max_spring_force, motor_joint_set_max_spring_torque, motor_joint_set_max_velocity_force, motor_joint_set_max_velocity_torque, motor_of};

verus! {

// Performing a replayed joint call on the world, for the joint setters
// this library holds: the spring, limit and motor switches and the real
// parameters of prismatic and revolute joints, and the velocities,
// tuning and limits of motor joints.

/// The joint type a joint setter call needs, when it is one this library
/// performs.
pub open spec fn joint_call_type(cmd: JointCommand) -> Option<JointType> {
    match cmd {
        JointCommand::Flag { opcode, .. } => {
            if opcode == OP_PRISMATIC_ENABLE_SPRING || opcode == OP_PRISMATIC_ENABLE_LIMIT || opcode == OP_PRISMATIC_ENABLE_MOTOR {
                Some(JointType::Prismatic)
            } else if opcode == OP_REVOLUTE_ENABLE_SPRING || opcode == OP_REVOLUTE_ENABLE_LIMIT || opcode == OP_REVOLUTE_ENABLE_MOTOR {
                Some(JointType::Revolute)
            } else {
                None
            }
        },
        JointCommand::Real { opcode, .. } => {
            if opcode == OP_PRISMATIC_SET_SPRING_HERTZ || opcode == OP_PRISMATIC_SET_SPRING_DAMPING_RATIO || opcode == OP_PRISMATIC_SET_TARGET_TRANSLATION || opcode == OP_PRISMATIC_SET_MOTOR_SPEED || opcode == OP_PRISMATIC_SET_MAX_MOTOR_FORCE {
                Some(JointType::Prismatic)
            } else if opcode == OP_REVOLUTE_SET_SPRING_HERTZ || opcode == OP_REVOLUTE_SET_SPRING_DAMPING_RATIO || opcode == OP_REVOLUTE_SET_TARGET_ANGLE || opcode == OP_REVOLUTE_SET_MOTOR_SPEED || opcode == OP_REVOLUTE_SET_MAX_MOTOR_TORQUE {
                Some(JointType::Revolute)
            } else if opcode == OP_MOTOR_SET_ANGULAR_VELOCITY || opcode == OP_MOTOR_SET_MAX_VELOCITY_TORQUE || opcode == OP_MOTOR_SET_MAX_VELOCITY_FORCE || opcode == OP_MOTOR_SET_LINEAR_HERTZ || opcode == OP_MOTOR_SET_LINEAR_DAMPING_RATIO || opcode == OP_MOTOR_SET_ANGULAR_HERTZ || opcode == OP_MOTOR_SET_ANGULAR_DAMPING_RATIO || opcode == OP_MOTOR_SET_MAX_SPRING_FORCE || opcode == OP_MOTOR_SET_MAX_SPRING_TORQUE {
                Some(JointType::Motor)
            } else {
                None
            }
        },
        JointCommand::Vector { opcode, .. } => {
            if opcode == OP_MOTOR_SET_LINEAR_VELOCITY {
                Some(JointType::Motor)
            } else {
                None
            }
        },
        _ => None,
    }
}

fn joint_call_type_of(cmd: &JointCommand) -> (t: Option<JointType>)
    ensures
        t == joint_call_type(*cmd),
{
    match *cmd {
        JointCommand::Flag { opcode, .. } => {
            if opcode == OP_PRISMATIC_ENABLE_SPRING || opcode == OP_PRISMATIC_ENABLE_LIMIT || opcode == OP_PRISMATIC_ENABLE_MOTOR {
                Some(JointType::Prismatic)
            } else if opcode == OP_REVOLUTE_ENABLE_SPRING || opcode == OP_REVOLUTE_ENABLE_LIMIT || opcode == OP_REVOLUTE_ENABLE_MOTOR {
                Some(JointType::Revolute)
            } else {
                None
            }
        },
        JointCommand::Real { opcode, .. } => {
            if opcode == OP_PRISMATIC_SET_SPRING_HERTZ || opcode == OP_PRISMATIC_SET_SPRING_DAMPING_RATIO || opcode == OP_PRISMATIC_SET_TARGET_TRANSLATION || opcode == OP_PRISMATIC_SET_MOTOR_SPEED || opcode == OP_PRISMATIC_SET_MAX_MOTOR_FORCE {
                Some(JointType::Prismatic)
            } else if opcode == OP_REVOLUTE_SET_SPRING_HERTZ || opcode == OP_REVOLUTE_SET_SPRING_DAMPING_RATIO || opcode == OP_REVOLUTE_SET_TARGET_ANGLE || opcode == OP_REVOLUTE_SET_MOTOR_SPEED || opcode == OP_REVOLUTE_SET_MAX_MOTOR_TORQUE {
                Some(JointType::Revolute)
            } else if opcode == OP_MOTOR_SET_ANGULAR_VELOCITY || opcode == OP_MOTOR_SET_MAX_VELOCITY_TORQUE || opcode == OP_MOTOR_SET_MAX_VELOCITY_FORCE || opcode == OP_MOTOR_SET_LINEAR_HERTZ || opcode == OP_MOTOR_SET_LINEAR_DAMPING_RATIO || opcode == OP_MOTOR_SET_ANGULAR_HERTZ || opcode == OP_MOTOR_SET_ANGULAR_DAMPING_RATIO || opcode == OP_MOTOR_SET_MAX_SPRING_FORCE || opcode == OP_MOTOR_SET_MAX_SPRING_TORQUE {
                Some(JointType::Motor)
            } else {
                None
            }
        },
        JointCommand::Vector { opcode, .. } => {
            if opcode == OP_MOTOR_SET_LINEAR_VELOCITY {
                Some(JointType::Motor)
            } else {
                None
            }
        },
        _ => None,
    }
}

/// The joint a setter call names.
pub open spec fn joint_call_target(cmd: JointCommand) -> JointId {
    match cmd {
        JointCommand::Flag { joint, .. } => joint,
        JointCommand::Real { joint, .. } => joint,
        JointCommand::Vector { joint, .. } => joint,
        JointCommand::Destroy { joint, .. } => joint,
        JointCommand::SetFrame { joint, .. } => joint,
        JointCommand::Marker { joint, .. } => joint,
        JointCommand::RealPair { joint, .. } => joint,
        JointCommand::Create { id, .. } => id,
    }
}

/// Whether `apply_joint_command` performs a recorded joint call on this
/// world: a setter this library holds, on a live joint of its type.
pub open spec fn joint_call_performed(w: World, cmd: JointCommand) -> bool {
    &&& joint_call_type(cmd) is Some
    &&& w.valid_joint_id(joint_call_target(cmd))
    &&& joint_of(&w, joint_call_target(cmd)).type_ == joint_call_type(cmd)->0
}

/// The type-specific data a performed joint setter stores, from the
/// world before it.
pub open spec fn joint_call_payload(w: World, cmd: JointCommand) -> JointPayload {
    match cmd {
        JointCommand::Flag { opcode, joint, flag } => {
            if opcode == OP_PRISMATIC_ENABLE_SPRING {
                JointPayload::Prismatic(prismatic_with_spring(prismatic_of(&w, joint), flag))
            } else if opcode == OP_PRISMATIC_ENABLE_LIMIT {
                JointPayload::Prismatic(prismatic_with_limit(prismatic_of(&w, joint), flag))
            } else if opcode == OP_PRISMATIC_ENABLE_MOTOR {
                JointPayload::Prismatic(prismatic_with_motor(prismatic_of(&w, joint), flag))
            } else if opcode == OP_REVOLUTE_ENABLE_SPRING {
                JointPayload::Revolute(revolute_with_spring(revolute_of(&w, joint), flag))
            } else if opcode == OP_REVOLUTE_ENABLE_LIMIT {
                JointPayload::Revolute(revolute_with_limit(revolute_of(&w, joint), flag))
            } else if opcode == OP_REVOLUTE_ENABLE_MOTOR {
                JointPayload::Revolute(revolute_with_motor(revolute_of(&w, joint), flag))
            } else {
                JointPayload::Filter
            }
        },
        JointCommand::Real { opcode, joint, value } => {
            if opcode == OP_PRISMATIC_SET_SPRING_HERTZ {
                JointPayload::Prismatic(PrismaticJoint { hertz: value, ..prismatic_of(&w, joint) })
            } else if opcode == OP_PRISMATIC_SET_SPRING_DAMPING_RATIO {
                JointPayload::Prismatic(PrismaticJoint { damping_ratio: value, ..prismatic_of(&w, joint) })
            } else if opcode == OP_PRISMATIC_SET_TARGET_TRANSLATION {
                JointPayload::Prismatic(PrismaticJoint { target_translation: value, ..prismatic_of(&w, joint) })
            } else if opcode == OP_PRISMATIC_SET_MOTOR_SPEED {
                JointPayload::Prismatic(PrismaticJoint { motor_speed: value, ..prismatic_of(&w, joint) })
            } else if opcode == OP_PRISMATIC_SET_MAX_MOTOR_FORCE {
                JointPayload::Prismatic(PrismaticJoint { max_motor_force: value, ..prismatic_of(&w, joint) })
            } else if opcode == OP_REVOLUTE_SET_SPRING_HERTZ {
                JointPayload::Revolute(RevoluteJoint { hertz: value, ..revolute_of(&w, joint) })
            } else if opcode == OP_REVOLUTE_SET_SPRING_DAMPING_RATIO {
                JointPayload::Revolute(RevoluteJoint { damping_ratio: value, ..revolute_of(&w, joint) })
            } else if opcode == OP_REVOLUTE_SET_TARGET_ANGLE {
                JointPayload::Revolute(RevoluteJoint { target_angle: value, ..revolute_of(&w, joint) })
            } else if opcode == OP_REVOLUTE_SET_MOTOR_SPEED {
                JointPayload::Revolute(RevoluteJoint { motor_speed: value, ..revolute_of(&w, joint) })
            } else if opcode == OP_REVOLUTE_SET_MAX_MOTOR_TORQUE {
                JointPayload::Revolute(RevoluteJoint { max_motor_torque: value, ..revolute_of(&w, joint) })
            } else if opcode == OP_MOTOR_SET_ANGULAR_VELOCITY {
                JointPayload::Motor(MotorJoint { angular_velocity: value, ..motor_of(&w, joint) })
            } else if opcode == OP_MOTOR_SET_MAX_VELOCITY_TORQUE {
                JointPayload::Motor(MotorJoint { max_velocity_torque: value, ..motor_of(&w, joint) })
            } else if opcode == OP_MOTOR_SET_MAX_VELOCITY_FORCE {
                JointPayload::Motor(MotorJoint { max_velocity_force: value, ..motor_of(&w, joint) })
            } else if opcode == OP_MOTOR_SET_LINEAR_HERTZ {
                JointPayload::Motor(MotorJoint { linear_hertz: value, ..motor_of(&w, joint) })
            } else if opcode == OP_MOTOR_SET_LINEAR_DAMPING_RATIO {
                JointPayload::Motor(MotorJoint { linear_damping_ratio: value, ..motor_of(&w, joint) })
            } else if opcode == OP_MOTOR_SET_ANGULAR_HERTZ {
                JointPayload::Motor(MotorJoint { angular_hertz: value, ..motor_of(&w, joint) })
            } else if opcode == OP_MOTOR_SET_ANGULAR_DAMPING_RATIO {
                JointPayload::Motor(MotorJoint { angular_damping_ratio: value, ..motor_of(&w, joint) })
            } else if opcode == OP_MOTOR_SET_MAX_SPRING_FORCE {
                JointPayload::Motor(MotorJoint { max_spring_force: value, ..motor_of(&w, joint) })
            } else if opcode == OP_MOTOR_SET_MAX_SPRING_TORQUE {
                JointPayload::Motor(MotorJoint { max_spring_torque: value, ..motor_of(&w, joint) })
            } else {
                JointPayload::Filter
            }
        },
        JointCommand::Vector { opcode, joint, v } => {
            if opcode == OP_MOTOR_SET_LINEAR_VELOCITY {
                JointPayload::Motor(MotorJoint { linear_velocity: v, ..motor_of(&w, joint) })
            } else {
                JointPayload::Filter
            }
        },
        _ => JointPayload::Filter,
    }
}

fn joint_live(world: &World, id: JointId) -> (r: bool)
    requires
        world.wf(),
    ensures
        r == world.valid_joint_id(id),
{
    if id.index1 < 1 {
        return false;
    }
    let i = (id.index1 - 1) as usize;
    if i >= world.joints.len() {
        return false;
    }
    world.joints[i].joint_id == i as i32 && world.joints[i].generation == id.generation
}

/// Perform a replayed joint call on the world. Gives `true` when the call
/// is a setter this library holds, on a live joint of its type, and
/// stores the joint's new type-specific data as `joint_call_payload`
/// says, the world otherwise as the setter leaves it. Otherwise the world
/// is left as it was and the answer is `false` (creation, removal,
/// frames, limits and tuning are the world's own work).
pub fn apply_joint_command(world: &mut World, cmd: &JointCommand) -> (done: bool)
    requires
        old(world).wf(),
        !old(world).locked,
    ensures
        done == joint_call_performed(*old(world), *cmd),
        !done ==> *final(world) == *old(world),
        done ==> payload_replaced(old(world), final(world), joint_call_target(*cmd), joint_call_payload(*old(world), *cmd)),
        done ==> final(world).wf(),
{
    let ty = match joint_call_type_of(cmd) {
        Some(t) => t,
        None => return false,
    };
    let joint = match *cmd {
        JointCommand::Flag { joint, .. } => joint,
        JointCommand::Real { joint, .. } => joint,
        JointCommand::Vector { joint, .. } => joint,
        _ => return false,
    };
    if !joint_live(world, joint) {
        return false;
    }
    if world.joints[(joint.index1 - 1) as usize].type_ != ty {
        return false;
    }
    match *cmd {
        JointCommand::Flag { opcode, joint, flag } => {
            if opcode == OP_PRISMATIC_ENABLE_SPRING {
                prismatic_joint_enable_spring(world, joint, flag);
            } else if opcode == OP_PRISMATIC_ENABLE_LIMIT {
                prismatic_joint_enable_limit(world, joint, flag);
            } else if opcode == OP_PRISMATIC_ENABLE_MOTOR {
                prismatic_joint_enable_motor(world, joint, flag);
            } else if opcode == OP_REVOLUTE_ENABLE_SPRING {
                revolute_joint_enable_spring(world, joint, flag);
            } else if opcode == OP_REVOLUTE_ENABLE_LIMIT {
                revolute_joint_enable_limit(world, joint, flag);
            } else if opcode == OP_REVOLUTE_ENABLE_MOTOR {
                revolute_joint_enable_motor(world, joint, flag);
            }
        },
        JointCommand::Real { opcode, joint, value } => {
            if opcode == OP_PRISMATIC_SET_SPRING_HERTZ {
                prismatic_joint_set_spring_hertz(world, joint, value);
            } else if opcode == OP_PRISMATIC_SET_SPRING_DAMPING_RATIO {
                prismatic_joint_set_spring_damping_ratio(world, joint, value);
            } else if opcode == OP_PRISMATIC_SET_TARGET_TRANSLATION {
                prismatic_joint_set_target_translation(world, joint, value);
            } else if opcode == OP_PRISMATIC_SET_MOTOR_SPEED {
                prismatic_joint_set_motor_speed(world, joint, value);
            } else if opcode == OP_PRISMATIC_SET_MAX_MOTOR_FORCE {
                prismatic_joint_set_max_motor_force(world, joint, value);
            } else if opcode == OP_REVOLUTE_SET_SPRING_HERTZ {
                revolute_joint_set_spring_hertz(world, joint, value);
            } else if opcode == OP_REVOLUTE_SET_SPRING_DAMPING_RATIO {
                revolute_joint_set_spring_damping_ratio(world, joint, value);
            } else if opcode == OP_REVOLUTE_SET_TARGET_ANGLE {
                revolute_joint_set_target_angle(world, joint, value);
            } else if opcode == OP_REVOLUTE_SET_MOTOR_SPEED {
                revolute_joint_set_motor_speed(world, joint, value);
            } else if opcode == OP_REVOLUTE_SET_MAX_MOTOR_TORQUE {
                revolute_joint_set_max_motor_torque(world, joint, value);
            } else if opcode == OP_MOTOR_SET_ANGULAR_VELOCITY {
                motor_joint_set_angular_velocity(world, joint, value);
            } else if opcode == OP_MOTOR_SET_MAX_VELOCITY_TORQUE {
                motor_joint_set_max_velocity_torque(world, joint, value);
            } else if opcode == OP_MOTOR_SET_MAX_VELOCITY_FORCE {
                motor_joint_set_max_velocity_force(world, joint, value);
            } else if opcode == OP_MOTOR_SET_LINEAR_HERTZ {
                motor_joint_set_linear_hertz(world, joint, value);
            } else if opcode == OP_MOTOR_SET_LINEAR_DAMPING_RATIO {
                motor_joint_set_linear_damping_ratio(world, joint, value);
            } else if opcode == OP_MOTOR_SET_ANGULAR_HERTZ {
                motor_joint_set_angular_hertz(world, joint, value);
            } else if opcode == OP_MOTOR_SET_ANGULAR_DAMPING_RATIO {
                motor_joint_set_angular_damping_ratio(world, joint, value);
            } else if opcode == OP_MOTOR_SET_MAX_SPRING_FORCE {
                motor_joint_set_max_spring_force(world, joint, value);
            } else if opcode == OP_MOTOR_SET_MAX_SPRING_TORQUE {
                motor_joint_set_max_spring_torque(world, joint, value);
            }
        },
        JointCommand::Vector { opcode, joint, v } => {
            if opcode == OP_MOTOR_SET_LINEAR_VELOCITY {
                motor_joint_set_linear_velocity(world, joint, v);
            }
        },
        _ => {},
    }
    true
}

} // verus!
