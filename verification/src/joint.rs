use vstd::prelude::*;
use crate::geometry::{Mat22, Transform, Vec2};
use crate::id::JointId;
use crate::snapshot_structs::Edge;
use crate::world::World;

verus! {

/// The kind of a joint.
#[derive(Clone, Copy, Debug, PartialEq, Eq, Structural)]
pub enum JointType {
    Distance,
    Filter,
    Motor,
    Prismatic,
    Revolute,
    Weld,
    Wheel,
}

/// The number a joint type travels as: its place in declaration order.
pub open spec fn joint_type_code(t: JointType) -> u8 {
    match t {
        JointType::Distance => 0,
        JointType::Filter => 1,
        JointType::Motor => 2,
        JointType::Prismatic => 3,
        JointType::Revolute => 4,
        JointType::Weld => 5,
        JointType::Wheel => 6,
    }
}

/// The joint type a byte stands for: 0 to 5 in declaration order, anything
/// else a wheel joint.
pub open spec fn joint_type_of(b: u8) -> JointType {
    if b == 0 {
        JointType::Distance
    } else if b == 1 {
        JointType::Filter
    } else if b == 2 {
        JointType::Motor
    } else if b == 3 {
        JointType::Prismatic
    } else if b == 4 {
        JointType::Revolute
    } else if b == 5 {
        JointType::Weld
    } else {
        JointType::Wheel
    }
}

impl JointType {
    /// The number this joint type travels as.
    pub fn code(&self) -> (c: u8)
        ensures
            c == joint_type_code(*self),
    {
        match self {
            JointType::Distance => 0,
            JointType::Filter => 1,
            JointType::Motor => 2,
            JointType::Prismatic => 3,
            JointType::Revolute => 4,
            JointType::Weld => 5,
            JointType::Wheel => 6,
        }
    }
}

/// The solver set of awake bodies; its joints live in the colors of the
/// constraint graph.
pub const AWAKE_SET: i32 = 2;

// The joint data below holds every real-valued quantity as its IEEE-754
// single precision bit pattern: this library stores, switches, records and
// serializes joints; the solver arithmetic on them lives elsewhere.

/// Soft constraint coefficients.
#[derive(Clone, Copy, Debug, PartialEq, Eq, Structural)]
pub struct Softness {
    pub bias_rate: u32,
    pub mass_scale: u32,
    pub impulse_scale: u32,
}

/// Distance joint state: length range, spring, motor and their impulses.
#[derive(Clone, Copy, Debug, PartialEq, Eq, Structural)]
pub struct DistanceJoint {
    pub length: u32,
    pub hertz: u32,
    pub damping_ratio: u32,
    pub lower_spring_force: u32,
    pub upper_spring_force: u32,
    pub min_length: u32,
    pub max_length: u32,
    pub max_motor_force: u32,
    pub motor_speed: u32,
    pub impulse: u32,
    pub lower_impulse: u32,
    pub upper_impulse: u32,
    pub motor_impulse: u32,
    pub index_a: i32,
    pub index_b: i32,
    pub anchor_a: Vec2,
    pub anchor_b: Vec2,
    pub delta_center: Vec2,
    pub distance_softness: Softness,
    pub axial_mass: u32,
    pub enable_spring: bool,
    pub enable_limit: bool,
    pub enable_motor: bool,
}

/// Motor joint state: target velocities, springs and their impulses.
#[derive(Clone, Copy, Debug, PartialEq, Eq, Structural)]
pub struct MotorJoint {
    pub linear_velocity: Vec2,
    pub max_velocity_force: u32,
    pub angular_velocity: u32,
    pub max_velocity_torque: u32,
    pub linear_hertz: u32,
    pub linear_damping_ratio: u32,
    pub max_spring_force: u32,
    pub angular_hertz: u32,
    pub angular_damping_ratio: u32,
    pub max_spring_torque: u32,
    pub linear_velocity_impulse: Vec2,
    pub angular_velocity_impulse: u32,
    pub linear_spring_impulse: Vec2,
    pub angular_spring_impulse: u32,
    pub linear_spring: Softness,
    pub angular_spring: Softness,
    pub index_a: i32,
    pub index_b: i32,
    pub frame_a: Transform,
    pub frame_b: Transform,
    pub delta_center: Vec2,
    pub linear_mass: Mat22,
    pub angular_mass: u32,
}

/// Prismatic joint state: axis, spring, translation limits, motor and impulses.
#[derive(Clone, Copy, Debug, PartialEq, Eq, Structural)]
pub struct PrismaticJoint {
    pub impulse: Vec2,
    pub spring_impulse: u32,
    pub motor_impulse: u32,
    pub lower_impulse: u32,
    pub upper_impulse: u32,
    pub hertz: u32,
    pub damping_ratio: u32,
    pub target_translation: u32,
    pub max_motor_force: u32,
    pub motor_speed: u32,
    pub lower_translation: u32,
    pub upper_translation: u32,
    pub index_a: i32,
    pub index_b: i32,
    pub frame_a: Transform,
    pub frame_b: Transform,
    pub delta_center: Vec2,
    pub spring_softness: Softness,
    pub enable_spring: bool,
    pub enable_limit: bool,
    pub enable_motor: bool,
}

/// Revolute joint state: spring, angle limits, motor and impulses.
#[derive(Clone, Copy, Debug, PartialEq, Eq, Structural)]
pub struct RevoluteJoint {
    pub linear_impulse: Vec2,
    pub spring_impulse: u32,
    pub motor_impulse: u32,
    pub lower_impulse: u32,
    pub upper_impulse: u32,
    pub hertz: u32,
    pub damping_ratio: u32,
    pub target_angle: u32,
    pub max_motor_torque: u32,
    pub motor_speed: u32,
    pub lower_angle: u32,
    pub upper_angle: u32,
    pub index_a: i32,
    pub index_b: i32,
    pub frame_a: Transform,
    pub frame_b: Transform,
    pub delta_center: Vec2,
    pub axial_mass: u32,
    pub spring_softness: Softness,
    pub enable_spring: bool,
    pub enable_motor: bool,
    pub enable_limit: bool,
}

/// Weld joint state: spring tuning and impulses.
#[derive(Clone, Copy, Debug, PartialEq, Eq, Structural)]
pub struct WeldJoint {
    pub linear_hertz: u32,
    pub linear_damping_ratio: u32,
    pub angular_hertz: u32,
    pub angular_damping_ratio: u32,
    pub linear_spring: Softness,
    pub angular_spring: Softness,
    pub linear_impulse: Vec2,
    pub angular_impulse: u32,
    pub index_a: i32,
    pub index_b: i32,
    pub frame_a: Transform,
    pub frame_b: Transform,
    pub delta_center: Vec2,
    pub axial_mass: u32,
}

/// Wheel joint state: suspension spring, translation limits, motor and impulses.
#[derive(Clone, Copy, Debug, PartialEq, Eq, Structural)]
pub struct WheelJoint {
    pub perp_impulse: u32,
    pub motor_impulse: u32,
    pub spring_impulse: u32,
    pub lower_impulse: u32,
    pub upper_impulse: u32,
    pub max_motor_torque: u32,
    pub motor_speed: u32,
    pub lower_translation: u32,
    pub upper_translation: u32,
    pub hertz: u32,
    pub damping_ratio: u32,
    pub index_a: i32,
    pub index_b: i32,
    pub frame_a: Transform,
    pub frame_b: Transform,
    pub delta_center: Vec2,
    pub perp_mass: u32,
    pub motor_mass: u32,
    pub axial_mass: u32,
    pub spring_softness: Softness,
    pub enable_spring: bool,
    pub enable_motor: bool,
    pub enable_limit: bool,
}

/// The data only one type of joint has.
#[derive(Clone, Copy, Debug, PartialEq, Eq, Structural)]
pub enum JointPayload {
    Distance(DistanceJoint),
    Filter,
    Motor(MotorJoint),
    Prismatic(PrismaticJoint),
    Revolute(RevoluteJoint),
    Weld(WeldJoint),
    Wheel(WheelJoint),
}

/// The joint type a payload belongs to.
pub open spec fn payload_type(p: JointPayload) -> JointType {
    match p {
        JointPayload::Distance(_) => JointType::Distance,
        JointPayload::Filter => JointType::Filter,
        JointPayload::Motor(_) => JointType::Motor,
        JointPayload::Prismatic(_) => JointType::Prismatic,
        JointPayload::Revolute(_) => JointType::Revolute,
        JointPayload::Weld(_) => JointType::Weld,
        JointPayload::Wheel(_) => JointType::Wheel,
    }
}

/// The solver's data of a joint.
#[derive(Clone, Copy, Debug, PartialEq, Eq, Structural)]
pub struct JointSim {
    pub joint_id: i32,
    pub body_id_a: i32,
    pub body_id_b: i32,
    pub local_frame_a: Transform,
    pub local_frame_b: Transform,
    pub inv_mass_a: u32,
    pub inv_mass_b: u32,
    pub inv_i_a: u32,
    pub inv_i_b: u32,
    pub constraint_hertz: u32,
    pub constraint_damping_ratio: u32,
    pub constraint_softness: Softness,
    pub force_threshold: u32,
    pub torque_threshold: u32,
    pub payload: JointPayload,
}

/// A joint slot of the world: identity, where its solver data lives, its
/// links into the two bodies' joint lists, and its island.
#[derive(Clone, Copy, Debug)]
pub struct Joint {
    pub user_data: u64,
    pub set_index: i32,
    pub color_index: i32,
    pub local_index: i32,
    pub edges: [Edge; 2],
    /// Its own index, or `NULL_INDEX` when the slot is free.
    pub joint_id: i32,
    pub island_id: i32,
    pub island_index: i32,
    pub draw_scale: u32,
    pub type_: JointType,
    pub generation: u16,
    pub collide_connected: bool,
}

/// The joint an id names.
pub open spec fn joint_of(world: &World, id: JointId) -> Joint {
    world.joints@[id.index1 - 1]
}

/// The solver data of the joint an id names.
pub open spec fn joint_sim_of(world: &World, id: JointId) -> JointSim {
    world.sim_of(joint_of(world, id))
}

/// `new` is `old` with the type-specific data of the joint `id` names
/// replaced by `payload`; every other field of that joint's solver data,
/// every other solver datum and the rest of the world are kept.
pub open spec fn payload_replaced(old: &World, new: &World, id: JointId, payload: JointPayload) -> bool {
    &&& new.sim_stored(old, joint_of(old, id), JointSim { payload: payload, ..joint_sim_of(old, id) })
    &&& new.same_but_sims(old)
}

/// Validate a joint id of a live joint of the given type, while the world
/// is not stepping, and return the joint's index.
pub fn get_joint_check_type(world: &World, joint_id: JointId, joint_type: JointType) -> (index: i32)
    requires
        !world.locked,
        world.valid_joint_id(joint_id),
        joint_of(world, joint_id).type_ == joint_type,
    ensures
        index == joint_id.index1 - 1,
{
    joint_id.index1 - 1
}

/// The solver data of a live joint, from the constraint graph color that
/// holds it when awake, from its solver set otherwise.
pub fn get_joint_sim(world: &World, joint: &Joint) -> (sim: JointSim)
    requires
        world.joint_sim_ok(*joint),
    ensures
        sim == world.sim_of(*joint),
{
    if joint.set_index == AWAKE_SET {
        world.graph_colors[joint.color_index as usize].joint_sims[joint.local_index as usize]
    } else {
        world.solver_sets[joint.set_index as usize].joint_sims[joint.local_index as usize]
    }
}

/// The solver data of a live joint of the given type, while the world is
/// not stepping.
pub fn get_joint_sim_check_type(world: &World, joint_id: JointId, joint_type: JointType) -> (sim: JointSim)
    requires
        world.wf(),
        !world.locked,
        world.valid_joint_id(joint_id),
        joint_of(world, joint_id).type_ == joint_type,
    ensures
        sim == joint_sim_of(world, joint_id),
        payload_type(sim.payload) == joint_type,
{
    let index = get_joint_check_type(world, joint_id, joint_type);
    proof {
        assert(world.joints@[index as int].joint_id == index);
    }
    get_joint_sim(world, &world.joints[index as usize])
}

/// Replace the type-specific data of a live joint, keeping the rest of its
/// solver data; the shared tail of the joint setters.
pub fn set_joint_payload(world: &mut World, joint_id: JointId, payload: JointPayload)
    requires
        old(world).wf(),
        !old(world).locked,
        old(world).valid_joint_id(joint_id),
        payload_type(payload) == joint_of(old(world), joint_id).type_,
    ensures
        payload_replaced(old(world), final(world), joint_id, payload),
        final(world).recording == old(world).recording,
        final(world).wf(),
{
    let index = get_joint_check_type(world, joint_id, payload_type_of(&payload));
    let joint = world.joints[index as usize];
    proof {
        assert(world.joints@[index as int].joint_id == index);
    }
    let mut sim = get_joint_sim(world, &joint);
    sim.payload = payload;
    let ghost before = *world;
    if joint.set_index == AWAKE_SET {
        world.graph_colors[joint.color_index as usize].joint_sims.set(joint.local_index as usize, sim);
    } else {
        world.solver_sets[joint.set_index as usize].joint_sims.set(joint.local_index as usize, sim);
    }
    proof {
        crate::world::lemma_store_keeps_wf(&before, &*world, joint, sim);
    }
}

/// The joint type of a payload, as a value.
fn payload_type_of(p: &JointPayload) -> (t: JointType)
    ensures
        t == payload_type(*p),
{
    match p {
        JointPayload::Distance(_) => JointType::Distance,
        JointPayload::Filter => JointType::Filter,
        JointPayload::Motor(_) => JointType::Motor,
        JointPayload::Prismatic(_) => JointType::Prismatic,
        JointPayload::Revolute(_) => JointType::Revolute,
        JointPayload::Weld(_) => JointType::Weld,
        JointPayload::Wheel(_) => JointType::Wheel,
    }
}

/// A joint whose type-specific data was replaced through the API stays a
/// live joint of the same type under the same id, its solver data reads
/// back as set, and every other joint keeps its solver data.
pub proof fn law_joint_update_reads_back(world: World, next: World, joint_id: JointId, payload: JointPayload)
    requires
        world.wf(),
        world.valid_joint_id(joint_id),
        payload_type(payload) == joint_of(&world, joint_id).type_,
        payload_replaced(&world, &next, joint_id, payload),
    ensures
        next.valid_joint_id(joint_id),
        joint_of(&next, joint_id) == joint_of(&world, joint_id),
        joint_sim_of(&next, joint_id) == (JointSim { payload: payload, ..joint_sim_of(&world, joint_id) }),
        forall|k: int| 0 <= k < world.joints@.len() && world.joints@[k].joint_id == k && k != joint_id.index1 - 1
            ==> next.sim_of(#[trigger] world.joints@[k]) == world.sim_of(world.joints@[k]),
{
    let j = joint_of(&world, joint_id);
    let i = joint_id.index1 - 1;
    assert(world.joints@[i].joint_id == i);
    assert forall|k: int| 0 <= k < world.joints@.len() && world.joints@[k].joint_id == k && k != i
        implies next.sim_of(#[trigger] world.joints@[k]) == world.sim_of(world.joints@[k]) by {
        let o = world.joints@[k];
        assert(world.joint_sim_ok(o));
        assert(world.sim_of(o).joint_id == k);
        if o.set_index == AWAKE_SET {
            assert(next.graph_colors@[o.color_index as int].joint_sims@ == (if j.set_index == AWAKE_SET && o.color_index == j.color_index {
                world.graph_colors@[o.color_index as int].joint_sims@.update(j.local_index as int, JointSim { payload: payload, ..joint_sim_of(&world, joint_id) })
            } else {
                world.graph_colors@[o.color_index as int].joint_sims@
            }));
        } else {
            assert(next.solver_sets@[o.set_index as int].joint_sims@ == (if j.set_index != AWAKE_SET && o.set_index == j.set_index {
                world.solver_sets@[o.set_index as int].joint_sims@.update(j.local_index as int, JointSim { payload: payload, ..joint_sim_of(&world, joint_id) })
            } else {
                world.solver_sets@[o.set_index as int].joint_sims@
            }));
        }
    }
    assert(world.joint_sim_ok(j));
    if j.set_index == AWAKE_SET {
        assert(next.graph_colors@[j.color_index as int].joint_sims@ == world.graph_colors@[j.color_index as int].joint_sims@.update(j.local_index as int, JointSim { payload: payload, ..joint_sim_of(&world, joint_id) }));
    } else {
        assert(next.solver_sets@[j.set_index as int].joint_sims@ == world.solver_sets@[j.set_index as int].joint_sims@.update(j.local_index as int, JointSim { payload: payload, ..joint_sim_of(&world, joint_id) }));
    }
}

} // verus!
