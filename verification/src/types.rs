use vstd::prelude::*;
use crate::geometry::{Pos, Rot, Transform, Vec2};
use crate::id::BodyId;

verus! {

/// Category bits a shape gets unless told otherwise.
pub const DEFAULT_CATEGORY_BITS: u64 = 1;

/// Mask bits a shape gets unless told otherwise: collide with everything.
pub const DEFAULT_MASK_BITS: u64 = 0xFFFF_FFFF_FFFF_FFFF;

/// Contact filtering data for a shape.
#[derive(Clone, Copy, Debug, PartialEq, Eq, Structural)]
pub struct Filter {
    /// The collision category bits of this shape.
    pub category_bits: u64,
    /// The categories this shape accepts for collision.
    pub mask_bits: u64,
    /// Shapes sharing a non-zero group always collide (positive) or never
    /// collide (negative), overriding the category and mask.
    pub group_index: i32,
}

/// Filtering data for world queries.
#[derive(Clone, Copy, Debug, PartialEq, Eq, Structural)]
pub struct QueryFilter {
    pub category_bits: u64,
    pub mask_bits: u64,
}

/// Degrees of freedom a body has locked.
#[derive(Clone, Copy, Debug, PartialEq, Eq, Structural)]
pub struct MotionLocks {
    pub linear_x: bool,
    pub linear_y: bool,
    pub angular_z: bool,
}

/// Counters reported by a tree traversal.
#[derive(Clone, Copy, Debug, PartialEq, Eq, Structural)]
pub struct TreeStats {
    pub node_visits: i32,
    pub leaf_visits: i32,
}

/// Surface material of a shape.
///
/// The four real-valued coefficients are held as their IEEE-754 single
/// precision bit patterns (`f32::to_bits`): the library only stores, copies
/// and serializes them, and the wire carries exactly these bits.
#[derive(Clone, Copy, Debug, PartialEq, Eq, Structural)]
pub struct SurfaceMaterial {
    pub friction: u32,
    pub restitution: u32,
    pub rolling_resistance: u32,
    pub tangent_speed: u32,
    pub user_material_id: u64,
    pub custom_color: u32,
}

/// How a body moves.
#[derive(Clone, Copy, Debug, PartialEq, Eq, Structural)]
pub enum BodyType {
    Static,
    Kinematic,
    Dynamic,
}

/// The number a body type travels as.
pub open spec fn body_type_code(t: BodyType) -> i32 {
    match t {
        BodyType::Static => 0,
        BodyType::Kinematic => 1,
        BodyType::Dynamic => 2,
    }
}

impl BodyType {
    /// The number this body type travels as.
    pub fn code(&self) -> (c: i32)
        ensures
            c == body_type_code(*self),
    {
        match self {
            BodyType::Static => 0,
            BodyType::Kinematic => 1,
            BodyType::Dynamic => 2,
        }
    }
}

/// The filter a shape definition starts with.
pub fn default_filter() -> (f: Filter)
    ensures
        f == (Filter { category_bits: DEFAULT_CATEGORY_BITS, mask_bits: DEFAULT_MASK_BITS, group_index: 0 }),
{
    Filter { category_bits: DEFAULT_CATEGORY_BITS, mask_bits: DEFAULT_MASK_BITS, group_index: 0 }
}

/// The filter a query starts with.
pub fn default_query_filter() -> (f: QueryFilter)
    ensures
        f == (QueryFilter { category_bits: DEFAULT_CATEGORY_BITS, mask_bits: DEFAULT_MASK_BITS }),
{
    QueryFilter { category_bits: DEFAULT_CATEGORY_BITS, mask_bits: DEFAULT_MASK_BITS }
}

// Definitions used to create bodies, shapes, chains and joints, as far as
// they travel in a recording. Real-valued fields are held as their IEEE-754
// single precision bit patterns; the application data pointer is kept as a
// number and never recorded.

/// Construction parameters of a body.
#[derive(Debug)]
pub struct BodyDef {
    pub type_: BodyType,
    pub position: Pos,
    pub rotation: Rot,
    pub linear_velocity: Vec2,
    pub angular_velocity: u32,
    pub linear_damping: u32,
    pub angular_damping: u32,
    pub gravity_scale: u32,
    pub sleep_threshold: u32,
    pub name: String,
    pub user_data: u64,
    pub motion_locks: MotionLocks,
    pub enable_sleep: bool,
    pub is_awake: bool,
    pub is_bullet: bool,
    pub is_enabled: bool,
    pub allow_fast_rotation: bool,
    pub enable_contact_recycling: bool,
}

/// A body definition as the contracts see it: its name as characters.
pub struct BodyDefView {
    pub type_: BodyType,
    pub position: Pos,
    pub rotation: Rot,
    pub linear_velocity: Vec2,
    pub angular_velocity: u32,
    pub linear_damping: u32,
    pub angular_damping: u32,
    pub gravity_scale: u32,
    pub sleep_threshold: u32,
    pub name: Seq<char>,
    pub user_data: u64,
    pub motion_locks: MotionLocks,
    pub enable_sleep: bool,
    pub is_awake: bool,
    pub is_bullet: bool,
    pub is_enabled: bool,
    pub allow_fast_rotation: bool,
    pub enable_contact_recycling: bool,
}

impl View for BodyDef {
    type V = BodyDefView;

    open spec fn view(&self) -> BodyDefView {
        BodyDefView {
            type_: self.type_,
            position: self.position,
            rotation: self.rotation,
            linear_velocity: self.linear_velocity,
            angular_velocity: self.angular_velocity,
            linear_damping: self.linear_damping,
            angular_damping: self.angular_damping,
            gravity_scale: self.gravity_scale,
            sleep_threshold: self.sleep_threshold,
            name: self.name@,
            user_data: self.user_data,
            motion_locks: self.motion_locks,
            enable_sleep: self.enable_sleep,
            is_awake: self.is_awake,
            is_bullet: self.is_bullet,
            is_enabled: self.is_enabled,
            allow_fast_rotation: self.allow_fast_rotation,
            enable_contact_recycling: self.enable_contact_recycling,
        }
    }
}

/// Construction parameters of a shape.
#[derive(Clone, Copy, Debug)]
pub struct ShapeDef {
    pub user_data: u64,
    pub material: SurfaceMaterial,
    pub density: u32,
    pub filter: Filter,
    pub enable_custom_filtering: bool,
    pub is_sensor: bool,
    pub enable_sensor_events: bool,
    pub enable_contact_events: bool,
    pub enable_hit_events: bool,
    pub enable_pre_solve_events: bool,
    pub invoke_contact_creation: bool,
    pub update_body_mass: bool,
}

/// Construction parameters of a chain.
#[derive(Debug)]
pub struct ChainDef {
    pub user_data: u64,
    pub points: Vec<Vec2>,
    pub materials: Vec<SurfaceMaterial>,
    pub filter: Filter,
    pub is_loop: bool,
    pub enable_sensor_events: bool,
}

/// Parameters every joint definition shares.
#[derive(Clone, Copy, Debug)]
pub struct JointDef {
    pub user_data: u64,
    pub body_id_a: BodyId,
    pub body_id_b: BodyId,
    pub local_frame_a: Transform,
    pub local_frame_b: Transform,
    pub force_threshold: u32,
    pub torque_threshold: u32,
    pub constraint_hertz: u32,
    pub constraint_damping_ratio: u32,
    pub draw_scale: u32,
    pub collide_connected: bool,
}

/// Construction parameters of a distance joint.
#[derive(Clone, Copy, Debug)]
pub struct DistanceJointDef {
    pub base: JointDef,
    pub length: u32,
    pub enable_spring: bool,
    pub lower_spring_force: u32,
    pub upper_spring_force: u32,
    pub hertz: u32,
    pub damping_ratio: u32,
    pub enable_limit: bool,
    pub min_length: u32,
    pub max_length: u32,
    pub enable_motor: bool,
    pub max_motor_force: u32,
    pub motor_speed: u32,
}

/// Construction parameters of a motor joint.
#[derive(Clone, Copy, Debug)]
pub struct MotorJointDef {
    pub base: JointDef,
    pub linear_velocity: Vec2,
    pub max_velocity_force: u32,
    pub angular_velocity: u32,
    pub max_velocity_torque: u32,
    pub linear_hertz: u32,
    pub linear_damping_ratio: u32,
    pub max_spring_force: u32,
    pub angular_hertz: u32,
    pub angular_damping_ratio: u32,
    pub max_spring_torque: u32,
}

/// Construction parameters of a filter joint: the shared part alone.
#[derive(Clone, Copy, Debug)]
pub struct FilterJointDef {
    pub base: JointDef,
}

/// Construction parameters of a prismatic joint.
#[derive(Clone, Copy, Debug)]
pub struct PrismaticJointDef {
    pub base: JointDef,
    pub enable_spring: bool,
    pub hertz: u32,
    pub damping_ratio: u32,
    pub target_translation: u32,
    pub enable_limit: bool,
    pub lower_translation: u32,
    pub upper_translation: u32,
    pub enable_motor: bool,
    pub max_motor_force: u32,
    pub motor_speed: u32,
}

/// Construction parameters of a revolute joint.
#[derive(Clone, Copy, Debug)]
pub struct RevoluteJointDef {
    pub base: JointDef,
    pub target_angle: u32,
    pub enable_spring: bool,
    pub hertz: u32,
    pub damping_ratio: u32,
    pub enable_limit: bool,
    pub lower_angle: u32,
    pub upper_angle: u32,
    pub enable_motor: bool,
    pub max_motor_torque: u32,
    pub motor_speed: u32,
}

/// Construction parameters of a weld joint.
#[derive(Clone, Copy, Debug)]
pub struct WeldJointDef {
    pub base: JointDef,
    pub linear_hertz: u32,
    pub angular_hertz: u32,
    pub linear_damping_ratio: u32,
    pub angular_damping_ratio: u32,
}

/// Construction parameters of a wheel joint.
#[derive(Clone, Copy, Debug)]
pub struct WheelJointDef {
    pub base: JointDef,
    pub enable_spring: bool,
    pub hertz: u32,
    pub damping_ratio: u32,
    pub enable_limit: bool,
    pub lower_translation: u32,
    pub upper_translation: u32,
    pub enable_motor: bool,
    pub max_motor_torque: u32,
    pub motor_speed: u32,
}

/// Parameters of an explosion.
#[derive(Clone, Copy, Debug)]
pub struct ExplosionDef {
    pub mask_bits: u64,
    pub position: Pos,
    pub radius: u32,
    pub falloff: u32,
    pub impulse_per_length: u32,
}

} // verus!
