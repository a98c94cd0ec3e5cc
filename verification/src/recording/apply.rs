use vstd::prelude::*;
use crate::chain::{chain_is_valid, chain_set_surface_material, takes_material};
use crate::recording::ops::{
    OP_SHAPE_ENABLE_CONTACT_EVENTS, OP_SHAPE_ENABLE_HIT_EVENTS, OP_SHAPE_ENABLE_PRE_SOLVE_EVENTS,
    OP_SHAPE_ENABLE_SENSOR_EVENTS, OP_SHAPE_SET_FRICTION, OP_SHAPE_SET_RESTITUTION,
};
use crate::recording::shape_ops::ShapeCommand;
use crate::scalar::nonneg_finite_bits;
use crate::shape::Shape;
use crate::shape_api::{
    shape_enable_contact_events, shape_enable_hit_events, shape_enable_pre_solve_events, shape_enable_sensor_events,
    shape_is_valid, shape_set_filter, shape_set_friction, shape_set_restitution, shape_set_surface_material,
    shape_set_user_material,
};
use crate::types::SurfaceMaterial;
use crate::world::World;

verus! {

// Performing a replayed shape or chain call on the world, for the calls
// whose world side this library holds: the material, filter and event
// setters of a shape and the surface material of a chain.

/// Whether a real of a shape is one its setter accepts: non-negative and
/// finite.
fn accepted_real(b: u32) -> (r: bool)
    ensures
        r == nonneg_finite_bits(b),
{
    b < 0x7F80_0000 || b == 0x8000_0000
}

/// Whether `apply_shape_command` performs a recorded call on this world:
/// a material, filter or event setter of a live shape, with a value its
/// setter accepts, or the surface material of a live chain at one of its
/// materials.
pub open spec fn shape_call_performed(w: World, cmd: ShapeCommand) -> bool {
    match cmd {
        ShapeCommand::SetReal { opcode, shape, value } => (opcode == OP_SHAPE_SET_FRICTION || opcode
            == OP_SHAPE_SET_RESTITUTION) && w.valid_shape_id(shape) && nonneg_finite_bits(value),
        ShapeCommand::SetUserMaterial { shape, .. } => w.valid_shape_id(shape),
        ShapeCommand::SetSurfaceMaterial { shape, .. } => w.valid_shape_id(shape),
        ShapeCommand::SetFilter { shape, .. } => w.valid_shape_id(shape),
        ShapeCommand::Enable { opcode, shape, .. } => (opcode == OP_SHAPE_ENABLE_SENSOR_EVENTS || opcode
            == OP_SHAPE_ENABLE_CONTACT_EVENTS || opcode == OP_SHAPE_ENABLE_PRE_SOLVE_EVENTS || opcode
            == OP_SHAPE_ENABLE_HIT_EVENTS) && w.valid_shape_id(shape),
        ShapeCommand::ChainSetSurfaceMaterial { chain, material_index, .. } => w.valid_chain_id(chain) && 0
            <= material_index < w.chain_shapes@[chain.index1 - 1].materials@.len(),
        _ => false,
    }
}

/// The shape a performed shape setter leaves, from the shape before it.
pub open spec fn shape_after_call(s: Shape, cmd: ShapeCommand) -> Shape {
    match cmd {
        ShapeCommand::SetReal { opcode, value, .. } => if opcode == OP_SHAPE_SET_FRICTION {
            Shape { material: SurfaceMaterial { friction: value, ..s.material }, ..s }
        } else {
            Shape { material: SurfaceMaterial { restitution: value, ..s.material }, ..s }
        },
        ShapeCommand::SetUserMaterial { material, .. } => Shape {
            material: SurfaceMaterial { user_material_id: material, ..s.material },
            ..s
        },
        ShapeCommand::SetSurfaceMaterial { material, .. } => Shape { material, ..s },
        ShapeCommand::SetFilter { filter, .. } => Shape { filter, ..s },
        ShapeCommand::Enable { opcode, flag, .. } => if opcode == OP_SHAPE_ENABLE_SENSOR_EVENTS {
            Shape { enable_sensor_events: flag, ..s }
        } else if opcode == OP_SHAPE_ENABLE_CONTACT_EVENTS {
            Shape { enable_contact_events: flag, ..s }
        } else if opcode == OP_SHAPE_ENABLE_PRE_SOLVE_EVENTS {
            Shape { enable_pre_solve_events: flag, ..s }
        } else {
            Shape { enable_hit_events: flag, ..s }
        },
        _ => s,
    }
}

/// Perform a replayed shape or chain call on the world. Gives `true` when
/// the call is one this library performs and it performed it: a shape
/// setter leaves the named shape as `shape_after_call` says and the rest
/// of the world's tables as they were; a chain's surface material goes to
/// that material slot and to the segments that take it. Otherwise the
/// world is left as it was and the answer is `false` (creation, removal,
/// density, geometry and wind are the world's own work).
pub fn apply_shape_command(world: &mut World, cmd: &ShapeCommand) -> (done: bool)
    requires
        old(world).wf(),
        !old(world).locked,
    ensures
        done == shape_call_performed(*old(world), *cmd),
        !done ==> *final(world) == *old(world),
        done ==> match *cmd {
            ShapeCommand::ChainSetSurfaceMaterial { chain, material, material_index } => {
                let ci = chain.index1 - 1;
                let before = old(world).chain_shapes@[ci];
                &&& final(world).chain_shapes@[ci].materials@ == before.materials@.update(material_index as int, material)
                &&& final(world).shapes@.len() == old(world).shapes@.len()
                &&& forall|j: int| 0 <= j < final(world).shapes@.len() ==> #[trigger] final(world).shapes@[j] == if takes_material(
                    before.shape_indices@, before.materials@.len(), material_index as int, j) {
                    Shape { material: material, ..old(world).shapes@[j] }
                } else {
                    old(world).shapes@[j]
                }
            },
            ShapeCommand::SetReal { shape, .. } | ShapeCommand::SetUserMaterial { shape, .. }
            | ShapeCommand::SetSurfaceMaterial { shape, .. } | ShapeCommand::SetFilter { shape, .. }
            | ShapeCommand::Enable { shape, .. } => {
                &&& final(world).shapes@ == old(world).shapes@.update(shape.index1 - 1, shape_after_call(old(world).shape_of(shape), *cmd))
                &&& final(world).same_but_shapes(old(world))
            },
            _ => true,
        },
{
    match *cmd {
        ShapeCommand::SetReal { opcode, shape, value } => {
            if (opcode != OP_SHAPE_SET_FRICTION && opcode != OP_SHAPE_SET_RESTITUTION) || shape.index1 == i32::MIN
                || !shape_is_valid(world, shape) || !accepted_real(value) {
                return false;
            }
            if opcode == OP_SHAPE_SET_FRICTION {
                shape_set_friction(world, shape, value);
            } else {
                shape_set_restitution(world, shape, value);
            }
            true
        },
        ShapeCommand::SetUserMaterial { shape, material } => {
            if shape.index1 == i32::MIN || !shape_is_valid(world, shape) {
                return false;
            }
            shape_set_user_material(world, shape, material);
            true
        },
        ShapeCommand::SetSurfaceMaterial { shape, material } => {
            if shape.index1 == i32::MIN || !shape_is_valid(world, shape) {
                return false;
            }
            shape_set_surface_material(world, shape, material);
            true
        },
        ShapeCommand::SetFilter { shape, filter } => {
            if shape.index1 == i32::MIN || !shape_is_valid(world, shape) {
                return false;
            }
            let ghost before = world.shapes@;
            let _ = shape_set_filter(world, shape, filter);
            proof {
                let i = shape.index1 - 1;
                if before[i].filter == filter {
                    assert(before.update(i, shape_after_call(before[i], *cmd)) =~= before);
                }
            }
            true
        },
        ShapeCommand::Enable { opcode, shape, flag } => {
            if (opcode != OP_SHAPE_ENABLE_SENSOR_EVENTS && opcode != OP_SHAPE_ENABLE_CONTACT_EVENTS && opcode
                != OP_SHAPE_ENABLE_PRE_SOLVE_EVENTS && opcode != OP_SHAPE_ENABLE_HIT_EVENTS) || shape.index1
                == i32::MIN || !shape_is_valid(world, shape) {
                return false;
            }
            if opcode == OP_SHAPE_ENABLE_SENSOR_EVENTS {
                shape_enable_sensor_events(world, shape, flag);
            } else if opcode == OP_SHAPE_ENABLE_CONTACT_EVENTS {
                shape_enable_contact_events(world, shape, flag);
            } else if opcode == OP_SHAPE_ENABLE_PRE_SOLVE_EVENTS {
                shape_enable_pre_solve_events(world, shape, flag);
            } else {
                shape_enable_hit_events(world, shape, flag);
            }
            true
        },
        ShapeCommand::ChainSetSurfaceMaterial { chain, material, material_index } => {
            if chain.index1 == i32::MIN || !chain_is_valid(world, chain) || material_index < 0 {
                return false;
            }
            let ci = (chain.index1 - 1) as usize;
            if material_index as usize >= world.chain_shapes[ci].materials.len() {
                return false;
            }
            chain_set_surface_material(world, chain, material, material_index as usize);
            true
        },
        _ => false,
    }
}

} // verus!
