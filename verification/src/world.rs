use vstd::prelude::*;
use crate::recording::{frame_bytes, Recording};
use crate::sensor::{Sensor, NULL_INDEX};
use crate::joint::{payload_type, Joint, JointSim, AWAKE_SET};
use crate::shape::{ChainShape, Shape, ShapeGeometry};
use crate::types::BodyType;
use crate::containers::{BitSet, HashSet, IdPool};
use crate::snapshot_bodies::{BodySim, BodyState, Contact, ContactSim};
use crate::snapshot_structs::{Island, IslandSim};
use crate::snapshot_tree::{DynamicTree, WorldConfig};

verus! {

/// A body slot of the world: its place in its solver set, its contact,
/// shape, chain and joint lists, its island, mass and sleep state, id,
/// flags, type, generation and name. Real values are IEEE-754 single
/// precision bit patterns.
#[derive(Debug)]
pub struct Body {
    pub user_data: u64,
    pub set_index: i32,
    pub local_index: i32,
    pub head_contact_key: i32,
    /// Number of contacts touching the body.
    pub contact_count: i32,
    pub head_shape_id: i32,
    pub shape_count: i32,
    /// First chain of the body's chain list.
    pub head_chain_id: i32,
    pub head_joint_key: i32,
    pub joint_count: i32,
    pub island_id: i32,
    pub island_index: i32,
    pub mass: u32,
    pub inertia: u32,
    pub sleep_threshold: u32,
    pub sleep_time: u32,
    pub body_move_index: i32,
    /// Its own index, or `NULL_INDEX` when the slot is free.
    pub id: i32,
    pub flags: u32,
    pub type_: BodyType,
    pub generation: u16,
    pub name: String,
}

/// A solver set: the bodies, contacts and joints that sleep and wake
/// together, with their solver data, and the islands they form.
#[derive(Debug)]
pub struct SolverSet {
    pub set_index: i32,
    pub body_sims: Vec<BodySim>,
    pub body_states: Vec<BodyState>,
    pub joint_sims: Vec<JointSim>,
    pub contact_sims: Vec<ContactSim>,
    pub island_sims: Vec<IslandSim>,
}

/// A color of the constraint graph: awake constraints that share no
/// dynamic body, and the set of bodies they touch (the overflow color keeps
/// no body set).
#[derive(Debug)]
pub struct GraphColor {
    pub body_set: BitSet,
    pub contact_sims: Vec<ContactSim>,
    pub joint_sims: Vec<JointSim>,
}

/// The broad phase: a tree of proxies per body type, the proxies that
/// moved, in a bit set per tree and as a list of keys, and the shape pairs
/// already known.
#[derive(Debug)]
pub struct BroadPhase {
    pub trees: Vec<DynamicTree>,
    pub moved_proxies: Vec<BitSet>,
    pub move_array: Vec<i32>,
    pub pair_set: HashSet,
}

/// The world state: its settings, id allocators, sparse tables, solver
/// sets, broad phase and constraint graph, and the recording session.
#[derive(Debug)]
pub struct World {
    pub world_id: u16,
    pub generation: u16,
    /// Set while the world is stepping; the API refuses changes then.
    pub locked: bool,
    /// The active recording session, if any.
    pub recording: Option<Recording>,
    pub bodies: Vec<Body>,
    pub shapes: Vec<Shape>,
    pub chain_shapes: Vec<ChainShape>,
    pub joints: Vec<Joint>,
    pub sensors: Vec<Sensor>,
    pub solver_sets: Vec<SolverSet>,
    /// The colors of the constraint graph.
    pub graph_colors: Vec<GraphColor>,
    pub config: WorldConfig,
    pub body_id_pool: IdPool,
    pub shape_id_pool: IdPool,
    pub chain_id_pool: IdPool,
    pub contact_id_pool: IdPool,
    pub joint_id_pool: IdPool,
    pub island_id_pool: IdPool,
    pub solver_set_id_pool: IdPool,
    pub contacts: Vec<Contact>,
    pub islands: Vec<Island>,
    pub broad_phase: BroadPhase,
}

/// `after` is `before` with one more framed record appended, when a
/// session is active; no session stays no session.
pub open spec fn recorded(before: Option<Recording>, after: Option<Recording>, opcode: u8, payload: Seq<u8>) -> bool {
    match before {
        None => after is None,
        Some(r) => {
            &&& after is Some
            &&& after->0.bytes() == r.bytes() + frame_bytes(opcode, payload)
            &&& after->0.open_slot() == r.bytes().len() + 1
        },
    }
}

impl World {
    /// The bookkeeping the world keeps consistent: slot indices fit in
    /// `i32`, a used slot knows its own index, and what a used slot refers
    /// to exists.
    pub open spec fn wf(&self) -> bool {
        &&& self.bodies@.len() <= i32::MAX
        &&& self.shapes@.len() <= i32::MAX
        &&& self.chain_shapes@.len() <= i32::MAX
        &&& self.joints@.len() <= i32::MAX
        &&& self.sensors@.len() <= i32::MAX
        &&& forall|i: int| 0 <= i < self.shapes@.len() ==> self.shape_slot_ok(#[trigger] self.shapes@[i], i)
        &&& forall|i: int| 0 <= i < self.chain_shapes@.len() ==> self.chain_slot_ok(#[trigger] self.chain_shapes@[i], i)
        &&& forall|i: int| 0 <= i < self.joints@.len() ==> (#[trigger] self.joints@[i]).joint_id == NULL_INDEX || {
            &&& self.joints@[i].joint_id == i
            &&& self.joint_sim_ok(self.joints@[i])
        }
        &&& forall|i: int, k: int| 0 <= i < self.sensors@.len() && 0 <= k < self.sensors@[i].overlaps2@.len()
            ==> 0 <= #[trigger] self.sensors@[i].overlaps2@[k].shape_id < self.shapes@.len()
    }

    /// A shape slot is free, or names itself, an existing body, an existing
    /// sensor if any, and an existing chain if it is a chain segment.
    pub open spec fn shape_slot_ok(&self, s: Shape, i: int) -> bool {
        s.id == NULL_INDEX || {
            &&& s.id == i
            &&& 0 <= s.body_id < self.bodies@.len()
            &&& s.sensor_index == NULL_INDEX || 0 <= s.sensor_index < self.sensors@.len()
            &&& match s.geometry {
                ShapeGeometry::ChainSegment(seg) => seg.chain_id == NULL_INDEX || 0 <= seg.chain_id < self.chain_shapes@.len(),
                _ => true,
            }
        }
    }

    /// A chain slot is free, or names itself, and its segments and
    /// materials agree: one shared material, or one per segment.
    pub open spec fn chain_slot_ok(&self, c: ChainShape, i: int) -> bool {
        c.id == NULL_INDEX || {
            &&& c.id == i
            &&& forall|k: int| 0 <= k < c.shape_indices@.len() ==> 0 <= #[trigger] c.shape_indices@[k] < self.shapes@.len()
            &&& c.materials@.len() == 1 || c.materials@.len() == c.shape_indices@.len()
        }
    }

    /// `id` names a live shape of this world.
    pub open spec fn valid_shape_id(&self, id: crate::id::ShapeId) -> bool {
        let i = id.index1 - 1;
        &&& 0 <= i < self.shapes@.len()
        &&& self.shapes@[i].id == i
        &&& self.shapes@[i].generation == id.generation
    }

    /// `id` names a live chain of this world.
    pub open spec fn valid_chain_id(&self, id: crate::id::ChainId) -> bool {
        let i = id.index1 - 1;
        &&& 0 <= i < self.chain_shapes@.len()
        &&& self.chain_shapes@[i].id == i
        &&& self.chain_shapes@[i].generation == id.generation
    }

    /// `id` names a live joint of this world.
    pub open spec fn valid_joint_id(&self, id: crate::id::JointId) -> bool {
        let i = id.index1 - 1;
        &&& 0 <= i < self.joints@.len()
        &&& self.joints@[i].joint_id == i
        &&& self.joints@[i].generation == id.generation
    }

    /// The shape an id names.
    pub open spec fn shape_of(&self, id: crate::id::ShapeId) -> Shape {
        self.shapes@[id.index1 - 1]
    }

    /// The solver data sequence a joint's solver data lives in: a color
    /// of the constraint graph when the joint is awake, its solver set
    /// otherwise.
    pub open spec fn joint_sims_at(&self, j: Joint) -> Seq<JointSim> {
        if j.set_index == AWAKE_SET {
            self.graph_colors@[j.color_index as int].joint_sims@
        } else {
            self.solver_sets@[j.set_index as int].joint_sims@
        }
    }

    /// The solver data of a joint.
    pub open spec fn sim_of(&self, j: Joint) -> JointSim {
        self.joint_sims_at(j)[j.local_index as int]
    }

    /// A live joint's solver data exists where the joint says, names the
    /// joint, and is of the joint's type.
    pub open spec fn joint_sim_ok(&self, j: Joint) -> bool {
        &&& if j.set_index == AWAKE_SET {
            0 <= j.color_index < self.graph_colors@.len()
        } else {
            0 <= j.set_index < self.solver_sets@.len()
        }
        &&& 0 <= j.local_index < self.joint_sims_at(j).len()
        &&& self.sim_of(j).joint_id == j.joint_id
        &&& payload_type(self.sim_of(j).payload) == j.type_
    }

    /// `self` is `old` with the solver data at `j`'s place replaced by
    /// `sim`; all other solver data kept.
    pub open spec fn sim_stored(&self, old: &World, j: Joint, sim: JointSim) -> bool {
        &&& self.solver_sets@.len() == old.solver_sets@.len()
        &&& self.graph_colors@.len() == old.graph_colors@.len()
        &&& forall|s: int| 0 <= s < old.solver_sets@.len() ==> (#[trigger] self.solver_sets@[s]).joint_sims@ == if j.set_index
            != AWAKE_SET && s == j.set_index {
            old.solver_sets@[s].joint_sims@.update(j.local_index as int, sim)
        } else {
            old.solver_sets@[s].joint_sims@
        }
        &&& forall|c: int| 0 <= c < old.graph_colors@.len() ==> (#[trigger] self.graph_colors@[c]).joint_sims@ == if j.set_index
            == AWAKE_SET && c == j.color_index {
            old.graph_colors@[c].joint_sims@.update(j.local_index as int, sim)
        } else {
            old.graph_colors@[c].joint_sims@
        }
    }

    /// Everything but the solver data and the recording is as in `other`.
    pub open spec fn same_but_sims(&self, other: &World) -> bool {
        &&& self.world_id == other.world_id
        &&& self.generation == other.generation
        &&& self.locked == other.locked
        &&& self.bodies@ == other.bodies@
        &&& self.shapes@ == other.shapes@
        &&& self.chain_shapes@ == other.chain_shapes@
        &&& self.joints@ == other.joints@
        &&& self.sensors@ == other.sensors@
    }

    /// Everything but the recording is as in `other`.
    pub open spec fn same_but_recording(&self, other: &World) -> bool {
        &&& self.same_but_shapes(other)
        &&& self.shapes@ == other.shapes@
    }

    /// Everything but the shape slots and the recording is as in `other`.
    pub open spec fn same_but_shapes(&self, other: &World) -> bool {
        &&& self.world_id == other.world_id
        &&& self.generation == other.generation
        &&& self.locked == other.locked
        &&& self.bodies@ == other.bodies@
        &&& self.chain_shapes@ == other.chain_shapes@
        &&& self.joints@ == other.joints@
        &&& self.sensors@ == other.sensors@
        &&& self.solver_sets@ == other.solver_sets@
        &&& self.graph_colors@ == other.graph_colors@
        &&& self.config == other.config
        &&& self.body_id_pool == other.body_id_pool
        &&& self.shape_id_pool == other.shape_id_pool
        &&& self.chain_id_pool == other.chain_id_pool
        &&& self.contact_id_pool == other.contact_id_pool
        &&& self.joint_id_pool == other.joint_id_pool
        &&& self.island_id_pool == other.island_id_pool
        &&& self.solver_set_id_pool == other.solver_set_id_pool
        &&& self.contacts@ == other.contacts@
        &&& self.islands@ == other.islands@
        &&& self.broad_phase == other.broad_phase
    }
}

/// Storing solver data that names the same joint and has the same type at
/// a live joint's place keeps the world's bookkeeping consistent.
pub proof fn lemma_store_keeps_wf(before: &World, after: &World, j: Joint, sim: JointSim)
    requires
        before.wf(),
        0 <= j.joint_id < before.joints@.len(),
        before.joints@[j.joint_id as int] == j,
        before.joint_sim_ok(j),
        sim.joint_id == before.sim_of(j).joint_id,
        payload_type(sim.payload) == payload_type(before.sim_of(j).payload),
        after.sim_stored(before, j, sim),
        after.same_but_sims(before),
    ensures
        after.wf(),
        after.sim_of(j) == sim,
        after.joint_sim_ok(j),
{
    if j.set_index == AWAKE_SET {
        assert(after.graph_colors@[j.color_index as int].joint_sims@ == before.graph_colors@[j.color_index as int].joint_sims@.update(j.local_index as int, sim));
    } else {
        assert(after.solver_sets@[j.set_index as int].joint_sims@ == before.solver_sets@[j.set_index as int].joint_sims@.update(j.local_index as int, sim));
    }
    assert forall|i: int| 0 <= i < after.joints@.len() implies (#[trigger] after.joints@[i]).joint_id == NULL_INDEX || {
        &&& after.joints@[i].joint_id == i
        &&& after.joint_sim_ok(after.joints@[i])
    } by {
        let o = before.joints@[i];
        if o.joint_id != NULL_INDEX {
            assert(before.joint_sim_ok(o));
            if o.set_index == AWAKE_SET {
                assert(after.graph_colors@[o.color_index as int].joint_sims@ == (if j.set_index == AWAKE_SET && o.color_index == j.color_index {
                    before.graph_colors@[o.color_index as int].joint_sims@.update(j.local_index as int, sim)
                } else {
                    before.graph_colors@[o.color_index as int].joint_sims@
                }));
            } else {
                assert(after.solver_sets@[o.set_index as int].joint_sims@ == (if j.set_index != AWAKE_SET && o.set_index == j.set_index {
                    before.solver_sets@[o.set_index as int].joint_sims@.update(j.local_index as int, sim)
                } else {
                    before.solver_sets@[o.set_index as int].joint_sims@
                }));
            }
        }
    }
    assert forall|i: int| 0 <= i < after.shapes@.len() implies after.shape_slot_ok(#[trigger] after.shapes@[i], i) by {
        assert(before.shape_slot_ok(before.shapes@[i], i));
    }
    assert forall|i: int| 0 <= i < after.chain_shapes@.len() implies after.chain_slot_ok(#[trigger] after.chain_shapes@[i], i) by {
        assert(before.chain_slot_ok(before.chain_shapes@[i], i));
    }
}

} // verus!
