use vstd::prelude::*;
use crate::containers::{bitset_bytes, hashset_bytes, i32s_bytes, id_pool_bytes, ser_bitset, ser_hashset, ser_id_pool, w_i32s, BitSet};
use crate::joint::Joint;
use crate::sensor::{ser_sensor, sensor_bytes, Sensor};
use crate::shape::{ChainShape, Shape};
use crate::snapshot::{current_header, snap_header_bytes, SnapHeader, GRAPH_COLOR_COUNT};
use crate::snapshot_bodies::{body_image, contact_image, ser_body, ser_contact, Contact};
use crate::snapshot_joints::{joint_bytes, ser_joint};
use crate::snapshot_shapes::{ser_shape, shape_image};
use crate::snapshot_structs::{chain_bytes, island_bytes, ser_chain, ser_island, Island};
use crate::snapshot_tree::{ser_tree, ser_world_config, tree_image, world_config_image, DynamicTree};
use crate::snapshot_world::{
    contact_sim_run_image, joint_sim_run_image, ser_contact_sim_run, ser_joint_sim_run, ser_solver_set, solver_set_image,
};
use crate::world::{Body, BroadPhase, GraphColor, SolverSet, World};
use crate::write::{i32_bytes, rec_w_i32};

verus! {

// The image of a whole world: a header, the settings, the seven id
// allocators, the solver sets, the sparse tables, the broad phase and the
// constraint graph, in that order.

/// Image form of a graph color: its body set (not for the overflow
/// color), then its contact sims and joint sims, each behind its count.
pub open spec fn graph_color_image(c: GraphColor, overflow: bool) -> Seq<u8> {
    (if overflow { Seq::empty() } else { bitset_bytes(c.body_set.block_count, c.body_set.blocks@) })
        + i32_bytes(c.contact_sims@.len() as i32) + contact_sim_run_image(c.contact_sims@)
        + i32_bytes(c.joint_sims@.len() as i32) + joint_sim_run_image(c.joint_sims@)
}

/// Append a graph color's image.
#[verifier::spinoff_prover]
#[verifier::rlimit(40)]
pub fn ser_graph_color(buf: &mut Vec<u8>, color: &GraphColor, overflow: bool)
    ensures
        final(buf)@ == old(buf)@ + graph_color_image(*color, overflow),
{
    if !overflow {
        ser_bitset(buf, &color.body_set);
    }
    let ghost b1 = buf@;
    rec_w_i32(buf, color.contact_sims.len() as i32);
    ser_contact_sim_run(buf, &color.contact_sims);
    rec_w_i32(buf, color.joint_sims.len() as i32);
    ser_joint_sim_run(buf, &color.joint_sims);
    assert(buf@ =~= old(buf)@ + graph_color_image(*color, overflow));
}

/// A solver set whose runs can each be counted in an `i32`.
pub open spec fn solver_set_fits(s: SolverSet) -> bool {
    &&& s.body_sims@.len() <= i32::MAX
    &&& s.body_states@.len() <= i32::MAX
    &&& s.joint_sims@.len() <= i32::MAX
    &&& s.contact_sims@.len() <= i32::MAX
    &&& s.island_sims@.len() <= i32::MAX
}


/// Images of solver sets, one after the other.
pub open spec fn solver_set_run_image(s: Seq<SolverSet>) -> Seq<u8>
    decreases s.len(),
{
    if s.len() == 0 {
        Seq::empty()
    } else {
        solver_set_run_image(s.drop_last()) + solver_set_image(s.last()@)
    }
}

/// Append the count and the images of solver sets, in order.
#[verifier::spinoff_prover]
#[verifier::rlimit(60)]
pub fn ser_solver_set_run(buf: &mut Vec<u8>, v: &Vec<SolverSet>)
    requires
        forall|k: int| 0 <= k < v@.len() ==> solver_set_fits(#[trigger] v@[k]),
    ensures
        final(buf)@ == old(buf)@ + (i32_bytes(v@.len() as i32) + solver_set_run_image(v@)),
{
    rec_w_i32(buf, v.len() as i32);
    let ghost start = buf@;
    let mut i: usize = 0;
    while i < v.len()
        invariant
            0 <= i <= v@.len(),
            forall|k: int| 0 <= k < v@.len() ==> solver_set_fits(#[trigger] v@[k]),
            buf@ == start + solver_set_run_image(v@.take(i as int)),
        decreases v@.len() - i,
    {
        let ghost prev = buf@;
        ser_solver_set(buf, &v[i]);
        assert(v@.take(i + 1).drop_last() =~= v@.take(i as int));
        assert(solver_set_run_image(v@.take(i + 1)) == solver_set_run_image(v@.take(i as int)) + solver_set_image(v@[i as int]@));
        i = i + 1;
        assert(v@.take(i as int).drop_last() =~= v@.take(i - 1));
        assert(buf@ =~= start + solver_set_run_image(v@.take(i as int)));
    }
    assert(v@.take(v@.len() as int) =~= v@);
    assert(buf@ =~= old(buf)@ + (i32_bytes(v@.len() as i32) + solver_set_run_image(v@)));
}

/// Images of body slots, one after the other.
pub open spec fn body_run_image(s: Seq<Body>) -> Seq<u8>
    decreases s.len(),
{
    if s.len() == 0 {
        Seq::empty()
    } else {
        body_run_image(s.drop_last()) + body_image(s.last()@)
    }
}

/// Append the count and the images of body slots, in order.
#[verifier::spinoff_prover]
#[verifier::rlimit(60)]
pub fn ser_body_run(buf: &mut Vec<u8>, v: &Vec<Body>)
    ensures
        final(buf)@ == old(buf)@ + (i32_bytes(v@.len() as i32) + body_run_image(v@)),
{
    rec_w_i32(buf, v.len() as i32);
    let ghost start = buf@;
    let mut i: usize = 0;
    while i < v.len()
        invariant
            0 <= i <= v@.len(),
            buf@ == start + body_run_image(v@.take(i as int)),
        decreases v@.len() - i,
    {
        let ghost prev = buf@;
        ser_body(buf, &v[i]);
        assert(v@.take(i + 1).drop_last() =~= v@.take(i as int));
        assert(body_run_image(v@.take(i + 1)) == body_run_image(v@.take(i as int)) + body_image(v@[i as int]@));
        i = i + 1;
        assert(v@.take(i as int).drop_last() =~= v@.take(i - 1));
        assert(buf@ =~= start + body_run_image(v@.take(i as int)));
    }
    assert(v@.take(v@.len() as int) =~= v@);
    assert(buf@ =~= old(buf)@ + (i32_bytes(v@.len() as i32) + body_run_image(v@)));
}

/// Images of shape slots, one after the other.
pub open spec fn shape_run_image(s: Seq<Shape>) -> Seq<u8>
    decreases s.len(),
{
    if s.len() == 0 {
        Seq::empty()
    } else {
        shape_run_image(s.drop_last()) + shape_image(s.last())
    }
}

/// Append the count and the images of shape slots, in order.
#[verifier::spinoff_prover]
#[verifier::rlimit(60)]
pub fn ser_shape_run(buf: &mut Vec<u8>, v: &Vec<Shape>)
    ensures
        final(buf)@ == old(buf)@ + (i32_bytes(v@.len() as i32) + shape_run_image(v@)),
{
    rec_w_i32(buf, v.len() as i32);
    let ghost start = buf@;
    let mut i: usize = 0;
    while i < v.len()
        invariant
            0 <= i <= v@.len(),
            buf@ == start + shape_run_image(v@.take(i as int)),
        decreases v@.len() - i,
    {
        let ghost prev = buf@;
        ser_shape(buf, &v[i]);
        assert(v@.take(i + 1).drop_last() =~= v@.take(i as int));
        assert(shape_run_image(v@.take(i + 1)) == shape_run_image(v@.take(i as int)) + shape_image(v@[i as int]));
        i = i + 1;
        assert(v@.take(i as int).drop_last() =~= v@.take(i - 1));
        assert(buf@ =~= start + shape_run_image(v@.take(i as int)));
    }
    assert(v@.take(v@.len() as int) =~= v@);
    assert(buf@ =~= old(buf)@ + (i32_bytes(v@.len() as i32) + shape_run_image(v@)));
}

/// Images of contact slots, one after the other.
pub open spec fn contact_run_image(s: Seq<Contact>) -> Seq<u8>
    decreases s.len(),
{
    if s.len() == 0 {
        Seq::empty()
    } else {
        contact_run_image(s.drop_last()) + contact_image(s.last())
    }
}

/// Append the count and the images of contact slots, in order.
#[verifier::spinoff_prover]
#[verifier::rlimit(60)]
pub fn ser_contact_run(buf: &mut Vec<u8>, v: &Vec<Contact>)
    ensures
        final(buf)@ == old(buf)@ + (i32_bytes(v@.len() as i32) + contact_run_image(v@)),
{
    rec_w_i32(buf, v.len() as i32);
    let ghost start = buf@;
    let mut i: usize = 0;
    while i < v.len()
        invariant
            0 <= i <= v@.len(),
            buf@ == start + contact_run_image(v@.take(i as int)),
        decreases v@.len() - i,
    {
        let ghost prev = buf@;
        ser_contact(buf, &v[i]);
        assert(v@.take(i + 1).drop_last() =~= v@.take(i as int));
        assert(contact_run_image(v@.take(i + 1)) == contact_run_image(v@.take(i as int)) + contact_image(v@[i as int]));
        i = i + 1;
        assert(v@.take(i as int).drop_last() =~= v@.take(i - 1));
        assert(buf@ =~= start + contact_run_image(v@.take(i as int)));
    }
    assert(v@.take(v@.len() as int) =~= v@);
    assert(buf@ =~= old(buf)@ + (i32_bytes(v@.len() as i32) + contact_run_image(v@)));
}

/// Images of joint slots, one after the other.
pub open spec fn joint_run_image(s: Seq<Joint>) -> Seq<u8>
    decreases s.len(),
{
    if s.len() == 0 {
        Seq::empty()
    } else {
        joint_run_image(s.drop_last()) + joint_bytes(s.last())
    }
}

/// Append the count and the images of joint slots, in order.
#[verifier::spinoff_prover]
#[verifier::rlimit(60)]
pub fn ser_joint_run(buf: &mut Vec<u8>, v: &Vec<Joint>)
    ensures
        final(buf)@ == old(buf)@ + (i32_bytes(v@.len() as i32) + joint_run_image(v@)),
{
    rec_w_i32(buf, v.len() as i32);
    let ghost start = buf@;
    let mut i: usize = 0;
    while i < v.len()
        invariant
            0 <= i <= v@.len(),
            buf@ == start + joint_run_image(v@.take(i as int)),
        decreases v@.len() - i,
    {
        let ghost prev = buf@;
        ser_joint(buf, &v[i]);
        assert(v@.take(i + 1).drop_last() =~= v@.take(i as int));
        assert(joint_run_image(v@.take(i + 1)) == joint_run_image(v@.take(i as int)) + joint_bytes(v@[i as int]));
        i = i + 1;
        assert(v@.take(i as int).drop_last() =~= v@.take(i - 1));
        assert(buf@ =~= start + joint_run_image(v@.take(i as int)));
    }
    assert(v@.take(v@.len() as int) =~= v@);
    assert(buf@ =~= old(buf)@ + (i32_bytes(v@.len() as i32) + joint_run_image(v@)));
}

/// Images of chain slots, one after the other.
pub open spec fn chain_run_image(s: Seq<ChainShape>) -> Seq<u8>
    decreases s.len(),
{
    if s.len() == 0 {
        Seq::empty()
    } else {
        chain_run_image(s.drop_last()) + chain_bytes(s.last().id, s.last().body_id, s.last().next_chain_id, s.last().generation, s.last().shape_indices@, s.last().materials@)
    }
}

/// Append the count and the images of chain slots, in order.
#[verifier::spinoff_prover]
#[verifier::rlimit(60)]
pub fn ser_chain_run(buf: &mut Vec<u8>, v: &Vec<ChainShape>)
    ensures
        final(buf)@ == old(buf)@ + (i32_bytes(v@.len() as i32) + chain_run_image(v@)),
{
    rec_w_i32(buf, v.len() as i32);
    let ghost start = buf@;
    let mut i: usize = 0;
    while i < v.len()
        invariant
            0 <= i <= v@.len(),
            buf@ == start + chain_run_image(v@.take(i as int)),
        decreases v@.len() - i,
    {
        let ghost prev = buf@;
        ser_chain(buf, &v[i]);
        assert(v@.take(i + 1).drop_last() =~= v@.take(i as int));
        assert(chain_run_image(v@.take(i + 1)) == chain_run_image(v@.take(i as int)) + chain_bytes(v@[i as int].id, v@[i as int].body_id, v@[i as int].next_chain_id, v@[i as int].generation, v@[i as int].shape_indices@, v@[i as int].materials@));
        i = i + 1;
        assert(v@.take(i as int).drop_last() =~= v@.take(i - 1));
        assert(buf@ =~= start + chain_run_image(v@.take(i as int)));
    }
    assert(v@.take(v@.len() as int) =~= v@);
    assert(buf@ =~= old(buf)@ + (i32_bytes(v@.len() as i32) + chain_run_image(v@)));
}

/// Images of sensors, one after the other.
pub open spec fn sensor_run_image(s: Seq<Sensor>) -> Seq<u8>
    decreases s.len(),
{
    if s.len() == 0 {
        Seq::empty()
    } else {
        sensor_run_image(s.drop_last()) + sensor_bytes(s.last().shape_id, s.last().hits@, s.last().overlaps1@, s.last().overlaps2@)
    }
}

/// Append the count and the images of sensors, in order.
#[verifier::spinoff_prover]
#[verifier::rlimit(60)]
pub fn ser_sensor_run(buf: &mut Vec<u8>, v: &Vec<Sensor>)
    ensures
        final(buf)@ == old(buf)@ + (i32_bytes(v@.len() as i32) + sensor_run_image(v@)),
{
    rec_w_i32(buf, v.len() as i32);
    let ghost start = buf@;
    let mut i: usize = 0;
    while i < v.len()
        invariant
            0 <= i <= v@.len(),
            buf@ == start + sensor_run_image(v@.take(i as int)),
        decreases v@.len() - i,
    {
        let ghost prev = buf@;
        ser_sensor(buf, &v[i]);
        assert(v@.take(i + 1).drop_last() =~= v@.take(i as int));
        assert(sensor_run_image(v@.take(i + 1)) == sensor_run_image(v@.take(i as int)) + sensor_bytes(v@[i as int].shape_id, v@[i as int].hits@, v@[i as int].overlaps1@, v@[i as int].overlaps2@));
        i = i + 1;
        assert(v@.take(i as int).drop_last() =~= v@.take(i - 1));
        assert(buf@ =~= start + sensor_run_image(v@.take(i as int)));
    }
    assert(v@.take(v@.len() as int) =~= v@);
    assert(buf@ =~= old(buf)@ + (i32_bytes(v@.len() as i32) + sensor_run_image(v@)));
}

/// Images of island slots, one after the other.
pub open spec fn island_run_image(s: Seq<Island>) -> Seq<u8>
    decreases s.len(),
{
    if s.len() == 0 {
        Seq::empty()
    } else {
        island_run_image(s.drop_last()) + island_bytes(s.last().set_index, s.last().local_index, s.last().island_id, s.last().constraint_remove_count, s.last().bodies@, s.last().contacts@, s.last().joints@)
    }
}

/// Append the count and the images of island slots, in order.
#[verifier::spinoff_prover]
#[verifier::rlimit(60)]
pub fn ser_island_run(buf: &mut Vec<u8>, v: &Vec<Island>)
    ensures
        final(buf)@ == old(buf)@ + (i32_bytes(v@.len() as i32) + island_run_image(v@)),
{
    rec_w_i32(buf, v.len() as i32);
    let ghost start = buf@;
    let mut i: usize = 0;
    while i < v.len()
        invariant
            0 <= i <= v@.len(),
            buf@ == start + island_run_image(v@.take(i as int)),
        decreases v@.len() - i,
    {
        let ghost prev = buf@;
        ser_island(buf, &v[i]);
        assert(v@.take(i + 1).drop_last() =~= v@.take(i as int));
        assert(island_run_image(v@.take(i + 1)) == island_run_image(v@.take(i as int)) + island_bytes(v@[i as int].set_index, v@[i as int].local_index, v@[i as int].island_id, v@[i as int].constraint_remove_count, v@[i as int].bodies@, v@[i as int].contacts@, v@[i as int].joints@));
        i = i + 1;
        assert(v@.take(i as int).drop_last() =~= v@.take(i - 1));
        assert(buf@ =~= start + island_run_image(v@.take(i as int)));
    }
    assert(v@.take(v@.len() as int) =~= v@);
    assert(buf@ =~= old(buf)@ + (i32_bytes(v@.len() as i32) + island_run_image(v@)));
}

/// Images of broad-phase trees, one after the other.
pub open spec fn tree_run_image(s: Seq<DynamicTree>) -> Seq<u8>
    decreases s.len(),
{
    if s.len() == 0 {
        Seq::empty()
    } else {
        tree_run_image(s.drop_last()) + tree_image(s.last()@)
    }
}

/// Append the images of broad-phase trees, in order.
#[verifier::spinoff_prover]
#[verifier::rlimit(60)]
pub fn ser_tree_run(buf: &mut Vec<u8>, v: &Vec<DynamicTree>)
    requires
        forall|k: int| 0 <= k < v@.len() ==> (#[trigger] v@[k]).nodes@.len() <= i32::MAX,
    ensures
        final(buf)@ == old(buf)@ + tree_run_image(v@),
{
    let ghost start = buf@;
    let mut i: usize = 0;
    while i < v.len()
        invariant
            0 <= i <= v@.len(),
            forall|k: int| 0 <= k < v@.len() ==> (#[trigger] v@[k]).nodes@.len() <= i32::MAX,
            buf@ == start + tree_run_image(v@.take(i as int)),
        decreases v@.len() - i,
    {
        let ghost prev = buf@;
        ser_tree(buf, &v[i]);
        assert(v@.take(i + 1).drop_last() =~= v@.take(i as int));
        assert(tree_run_image(v@.take(i + 1)) == tree_run_image(v@.take(i as int)) + tree_image(v@[i as int]@));
        i = i + 1;
        assert(v@.take(i as int).drop_last() =~= v@.take(i - 1));
        assert(buf@ =~= start + tree_run_image(v@.take(i as int)));
    }
    assert(v@.take(v@.len() as int) =~= v@);
}

/// Images of bit sets, one after the other.
pub open spec fn bitset_run_image(s: Seq<BitSet>) -> Seq<u8>
    decreases s.len(),
{
    if s.len() == 0 {
        Seq::empty()
    } else {
        bitset_run_image(s.drop_last()) + bitset_bytes(s.last().block_count, s.last().blocks@)
    }
}

/// Append the images of bit sets, in order.
#[verifier::spinoff_prover]
#[verifier::rlimit(60)]
pub fn ser_bitset_run(buf: &mut Vec<u8>, v: &Vec<BitSet>)
    ensures
        final(buf)@ == old(buf)@ + bitset_run_image(v@),
{
    let ghost start = buf@;
    let mut i: usize = 0;
    while i < v.len()
        invariant
            0 <= i <= v@.len(),
            buf@ == start + bitset_run_image(v@.take(i as int)),
        decreases v@.len() - i,
    {
        let ghost prev = buf@;
        ser_bitset(buf, &v[i]);
        assert(v@.take(i + 1).drop_last() =~= v@.take(i as int));
        assert(bitset_run_image(v@.take(i + 1)) == bitset_run_image(v@.take(i as int)) + bitset_bytes(v@[i as int].block_count, v@[i as int].blocks@));
        i = i + 1;
        assert(v@.take(i as int).drop_last() =~= v@.take(i - 1));
        assert(buf@ =~= start + bitset_run_image(v@.take(i as int)));
    }
    assert(v@.take(v@.len() as int) =~= v@);
}

/// Images of graph colors, the last of a full graph being the overflow color, one after the other.
pub open spec fn graph_color_run_image(s: Seq<GraphColor>) -> Seq<u8>
    decreases s.len(),
{
    if s.len() == 0 {
        Seq::empty()
    } else {
        graph_color_run_image(s.drop_last()) + graph_color_image(s.last(), (s.len() - 1) == GRAPH_COLOR_COUNT - 1)
    }
}

/// Append the images of graph colors, the last of a full graph being the overflow color, in order.
#[verifier::spinoff_prover]
#[verifier::rlimit(60)]
pub fn ser_graph_color_run(buf: &mut Vec<u8>, v: &Vec<GraphColor>)
    ensures
        final(buf)@ == old(buf)@ + graph_color_run_image(v@),
{
    let ghost start = buf@;
    let mut i: usize = 0;
    while i < v.len()
        invariant
            0 <= i <= v@.len(),
            buf@ == start + graph_color_run_image(v@.take(i as int)),
        decreases v@.len() - i,
    {
        let ghost prev = buf@;
        ser_graph_color(buf, &v[i], i == GRAPH_COLOR_COUNT - 1);
        assert(v@.take(i + 1).drop_last() =~= v@.take(i as int));
        assert(graph_color_run_image(v@.take(i + 1)) == graph_color_run_image(v@.take(i as int)) + graph_color_image(v@[i as int], i == GRAPH_COLOR_COUNT - 1));
        i = i + 1;
        assert(v@.take(i as int).drop_last() =~= v@.take(i - 1));
        assert(buf@ =~= start + graph_color_run_image(v@.take(i as int)));
    }
    assert(v@.take(v@.len() as int) =~= v@);
}

/// A world whose runs can each be counted in an `i32`, as its image
/// counts them.
pub open spec fn world_fits(w: World) -> bool {
    &&& forall|k: int| 0 <= k < w.solver_sets@.len() ==> solver_set_fits(#[trigger] w.solver_sets@[k])
    &&& forall|k: int| 0 <= k < w.broad_phase.trees@.len() ==> (#[trigger] w.broad_phase.trees@[k]).nodes@.len() <= i32::MAX
}

/// The seven id pools of a world's image: body, shape, chain, contact,
/// joint, island and solver set.
#[verifier::opaque]
pub open spec fn world_pools_image(w: World) -> Seq<u8> {
    id_pool_bytes(w.body_id_pool.free_array@, w.body_id_pool.next_index)
        + id_pool_bytes(w.shape_id_pool.free_array@, w.shape_id_pool.next_index)
        + id_pool_bytes(w.chain_id_pool.free_array@, w.chain_id_pool.next_index)
        + id_pool_bytes(w.contact_id_pool.free_array@, w.contact_id_pool.next_index)
        + id_pool_bytes(w.joint_id_pool.free_array@, w.joint_id_pool.next_index)
        + id_pool_bytes(w.island_id_pool.free_array@, w.island_id_pool.next_index)
        + id_pool_bytes(w.solver_set_id_pool.free_array@, w.solver_set_id_pool.next_index)
}

/// The tables of a world's image, each behind its count: solver sets,
/// bodies, shapes, contacts, joints, chains, sensors and islands.
#[verifier::opaque]
pub open spec fn world_tables_image(w: World) -> Seq<u8> {
    (i32_bytes(w.solver_sets@.len() as i32) + solver_set_run_image(w.solver_sets@))
        + (i32_bytes(w.bodies@.len() as i32) + body_run_image(w.bodies@))
        + (i32_bytes(w.shapes@.len() as i32) + shape_run_image(w.shapes@))
        + (i32_bytes(w.contacts@.len() as i32) + contact_run_image(w.contacts@))
        + (i32_bytes(w.joints@.len() as i32) + joint_run_image(w.joints@))
        + (i32_bytes(w.chain_shapes@.len() as i32) + chain_run_image(w.chain_shapes@))
        + (i32_bytes(w.sensors@.len() as i32) + sensor_run_image(w.sensors@))
        + (i32_bytes(w.islands@.len() as i32) + island_run_image(w.islands@))
}

/// The broad phase's image: its trees, its moved-proxy sets, its counted
/// move list and its pair set.
#[verifier::opaque]
pub open spec fn broad_phase_image(b: BroadPhase) -> Seq<u8> {
    tree_run_image(b.trees@) + bitset_run_image(b.moved_proxies@)
        + (i32_bytes(b.move_array@.len() as i32) + i32s_bytes(b.move_array@))
        + hashset_bytes(b.pair_set.count, b.pair_set.items@)
}

/// The image of a world: the current header, the settings, the id pools,
/// the tables, the broad phase and the graph colors.
#[verifier::opaque]
pub open spec fn world_image_bytes(w: World) -> Seq<u8> {
    snap_header_bytes(current_header()) + world_config_image(w.config) + world_pools_image(w)
        + world_tables_image(w) + broad_phase_image(w.broad_phase) + graph_color_run_image(w.graph_colors@)
}

fn ser_world_pools(buf: &mut Vec<u8>, world: &World)
    ensures
        final(buf)@ == old(buf)@ + world_pools_image(*world),
{
    ser_id_pool(buf, &world.body_id_pool);
    ser_id_pool(buf, &world.shape_id_pool);
    ser_id_pool(buf, &world.chain_id_pool);
    ser_id_pool(buf, &world.contact_id_pool);
    ser_id_pool(buf, &world.joint_id_pool);
    ser_id_pool(buf, &world.island_id_pool);
    ser_id_pool(buf, &world.solver_set_id_pool);
    proof {
        reveal(world_pools_image);
        let w = *world;
        lemma_append_7(old(buf)@, id_pool_bytes(w.body_id_pool.free_array@, w.body_id_pool.next_index),
            id_pool_bytes(w.shape_id_pool.free_array@, w.shape_id_pool.next_index),
            id_pool_bytes(w.chain_id_pool.free_array@, w.chain_id_pool.next_index),
            id_pool_bytes(w.contact_id_pool.free_array@, w.contact_id_pool.next_index),
            id_pool_bytes(w.joint_id_pool.free_array@, w.joint_id_pool.next_index),
            id_pool_bytes(w.island_id_pool.free_array@, w.island_id_pool.next_index),
            id_pool_bytes(w.solver_set_id_pool.free_array@, w.solver_set_id_pool.next_index));
    }
}

#[verifier::spinoff_prover]
#[verifier::rlimit(60)]
fn ser_world_tables(buf: &mut Vec<u8>, world: &World)
    requires
        world_fits(*world),
    ensures
        final(buf)@ == old(buf)@ + world_tables_image(*world),
{
    ser_solver_set_run(buf, &world.solver_sets);
    ser_body_run(buf, &world.bodies);
    ser_shape_run(buf, &world.shapes);
    ser_contact_run(buf, &world.contacts);
    ser_joint_run(buf, &world.joints);
    ser_chain_run(buf, &world.chain_shapes);
    ser_sensor_run(buf, &world.sensors);
    ser_island_run(buf, &world.islands);
    proof {
        reveal(world_tables_image);
        let w = *world;
        lemma_append_8(old(buf)@, i32_bytes(w.solver_sets@.len() as i32) + solver_set_run_image(w.solver_sets@),
            i32_bytes(w.bodies@.len() as i32) + body_run_image(w.bodies@),
            i32_bytes(w.shapes@.len() as i32) + shape_run_image(w.shapes@),
            i32_bytes(w.contacts@.len() as i32) + contact_run_image(w.contacts@),
            i32_bytes(w.joints@.len() as i32) + joint_run_image(w.joints@),
            i32_bytes(w.chain_shapes@.len() as i32) + chain_run_image(w.chain_shapes@),
            i32_bytes(w.sensors@.len() as i32) + sensor_run_image(w.sensors@),
            i32_bytes(w.islands@.len() as i32) + island_run_image(w.islands@));
    }
}

/// Append the broad phase's image.
pub fn ser_broad_phase(buf: &mut Vec<u8>, bp: &BroadPhase)
    requires
        forall|k: int| 0 <= k < bp.trees@.len() ==> (#[trigger] bp.trees@[k]).nodes@.len() <= i32::MAX,
    ensures
        final(buf)@ == old(buf)@ + broad_phase_image(*bp),
{
    ser_tree_run(buf, &bp.trees);
    ser_bitset_run(buf, &bp.moved_proxies);
    rec_w_i32(buf, bp.move_array.len() as i32);
    w_i32s(buf, &bp.move_array);
    let ghost b3 = buf@;
    ser_hashset(buf, &bp.pair_set);
    proof {
        reveal(broad_phase_image);
        let b = *bp;
        assert(b3 =~= old(buf)@ + tree_run_image(b.trees@) + bitset_run_image(b.moved_proxies@) + (i32_bytes(b.move_array@.len() as i32) + i32s_bytes(b.move_array@)));
        lemma_append_4(old(buf)@, tree_run_image(b.trees@), bitset_run_image(b.moved_proxies@),
            i32_bytes(b.move_array@.len() as i32) + i32s_bytes(b.move_array@), hashset_bytes(b.pair_set.count, b.pair_set.items@));
    }
}

proof fn lemma_append_4(b: Seq<u8>, p1: Seq<u8>, p2: Seq<u8>, p3: Seq<u8>, p4: Seq<u8>)
    ensures
        ((((b + p1) + p2) + p3) + p4) == b + (((p1 + p2) + p3) + p4),
{
    assert(((((b + p1) + p2) + p3) + p4) =~= b + (((p1 + p2) + p3) + p4));
}

proof fn lemma_append_6(b: Seq<u8>, p1: Seq<u8>, p2: Seq<u8>, p3: Seq<u8>, p4: Seq<u8>, p5: Seq<u8>, p6: Seq<u8>)
    ensures
        ((((((b + p1) + p2) + p3) + p4) + p5) + p6) == b + (((((p1 + p2) + p3) + p4) + p5) + p6),
{
    assert(((((((b + p1) + p2) + p3) + p4) + p5) + p6) =~= b + (((((p1 + p2) + p3) + p4) + p5) + p6));
}

proof fn lemma_append_7(b: Seq<u8>, p1: Seq<u8>, p2: Seq<u8>, p3: Seq<u8>, p4: Seq<u8>, p5: Seq<u8>, p6: Seq<u8>, p7: Seq<u8>)
    ensures
        (((((((b + p1) + p2) + p3) + p4) + p5) + p6) + p7) == b + ((((((p1 + p2) + p3) + p4) + p5) + p6) + p7),
{
    assert((((((((b + p1) + p2) + p3) + p4) + p5) + p6) + p7) =~= b + ((((((p1 + p2) + p3) + p4) + p5) + p6) + p7));
}

proof fn lemma_append_8(b: Seq<u8>, p1: Seq<u8>, p2: Seq<u8>, p3: Seq<u8>, p4: Seq<u8>, p5: Seq<u8>, p6: Seq<u8>, p7: Seq<u8>, p8: Seq<u8>)
    ensures
        ((((((((b + p1) + p2) + p3) + p4) + p5) + p6) + p7) + p8) == b + (((((((p1 + p2) + p3) + p4) + p5) + p6) + p7) + p8),
{
    assert(((((((((b + p1) + p2) + p3) + p4) + p5) + p6) + p7) + p8) =~= b + (((((((p1 + p2) + p3) + p4) + p5) + p6) + p7) + p8));
}

/// Append the image of the whole simulation state.
pub fn serialize_world(world: &World, buf: &mut Vec<u8>)
    requires
        world_fits(*world),
    ensures
        final(buf)@ == old(buf)@ + world_image_bytes(*world),
{
    SnapHeader::current().write(buf);
    ser_world_config(buf, &world.config);
    ser_world_pools(buf, world);
    ser_world_tables(buf, world);
    ser_broad_phase(buf, &world.broad_phase);
    ser_graph_color_run(buf, &world.graph_colors);
    proof {
        reveal(world_image_bytes);
        let w = *world;
        lemma_append_6(old(buf)@, snap_header_bytes(current_header()), world_config_image(w.config), world_pools_image(w),
            world_tables_image(w), broad_phase_image(w.broad_phase), graph_color_run_image(w.graph_colors@));
    }
}

/// The image of the world, in a buffer of its own.
pub fn world_snapshot(world: &World) -> (image: Vec<u8>)
    requires
        world_fits(*world),
    ensures
        image@ == world_image_bytes(*world),
{
    let mut buf: Vec<u8> = Vec::new();
    serialize_world(world, &mut buf);
    assert(buf@ =~= world_image_bytes(*world));
    buf
}

} // verus!
