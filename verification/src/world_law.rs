use vstd::prelude::*;
use crate::containers::{
    bitset_bytes, hashset_bytes, i32s_bytes, id_pool_bytes, law_counted_u64s_round_trip, lemma_i32_bits, lemma_i32s_layout,
    lemma_u64s_layout, qword_at, u64s_bytes, BitSet, HashSet, IdPool,
};
use crate::joint::{Joint, JointSim};
use crate::recording::decode::{i32_read, lemma_i32_read_back, lemma_split};
use crate::sensor::{law_sensor_round_trip, sensor_bytes, Sensor};
use crate::shape::{ChainShape, Shape};
use crate::snapshot::{
    after, count_ok, current_header, law_current_header_compatible, law_snap_header_round_trip, lemma_word_at_encoded,
    snap_header_bytes, value_at, word_at, GRAPH_COLOR_COUNT,
};
use crate::snapshot_bodies::{
    body_image, contact_image, contact_sim_image, law_body_round_trip, law_contact_round_trip, BodyView, Contact,
    ContactSim,
};
use crate::snapshot_joints::{joint_bytes, joint_sim_bytes, law_joint_round_trip, lemma_u32s_len, sim_words, joint_words};
use crate::snapshot_shapes::{geometry_payload_len, law_shape_round_trip, lemma_geometry_payload_len, shape_image};
use crate::snapshot_structs::{
    chain_bytes, island_bytes, island_read_back, law_chain_round_trip, lemma_material_decode, lemma_materials_layout, material_at, law_island_round_trip, Island,
};
use crate::snapshot_tree::{
    law_tree_round_trip, law_world_config_round_trip, tree_image, world_config_image, world_config_read, DynamicTree,
    DynamicTreeView, WorldConfig,
};
use crate::snapshot_world::{
    body_sim_run_image, body_state_run_image, contact_sim_run_image, island_sim_run_image, joint_sim_run_image,
    law_body_sim_run_round_trip, law_body_state_run_round_trip, law_contact_sim_run_round_trip,
    law_island_sim_run_round_trip, law_joint_sim_run_round_trip, solver_set_image, solver_set_read, SolverSetView,
};
use crate::world::{Body, BroadPhase, GraphColor, SolverSet, World};
use crate::world_image::{
    world_image_bytes, world_pools_image, bitset_run_image, broad_phase_image, graph_color_image, graph_color_run_image, solver_set_fits, tree_run_image,
    world_tables_image,
};
use crate::world_restore::{
    bitset_step, body_step, chain_step, contact_step, hashset_step, island_step, joint_step, move_array_step,
    sensor_step, shape_step, solver_set_step, tree_step, BitSetView, ChainView, HashSetView, IslandView, SensorView,
    broad_phase_step, graph_color_run_step, graph_color_step, tables_step, GraphColorView, TREE_COUNT,
    header_accepted, header_step, law_id_pool_step, world_holds, pools_step, world_image_read, IdPoolView, WorldImage,
};
use crate::joint::AWAKE_SET;
use crate::world_hash::{
    bodies_located, constraints_located, contact_sim_of, deep_bodies_upto, deep_contacts_upto, deep_joints_upto,
    deep_state_hash, joint_sim_of, state_hash, state_hash_upto,
};
use crate::sensor::NULL_INDEX;
use crate::write::{i32_bytes, le_value, materials_bytes, str_bytes, REC_MAX_STR_LEN};
use vstd::utf8::{encode_utf8, is_ascii_chars};

verus! {

broadcast use crate::write::lemma_le_bytes_len;

// That a world's image reads back as the world: record by record, run by
// run, table by table, and then the whole image.

/// A body slot as its image gives it back: user data is not written.
pub open spec fn body_image_view(b: Body) -> BodyView {
    BodyView { user_data: 0, ..b@ }
}

/// A shape slot as its image gives it back: user data is not written.
pub open spec fn shape_image_view(s: Shape) -> Shape {
    Shape { user_data: 0, ..s }
}

/// A joint slot as its image gives it back: user data is not written.
pub open spec fn joint_image_view(j: Joint) -> Joint {
    Joint { user_data: 0, ..j }
}

/// A body whose name the image holds whole: ASCII, and not longer than
/// a recorded string.
pub open spec fn body_fits(b: Body) -> bool {
    is_ascii_chars(b.name@) && b.name@.len() <= REC_MAX_STR_LEN
}

proof fn law_body_step(x: Body, d: Seq<u8>, c: int)
    requires
        body_fits(x),
        0 <= c,
        c + body_image(x@).len() <= d.len(),
        d.subrange(c, c + body_image(x@).len()) == body_image(x@),
    ensures
        body_image(x@).len() >= 60,
        body_step(d, c) == Some((body_image_view(x), c + body_image(x@).len())),
{
    vstd::utf8::is_ascii_chars_encode_utf8(x@.name);
    assert(str_bytes(encode_utf8(x@.name)).len() == 2 + x@.name.len());
    assert(body_image(x@).len() == 86 + 2 + x@.name.len());
    law_body_round_trip(x@, d, c);
}

proof fn law_shape_step(x: Shape, d: Seq<u8>, c: int)
    requires
        0 <= c,
        c + shape_image(x).len() <= d.len(),
        d.subrange(c, c + shape_image(x).len()) == shape_image(x),
    ensures
        shape_image(x).len() >= 80,
        shape_step(d, c) == Some((shape_image_view(x), c + shape_image(x).len())),
{
    lemma_geometry_payload_len(x.geometry);
    assert(shape_image(x).len() == 137 + geometry_payload_len(x.geometry));
    law_shape_round_trip(x, d, c);
}

proof fn law_contact_step(x: Contact, d: Seq<u8>, c: int)
    requires
        0 <= c,
        c + contact_image(x).len() <= d.len(),
        d.subrange(c, c + contact_image(x).len()) == contact_image(x),
    ensures
        contact_image(x).len() >= 60,
        contact_step(d, c) == Some((x, c + contact_image(x).len())),
{
    assert(contact_image(x).len() == 64);
    law_contact_round_trip(x, d, c);
}

proof fn law_joint_step(x: Joint, d: Seq<u8>, c: int)
    requires
        0 <= c,
        c + joint_bytes(x).len() <= d.len(),
        d.subrange(c, c + joint_bytes(x).len()) == joint_bytes(x),
    ensures
        joint_bytes(x).len() >= 40,
        joint_step(d, c) == Some((joint_image_view(x), c + joint_bytes(x).len())),
{
    lemma_u32s_len(joint_words(x));
    assert(joint_bytes(x).len() == 64);
    law_joint_round_trip(x, d, c);
}

/// A chain whose two lists can each be counted in an `i32`.
pub open spec fn chain_fits(x: ChainShape) -> bool {
    x.shape_indices@.len() <= i32::MAX && x.materials@.len() <= i32::MAX
}

pub open spec fn chain_image(x: ChainShape) -> Seq<u8> {
    chain_bytes(x.id, x.body_id, x.next_chain_id, x.generation, x.shape_indices@, x.materials@)
}

proof fn law_chain_step(x: ChainShape, d: Seq<u8>, c: int)
    requires
        chain_fits(x),
        0 <= c,
        c + chain_image(x).len() <= d.len(),
        d.subrange(c, c + chain_image(x).len()) == chain_image(x),
    ensures
        chain_image(x).len() >= 20,
        chain_step(d, c) == Some((x@, c + chain_image(x).len())),
{
    law_chain_round_trip(x.id, x.body_id, x.next_chain_id, x.generation, x.shape_indices@, x.materials@, d, c);
    let n = x.shape_indices@.len() as int;
    let m = x.materials@.len() as int;
    assert(chain_image(x).len() == 22 + 4 * n + 28 * m);
    let s0 = (true, c);
    let s1 = after(d, s0.0, s0.1, 4);
    let s2 = after(d, s1.0, s1.1, 4);
    let s3 = after(d, s2.0, s2.1, 4);
    let s4 = after(d, s3.0, s3.1, 2);
    let nl = value_at(d, s4.0, s4.1, 4) as u32 as i32;
    let s5 = after(d, s4.0, s4.1, 4);
    let s6 = if s5.0 { (true, s5.1 + 4 * nl) } else { s5 };
    let ml = value_at(d, s6.0, s6.1, 4) as u32 as i32;
    let s7 = after(d, s6.0, s6.1, 4);
    assert(s4 == (true, c + 14));
    assert(s5 == (true, c + 18));
    assert(s7 == (true, c + 22 + 4 * n));
    let pair = chain_step(d, c)->0;
    let v = pair.0;
    assert(v.shape_indices =~= x.shape_indices@);
    assert forall|k: int| 0 <= k < m implies v.materials[k] == x.materials@[k] by {
        let e = chain_image(x);
        let b7 = c + 22 + 4 * n;
        lemma_materials_layout(x.materials@, k);
        assert(d.subrange(b7 + 28 * k, b7 + 28 * k + 28) =~= e.subrange(22 + 4 * n + 28 * k, 50 + 4 * n + 28 * k));
        assert(e.subrange(22 + 4 * n + 28 * k, 50 + 4 * n + 28 * k) =~= materials_bytes(x.materials@).subrange(28 * k, 28 * k + 28));
        lemma_material_decode(d, b7 + 28 * k, x.materials@[k]);
        assert(material_at(d, true, b7, k) == material_at(d, true, b7 + 28 * k, 0));
    }
    assert(v.materials =~= x.materials@);
}

/// A sensor whose three visitor lists can each be counted in an `i32`.
pub open spec fn sensor_fits(x: Sensor) -> bool {
    x.hits@.len() <= i32::MAX && x.overlaps1@.len() <= i32::MAX && x.overlaps2@.len() <= i32::MAX
}

pub open spec fn sensor_image(x: Sensor) -> Seq<u8> {
    sensor_bytes(x.shape_id, x.hits@, x.overlaps1@, x.overlaps2@)
}

proof fn law_sensor_step(x: Sensor, d: Seq<u8>, c: int)
    requires
        sensor_fits(x),
        0 <= c,
        c + sensor_image(x).len() <= d.len(),
        d.subrange(c, c + sensor_image(x).len()) == sensor_image(x),
    ensures
        sensor_image(x).len() >= 16,
        sensor_step(d, c) == Some((x@, c + sensor_image(x).len())),
{
    crate::sensor::lemma_visitor_run_len(x.hits@);
    crate::sensor::lemma_visitor_run_len(x.overlaps1@);
    crate::sensor::lemma_visitor_run_len(x.overlaps2@);
    law_sensor_round_trip(x.shape_id, x.hits@, x.overlaps1@, x.overlaps2@, d, c);
}

/// An island whose three lists can each be counted in an `i32`.
pub open spec fn island_fits(x: Island) -> bool {
    x.bodies@.len() <= i32::MAX && x.contacts@.len() <= i32::MAX && x.joints@.len() <= i32::MAX
}

pub open spec fn island_image(x: Island) -> Seq<u8> {
    island_bytes(x.set_index, x.local_index, x.island_id, x.constraint_remove_count, x.bodies@, x.contacts@, x.joints@)
}

proof fn law_island_step(x: Island, d: Seq<u8>, c: int)
    requires
        island_fits(x),
        0 <= c,
        c + island_image(x).len() <= d.len(),
        d.subrange(c, c + island_image(x).len()) == island_image(x),
    ensures
        island_image(x).len() >= 16,
        island_step(d, c) == Some((x@, c + island_image(x).len())),
{
    law_island_round_trip(x.set_index, x.local_index, x.island_id, x.constraint_remove_count, x.bodies@, x.contacts@,
        x.joints@, d, c);
    let pair = island_step(d, c)->0;
    let v = pair.0;
    assert(v.bodies =~= x.bodies@);
    assert(v.contacts =~= x.contacts@);
    assert(v.joints =~= x.joints@);
}

proof fn law_tree_step(x: DynamicTree, d: Seq<u8>, c: int)
    requires
        x.nodes@.len() <= i32::MAX,
        0 <= c,
        c + tree_image(x@).len() <= d.len(),
        d.subrange(c, c + tree_image(x@).len()) == tree_image(x@),
    ensures
        tree_step(d, c) == Some((x@, c + tree_image(x@).len())),
{
    law_tree_round_trip(x@, d, c);
}

/// A bit set's image reads back as the set, whatever follows it: its
/// block count and blocks, the reader ending where the image ends.
pub proof fn law_bitset_step(x: BitSet, d: Seq<u8>, c: int)
    requires
        x.blocks@.len() <= i32::MAX,
        0 <= c,
        c + bitset_bytes(x.block_count, x.blocks@).len() <= d.len(),
        d.subrange(c, c + bitset_bytes(x.block_count, x.blocks@).len()) == bitset_bytes(x.block_count, x.blocks@),
    ensures
        bitset_bytes(x.block_count, x.blocks@).len() == 8 + 8 * x.blocks@.len(),
        bitset_step(d, c) == Some((x@, c + bitset_bytes(x.block_count, x.blocks@).len())),
{
    let n = x.blocks@.len();
    if n > 0 {
        lemma_u64s_layout(x.blocks@, 0);
    } else {
        assert(u64s_bytes(x.blocks@) =~= Seq::empty());
    }
    assert(bitset_bytes(x.block_count, x.blocks@).len() == 8 + 8 * n);
    law_counted_u64s_round_trip(x.block_count, x.blocks@, d, c);
    assert(c + 8 <= d.len());
    assert(word_at(d, true, c, 1) == le_value(d.subrange(c + 4, c + 8)) as u32);
    assert(value_at(d, true, c + 4, 4) == le_value(d.subrange(c + 4, c + 8)));
    assert(word_at(d, true, c, 0) == le_value(d.subrange(c, c + 4)) as u32);
    assert(value_at(d, true, c, 4) == le_value(d.subrange(c, c + 4)));
    assert forall|k: int| 0 <= k < n implies qword_at(d, true, c + 8, k) == x.blocks@[k] by {
        let e = bitset_bytes(x.block_count, x.blocks@);
        lemma_u64s_layout(x.blocks@, k);
        assert(d.subrange(c + 8 + 8 * k, c + 16 + 8 * k) =~= e.subrange(8 + 8 * k, 16 + 8 * k));
        assert(e.subrange(8 + 8 * k, 16 + 8 * k) =~= u64s_bytes(x.blocks@).subrange(8 * k, 8 * k + 8));
        crate::containers::lemma_u64_round_trip(x.blocks@[k]);
    }
    assert(Seq::new(n as nat, |k: int| qword_at(d, true, c + 8, k)) =~= x.blocks@);
}

/// A key set's image reads back as the set, whatever follows it: its key
/// count and slots, the reader ending where the image ends.
pub proof fn law_hashset_step(x: HashSet, d: Seq<u8>, c: int)
    requires
        x.items@.len() <= i32::MAX,
        0 <= c,
        c + hashset_bytes(x.count, x.items@).len() <= d.len(),
        d.subrange(c, c + hashset_bytes(x.count, x.items@).len()) == hashset_bytes(x.count, x.items@),
    ensures
        hashset_bytes(x.count, x.items@).len() == 8 + 8 * x.items@.len(),
        hashset_step(d, c) == Some((x@, c + hashset_bytes(x.count, x.items@).len())),
{
    let n = x.items@.len();
    if n > 0 {
        lemma_u64s_layout(x.items@, 0);
    } else {
        assert(u64s_bytes(x.items@) =~= Seq::empty());
    }
    assert(hashset_bytes(x.count, x.items@).len() == 8 + 8 * n);
    law_counted_u64s_round_trip(x.count, x.items@, d, c);
    assert(c + 8 <= d.len());
    assert(word_at(d, true, c, 1) == le_value(d.subrange(c + 4, c + 8)) as u32);
    assert(value_at(d, true, c + 4, 4) == le_value(d.subrange(c + 4, c + 8)));
    assert(word_at(d, true, c, 0) == le_value(d.subrange(c, c + 4)) as u32);
    assert(value_at(d, true, c, 4) == le_value(d.subrange(c, c + 4)));
    assert forall|k: int| 0 <= k < n implies qword_at(d, true, c + 8, k) == x.items@[k] by {
        let e = hashset_bytes(x.count, x.items@);
        lemma_u64s_layout(x.items@, k);
        assert(d.subrange(c + 8 + 8 * k, c + 16 + 8 * k) =~= e.subrange(8 + 8 * k, 16 + 8 * k));
        assert(e.subrange(8 + 8 * k, 16 + 8 * k) =~= u64s_bytes(x.items@).subrange(8 * k, 8 * k + 8));
        crate::containers::lemma_u64_round_trip(x.items@[k]);
    }
    assert(Seq::new(n as nat, |k: int| qword_at(d, true, c + 8, k)) =~= x.items@);
}

proof fn law_move_array_step(a: Seq<i32>, d: Seq<u8>, c: int)
    requires
        a.len() <= i32::MAX,
        0 <= c,
        c + 4 + i32s_bytes(a).len() <= d.len(),
        d.subrange(c, c + 4 + i32s_bytes(a).len()) == i32_bytes(a.len() as i32) + i32s_bytes(a),
    ensures
        i32s_bytes(a).len() == 4 * a.len(),
        move_array_step(d, c) == Some((a, c + 4 + i32s_bytes(a).len())),
{
    let n = a.len() as int;
    if n > 0 {
        lemma_i32s_layout(a, 0);
    } else {
        assert(i32s_bytes(a) =~= Seq::empty());
    }
    lemma_split(d, c, i32_bytes(n as i32), i32s_bytes(a));
    lemma_i32_read_back(n as i32, d, c);
    assert forall|k: int| 0 <= k < n implies #[trigger] (word_at(d, true, c + 4, k) as i32) == a[k] by {
        lemma_i32s_layout(a, k);
        assert(d.subrange(c + 4 + 4 * k, c + 4 + 4 * k + 4) =~= i32s_bytes(a).subrange(4 * k, 4 * k + 4));
        lemma_word_at_encoded(d, c + 4, k, a[k] as u32);
        lemma_i32_bits(a[k]);
    }
    assert(Seq::new(n as nat, |k: int| word_at(d, true, c + 4, k) as i32) =~= a);
}

proof fn lemma_body_sim_run_len(s: Seq<crate::snapshot_bodies::BodySim>)
    ensures
        body_sim_run_image(s).len() == 96 * s.len(),
    decreases s.len(),
{
    if s.len() > 0 {
        lemma_body_sim_run_len(s.drop_last());
        assert(crate::snapshot_bodies::body_sim_image(s.last()).len() == 96);
    }
}

proof fn lemma_body_state_run_len(s: Seq<crate::snapshot_bodies::BodyState>)
    ensures
        body_state_run_image(s).len() == 32 * s.len(),
    decreases s.len(),
{
    if s.len() > 0 {
        lemma_body_state_run_len(s.drop_last());
        assert(crate::snapshot_bodies::body_state_image(s.last()).len() == 32);
    }
}

proof fn lemma_contact_sim_run_len(s: Seq<ContactSim>)
    ensures
        contact_sim_run_image(s).len() == 206 * s.len(),
    decreases s.len(),
{
    if s.len() > 0 {
        lemma_contact_sim_run_len(s.drop_last());
        assert(contact_sim_image(s.last()).len() == 206);
    }
}

proof fn lemma_island_sim_run_len(s: Seq<crate::snapshot_structs::IslandSim>)
    ensures
        island_sim_run_image(s).len() == 4 * s.len(),
    decreases s.len(),
{
    if s.len() > 0 {
        lemma_island_sim_run_len(s.drop_last());
        assert(crate::snapshot_world::island_sim_image(s.last()).len() == 4);
    }
}

proof fn lemma_joint_sim_run_len(s: Seq<JointSim>)
    ensures
        joint_sim_run_image(s).len() >= 88 * s.len(),
    decreases s.len(),
{
    if s.len() > 0 {
        lemma_u32s_len(sim_words(s.last()));
        lemma_joint_sim_run_len(s.drop_last());
        assert(joint_sim_bytes(s.last()).len() >= 88);
    }
}

/// Where the parts of a solver set's image sit, and what each reads back as.
#[verifier::spinoff_prover]
#[verifier::rlimit(80)]
proof fn lemma_solver_set_parts(x: SolverSet, d: Seq<u8>, c: int)
    requires
        solver_set_fits(x),
        0 <= c,
        c + solver_set_image(x@).len() <= d.len(),
        d.subrange(c, c + solver_set_image(x@).len()) == solver_set_image(x@),
    ensures
        ({
            let v = x@;
            let jl = joint_sim_run_image(v.joint_sims).len() as int;
            let o1 = c + 4;
            let o2 = o1 + 4;
            let o3 = o2 + 96 * v.body_sims.len();
            let o4 = o3 + 4;
            let o5 = o4 + 32 * v.body_states.len();
            let o6 = o5 + 4;
            let o7 = o6 + jl;
            let o8 = o7 + 4;
            let o9 = o8 + 206 * v.contact_sims.len();
            let o10 = o9 + 4;
            let o11 = o10 + 4 * v.island_sims.len();
            &&& jl >= 88 * v.joint_sims.len()
            &&& o11 == c + solver_set_image(v).len()
            &&& i32_read(d, true, c) == (v.set_index, (true, o1))
            &&& i32_read(d, true, o1) == (v.body_sims.len() as i32, (true, o2))
            &&& crate::snapshot_world::body_sim_run_read(d, true, o2, v.body_sims.len()) == (v.body_sims, (true, o3))
            &&& i32_read(d, true, o3) == (v.body_states.len() as i32, (true, o4))
            &&& crate::snapshot_world::body_state_run_read(d, true, o4, v.body_states.len()) == (v.body_states, (true, o5))
            &&& i32_read(d, true, o5) == (v.joint_sims.len() as i32, (true, o6))
            &&& crate::snapshot_world::joint_sim_run_read(d, true, o6, v.joint_sims.len()) == (v.joint_sims, (true, o7))
            &&& i32_read(d, true, o7) == (v.contact_sims.len() as i32, (true, o8))
            &&& crate::snapshot_world::contact_sim_run_read(d, true, o8, v.contact_sims.len()) == (v.contact_sims, (true, o9))
            &&& i32_read(d, true, o9) == (v.island_sims.len() as i32, (true, o10))
            &&& crate::snapshot_world::island_sim_run_read(d, true, o10, v.island_sims.len()) == (v.island_sims, (true, o11))
        }),
{
    let v = x@;
    lemma_body_sim_run_len(v.body_sims);
    lemma_body_state_run_len(v.body_states);
    lemma_joint_sim_run_len(v.joint_sims);
    lemma_contact_sim_run_len(v.contact_sims);
    lemma_island_sim_run_len(v.island_sims);
    let p0 = i32_bytes(v.set_index);
    let p1 = i32_bytes(v.body_sims.len() as i32);
    let p2 = body_sim_run_image(v.body_sims);
    let p3 = i32_bytes(v.body_states.len() as i32);
    let p4 = body_state_run_image(v.body_states);
    let p5 = i32_bytes(v.joint_sims.len() as i32);
    let p6 = joint_sim_run_image(v.joint_sims);
    let p7 = i32_bytes(v.contact_sims.len() as i32);
    let p8 = contact_sim_run_image(v.contact_sims);
    let p9 = i32_bytes(v.island_sims.len() as i32);
    let p10 = island_sim_run_image(v.island_sims);
    let q0 = p0;
    let q1 = q0 + p1;
    let q2 = q1 + p2;
    let q3 = q2 + p3;
    let q4 = q3 + p4;
    let q5 = q4 + p5;
    let q6 = q5 + p6;
    let q7 = q6 + p7;
    let q8 = q7 + p8;
    let q9 = q8 + p9;
    let q10 = q9 + p10;
    lemma_split(d, c, q9, p10);
    lemma_split(d, c, q8, p9);
    lemma_split(d, c, q7, p8);
    lemma_split(d, c, q6, p7);
    lemma_split(d, c, q5, p6);
    lemma_split(d, c, q4, p5);
    lemma_split(d, c, q3, p4);
    lemma_split(d, c, q2, p3);
    lemma_split(d, c, q1, p2);
    lemma_split(d, c, q0, p1);
    assert(q10 == solver_set_image(v));
    lemma_i32_read_back(v.set_index, d, c);
    lemma_i32_read_back(v.body_sims.len() as i32, d, c + q0.len());
    law_body_sim_run_round_trip(v.body_sims, d, c + q1.len());
    lemma_i32_read_back(v.body_states.len() as i32, d, c + q2.len());
    law_body_state_run_round_trip(v.body_states, d, c + q3.len());
    lemma_i32_read_back(v.joint_sims.len() as i32, d, c + q4.len());
    law_joint_sim_run_round_trip(v.joint_sims, d, c + q5.len());
    lemma_i32_read_back(v.contact_sims.len() as i32, d, c + q6.len());
    law_contact_sim_run_round_trip(v.contact_sims, d, c + q7.len());
    lemma_i32_read_back(v.island_sims.len() as i32, d, c + q8.len());
    law_island_sim_run_round_trip(v.island_sims, d, c + q9.len());
}

#[verifier::spinoff_prover]
#[verifier::rlimit(40)]
proof fn law_solver_set_step(x: SolverSet, d: Seq<u8>, c: int)
    requires
        solver_set_fits(x),
        0 <= c,
        c + solver_set_image(x@).len() <= d.len(),
        d.subrange(c, c + solver_set_image(x@).len()) == solver_set_image(x@),
    ensures
        solver_set_image(x@).len() >= 4,
        solver_set_step(d, c) == Some((x@, c + solver_set_image(x@).len())),
{
    reveal(solver_set_step);
    lemma_solver_set_parts(x, d, c);
}
/// A tree whose nodes can be counted in an `i32`.
pub open spec fn tree_fits(x: DynamicTree) -> bool {
    x.nodes@.len() <= i32::MAX
}

/// A bit set whose blocks can be counted in an `i32`.
pub open spec fn bitset_fits(x: BitSet) -> bool {
    x.blocks@.len() <= i32::MAX
}

/// What a run of solver set records reads back as.
pub open spec fn solver_set_views(s: Seq<SolverSet>) -> Seq<SolverSetView> {
    Seq::new(s.len(), |k: int| s[k]@)
}

#[verifier::spinoff_prover]
#[verifier::rlimit(80)]
proof fn law_solver_set_run_steps(s: Seq<SolverSet>, d: Seq<u8>, c: int)
    requires
        forall|k: int| 0 <= k < s.len() ==> solver_set_fits(#[trigger] s[k]),
        0 <= c,
        c + crate::world_image::solver_set_run_image(s).len() <= d.len(),
        d.subrange(c, c + crate::world_image::solver_set_run_image(s).len()) == crate::world_image::solver_set_run_image(s),
    ensures
        crate::world_restore::solver_set_run_step(d, c, s.len()) == Some((solver_set_views(s), c + crate::world_image::solver_set_run_image(s).len())),
        crate::world_image::solver_set_run_image(s).len() >= 4 * s.len(),
    decreases s.len(),
{
    if s.len() > 0 {
        let prev = s.drop_last();
        let p = crate::world_image::solver_set_run_image(prev);
        lemma_split(d, c, p, solver_set_image(s.last()@));
        assert forall|k: int| 0 <= k < prev.len() implies solver_set_fits(#[trigger] prev[k]) by {
            assert(prev[k] == s[k]);
        }
        law_solver_set_run_steps(prev, d, c);
        law_solver_set_step(s.last(), d, c + p.len());
        assert(solver_set_views(prev).push(s.last()@) =~= solver_set_views(s));
    } else {
        assert(solver_set_views(s) =~= Seq::empty());
    }
}

#[verifier::spinoff_prover]
proof fn law_solver_set_table_steps(s: Seq<SolverSet>, d: Seq<u8>, c: int, elem: int)
    requires
        s.len() <= i32::MAX,
        forall|k: int| 0 <= k < s.len() ==> solver_set_fits(#[trigger] s[k]),
        0 <= elem <= 4,
        0 <= c,
        c + (i32_bytes(s.len() as i32) + crate::world_image::solver_set_run_image(s)).len() <= d.len(),
        d.subrange(c, c + (i32_bytes(s.len() as i32) + crate::world_image::solver_set_run_image(s)).len())
            == i32_bytes(s.len() as i32) + crate::world_image::solver_set_run_image(s),
    ensures
        crate::world_restore::solver_set_table_step(d, c, elem) == Some((
            solver_set_views(s),
            c + (i32_bytes(s.len() as i32) + crate::world_image::solver_set_run_image(s)).len(),
        )),
{
    let n = s.len() as int;
    lemma_split(d, c, i32_bytes(n as i32), crate::world_image::solver_set_run_image(s));
    lemma_i32_read_back(n as i32, d, c);
    law_solver_set_run_steps(s, d, c + 4);
    assert(n * elem <= 4 * n) by (nonlinear_arith)
        requires
            0 <= elem <= 4,
            0 <= n,
    ;
}

/// What a run of body records reads back as.
pub open spec fn body_views(s: Seq<Body>) -> Seq<BodyView> {
    Seq::new(s.len(), |k: int| body_image_view(s[k]))
}

#[verifier::spinoff_prover]
#[verifier::rlimit(80)]
proof fn law_body_run_steps(s: Seq<Body>, d: Seq<u8>, c: int)
    requires
        forall|k: int| 0 <= k < s.len() ==> body_fits(#[trigger] s[k]),
        0 <= c,
        c + crate::world_image::body_run_image(s).len() <= d.len(),
        d.subrange(c, c + crate::world_image::body_run_image(s).len()) == crate::world_image::body_run_image(s),
    ensures
        crate::world_restore::body_run_step(d, c, s.len()) == Some((body_views(s), c + crate::world_image::body_run_image(s).len())),
        crate::world_image::body_run_image(s).len() >= 60 * s.len(),
    decreases s.len(),
{
    if s.len() > 0 {
        let prev = s.drop_last();
        let p = crate::world_image::body_run_image(prev);
        lemma_split(d, c, p, body_image(s.last()@));
        assert forall|k: int| 0 <= k < prev.len() implies body_fits(#[trigger] prev[k]) by {
            assert(prev[k] == s[k]);
        }
        law_body_run_steps(prev, d, c);
        law_body_step(s.last(), d, c + p.len());
        assert(body_views(prev).push(body_image_view(s.last())) =~= body_views(s));
    } else {
        assert(body_views(s) =~= Seq::empty());
    }
}

#[verifier::spinoff_prover]
proof fn law_body_table_steps(s: Seq<Body>, d: Seq<u8>, c: int, elem: int)
    requires
        s.len() <= i32::MAX,
        forall|k: int| 0 <= k < s.len() ==> body_fits(#[trigger] s[k]),
        0 <= elem <= 60,
        0 <= c,
        c + (i32_bytes(s.len() as i32) + crate::world_image::body_run_image(s)).len() <= d.len(),
        d.subrange(c, c + (i32_bytes(s.len() as i32) + crate::world_image::body_run_image(s)).len())
            == i32_bytes(s.len() as i32) + crate::world_image::body_run_image(s),
    ensures
        crate::world_restore::body_table_step(d, c, elem) == Some((
            body_views(s),
            c + (i32_bytes(s.len() as i32) + crate::world_image::body_run_image(s)).len(),
        )),
{
    let n = s.len() as int;
    lemma_split(d, c, i32_bytes(n as i32), crate::world_image::body_run_image(s));
    lemma_i32_read_back(n as i32, d, c);
    law_body_run_steps(s, d, c + 4);
    assert(n * elem <= 60 * n) by (nonlinear_arith)
        requires
            0 <= elem <= 60,
            0 <= n,
    ;
}

/// What a run of shape records reads back as.
pub open spec fn shape_views(s: Seq<Shape>) -> Seq<Shape> {
    Seq::new(s.len(), |k: int| shape_image_view(s[k]))
}

#[verifier::spinoff_prover]
#[verifier::rlimit(80)]
proof fn law_shape_run_steps(s: Seq<Shape>, d: Seq<u8>, c: int)
    requires
        0 <= c,
        c + crate::world_image::shape_run_image(s).len() <= d.len(),
        d.subrange(c, c + crate::world_image::shape_run_image(s).len()) == crate::world_image::shape_run_image(s),
    ensures
        crate::world_restore::shape_run_step(d, c, s.len()) == Some((shape_views(s), c + crate::world_image::shape_run_image(s).len())),
        crate::world_image::shape_run_image(s).len() >= 80 * s.len(),
    decreases s.len(),
{
    if s.len() > 0 {
        let prev = s.drop_last();
        let p = crate::world_image::shape_run_image(prev);
        lemma_split(d, c, p, shape_image(s.last()));
        law_shape_run_steps(prev, d, c);
        law_shape_step(s.last(), d, c + p.len());
        assert(shape_views(prev).push(shape_image_view(s.last())) =~= shape_views(s));
    } else {
        assert(shape_views(s) =~= Seq::empty());
    }
}

#[verifier::spinoff_prover]
proof fn law_shape_table_steps(s: Seq<Shape>, d: Seq<u8>, c: int, elem: int)
    requires
        s.len() <= i32::MAX,
        0 <= elem <= 80,
        0 <= c,
        c + (i32_bytes(s.len() as i32) + crate::world_image::shape_run_image(s)).len() <= d.len(),
        d.subrange(c, c + (i32_bytes(s.len() as i32) + crate::world_image::shape_run_image(s)).len())
            == i32_bytes(s.len() as i32) + crate::world_image::shape_run_image(s),
    ensures
        crate::world_restore::shape_table_step(d, c, elem) == Some((
            shape_views(s),
            c + (i32_bytes(s.len() as i32) + crate::world_image::shape_run_image(s)).len(),
        )),
{
    let n = s.len() as int;
    lemma_split(d, c, i32_bytes(n as i32), crate::world_image::shape_run_image(s));
    lemma_i32_read_back(n as i32, d, c);
    law_shape_run_steps(s, d, c + 4);
    assert(n * elem <= 80 * n) by (nonlinear_arith)
        requires
            0 <= elem <= 80,
            0 <= n,
    ;
}

/// What a run of contact records reads back as.
pub open spec fn contact_views(s: Seq<Contact>) -> Seq<Contact> {
    Seq::new(s.len(), |k: int| s[k])
}

#[verifier::spinoff_prover]
#[verifier::rlimit(80)]
proof fn law_contact_run_steps(s: Seq<Contact>, d: Seq<u8>, c: int)
    requires
        0 <= c,
        c + crate::world_image::contact_run_image(s).len() <= d.len(),
        d.subrange(c, c + crate::world_image::contact_run_image(s).len()) == crate::world_image::contact_run_image(s),
    ensures
        crate::world_restore::contact_run_step(d, c, s.len()) == Some((contact_views(s), c + crate::world_image::contact_run_image(s).len())),
        crate::world_image::contact_run_image(s).len() >= 60 * s.len(),
    decreases s.len(),
{
    if s.len() > 0 {
        let prev = s.drop_last();
        let p = crate::world_image::contact_run_image(prev);
        lemma_split(d, c, p, contact_image(s.last()));
        law_contact_run_steps(prev, d, c);
        law_contact_step(s.last(), d, c + p.len());
        assert(contact_views(prev).push(s.last()) =~= contact_views(s));
    } else {
        assert(contact_views(s) =~= Seq::empty());
    }
}

#[verifier::spinoff_prover]
proof fn law_contact_table_steps(s: Seq<Contact>, d: Seq<u8>, c: int, elem: int)
    requires
        s.len() <= i32::MAX,
        0 <= elem <= 60,
        0 <= c,
        c + (i32_bytes(s.len() as i32) + crate::world_image::contact_run_image(s)).len() <= d.len(),
        d.subrange(c, c + (i32_bytes(s.len() as i32) + crate::world_image::contact_run_image(s)).len())
            == i32_bytes(s.len() as i32) + crate::world_image::contact_run_image(s),
    ensures
        crate::world_restore::contact_table_step(d, c, elem) == Some((
            contact_views(s),
            c + (i32_bytes(s.len() as i32) + crate::world_image::contact_run_image(s)).len(),
        )),
{
    let n = s.len() as int;
    lemma_split(d, c, i32_bytes(n as i32), crate::world_image::contact_run_image(s));
    lemma_i32_read_back(n as i32, d, c);
    law_contact_run_steps(s, d, c + 4);
    assert(n * elem <= 60 * n) by (nonlinear_arith)
        requires
            0 <= elem <= 60,
            0 <= n,
    ;
}

/// What a run of joint records reads back as.
pub open spec fn joint_views(s: Seq<Joint>) -> Seq<Joint> {
    Seq::new(s.len(), |k: int| joint_image_view(s[k]))
}

#[verifier::spinoff_prover]
#[verifier::rlimit(80)]
proof fn law_joint_run_steps(s: Seq<Joint>, d: Seq<u8>, c: int)
    requires
        0 <= c,
        c + crate::world_image::joint_run_image(s).len() <= d.len(),
        d.subrange(c, c + crate::world_image::joint_run_image(s).len()) == crate::world_image::joint_run_image(s),
    ensures
        crate::world_restore::joint_run_step(d, c, s.len()) == Some((joint_views(s), c + crate::world_image::joint_run_image(s).len())),
        crate::world_image::joint_run_image(s).len() >= 40 * s.len(),
    decreases s.len(),
{
    if s.len() > 0 {
        let prev = s.drop_last();
        let p = crate::world_image::joint_run_image(prev);
        lemma_split(d, c, p, joint_bytes(s.last()));
        law_joint_run_steps(prev, d, c);
        law_joint_step(s.last(), d, c + p.len());
        assert(joint_views(prev).push(joint_image_view(s.last())) =~= joint_views(s));
    } else {
        assert(joint_views(s) =~= Seq::empty());
    }
}

#[verifier::spinoff_prover]
proof fn law_joint_table_steps(s: Seq<Joint>, d: Seq<u8>, c: int, elem: int)
    requires
        s.len() <= i32::MAX,
        0 <= elem <= 40,
        0 <= c,
        c + (i32_bytes(s.len() as i32) + crate::world_image::joint_run_image(s)).len() <= d.len(),
        d.subrange(c, c + (i32_bytes(s.len() as i32) + crate::world_image::joint_run_image(s)).len())
            == i32_bytes(s.len() as i32) + crate::world_image::joint_run_image(s),
    ensures
        crate::world_restore::joint_table_step(d, c, elem) == Some((
            joint_views(s),
            c + (i32_bytes(s.len() as i32) + crate::world_image::joint_run_image(s)).len(),
        )),
{
    let n = s.len() as int;
    lemma_split(d, c, i32_bytes(n as i32), crate::world_image::joint_run_image(s));
    lemma_i32_read_back(n as i32, d, c);
    law_joint_run_steps(s, d, c + 4);
    assert(n * elem <= 40 * n) by (nonlinear_arith)
        requires
            0 <= elem <= 40,
            0 <= n,
    ;
}

/// What a run of chain records reads back as.
pub open spec fn chain_views(s: Seq<ChainShape>) -> Seq<ChainView> {
    Seq::new(s.len(), |k: int| s[k]@)
}

#[verifier::spinoff_prover]
#[verifier::rlimit(80)]
proof fn law_chain_run_steps(s: Seq<ChainShape>, d: Seq<u8>, c: int)
    requires
        forall|k: int| 0 <= k < s.len() ==> chain_fits(#[trigger] s[k]),
        0 <= c,
        c + crate::world_image::chain_run_image(s).len() <= d.len(),
        d.subrange(c, c + crate::world_image::chain_run_image(s).len()) == crate::world_image::chain_run_image(s),
    ensures
        crate::world_restore::chain_run_step(d, c, s.len()) == Some((chain_views(s), c + crate::world_image::chain_run_image(s).len())),
        crate::world_image::chain_run_image(s).len() >= 20 * s.len(),
    decreases s.len(),
{
    if s.len() > 0 {
        let prev = s.drop_last();
        let p = crate::world_image::chain_run_image(prev);
        lemma_split(d, c, p, chain_image(s.last()));
        assert forall|k: int| 0 <= k < prev.len() implies chain_fits(#[trigger] prev[k]) by {
            assert(prev[k] == s[k]);
        }
        law_chain_run_steps(prev, d, c);
        law_chain_step(s.last(), d, c + p.len());
        assert(chain_views(prev).push(s.last()@) =~= chain_views(s));
    } else {
        assert(chain_views(s) =~= Seq::empty());
    }
}

#[verifier::spinoff_prover]
proof fn law_chain_table_steps(s: Seq<ChainShape>, d: Seq<u8>, c: int, elem: int)
    requires
        s.len() <= i32::MAX,
        forall|k: int| 0 <= k < s.len() ==> chain_fits(#[trigger] s[k]),
        0 <= elem <= 20,
        0 <= c,
        c + (i32_bytes(s.len() as i32) + crate::world_image::chain_run_image(s)).len() <= d.len(),
        d.subrange(c, c + (i32_bytes(s.len() as i32) + crate::world_image::chain_run_image(s)).len())
            == i32_bytes(s.len() as i32) + crate::world_image::chain_run_image(s),
    ensures
        crate::world_restore::chain_table_step(d, c, elem) == Some((
            chain_views(s),
            c + (i32_bytes(s.len() as i32) + crate::world_image::chain_run_image(s)).len(),
        )),
{
    let n = s.len() as int;
    lemma_split(d, c, i32_bytes(n as i32), crate::world_image::chain_run_image(s));
    lemma_i32_read_back(n as i32, d, c);
    law_chain_run_steps(s, d, c + 4);
    assert(n * elem <= 20 * n) by (nonlinear_arith)
        requires
            0 <= elem <= 20,
            0 <= n,
    ;
}

/// What a run of sensor records reads back as.
pub open spec fn sensor_views(s: Seq<Sensor>) -> Seq<SensorView> {
    Seq::new(s.len(), |k: int| s[k]@)
}

#[verifier::spinoff_prover]
#[verifier::rlimit(80)]
proof fn law_sensor_run_steps(s: Seq<Sensor>, d: Seq<u8>, c: int)
    requires
        forall|k: int| 0 <= k < s.len() ==> sensor_fits(#[trigger] s[k]),
        0 <= c,
        c + crate::world_image::sensor_run_image(s).len() <= d.len(),
        d.subrange(c, c + crate::world_image::sensor_run_image(s).len()) == crate::world_image::sensor_run_image(s),
    ensures
        crate::world_restore::sensor_run_step(d, c, s.len()) == Some((sensor_views(s), c + crate::world_image::sensor_run_image(s).len())),
        crate::world_image::sensor_run_image(s).len() >= 16 * s.len(),
    decreases s.len(),
{
    if s.len() > 0 {
        let prev = s.drop_last();
        let p = crate::world_image::sensor_run_image(prev);
        lemma_split(d, c, p, sensor_image(s.last()));
        assert forall|k: int| 0 <= k < prev.len() implies sensor_fits(#[trigger] prev[k]) by {
            assert(prev[k] == s[k]);
        }
        law_sensor_run_steps(prev, d, c);
        law_sensor_step(s.last(), d, c + p.len());
        assert(sensor_views(prev).push(s.last()@) =~= sensor_views(s));
    } else {
        assert(sensor_views(s) =~= Seq::empty());
    }
}

#[verifier::spinoff_prover]
proof fn law_sensor_table_steps(s: Seq<Sensor>, d: Seq<u8>, c: int, elem: int)
    requires
        s.len() <= i32::MAX,
        forall|k: int| 0 <= k < s.len() ==> sensor_fits(#[trigger] s[k]),
        0 <= elem <= 16,
        0 <= c,
        c + (i32_bytes(s.len() as i32) + crate::world_image::sensor_run_image(s)).len() <= d.len(),
        d.subrange(c, c + (i32_bytes(s.len() as i32) + crate::world_image::sensor_run_image(s)).len())
            == i32_bytes(s.len() as i32) + crate::world_image::sensor_run_image(s),
    ensures
        crate::world_restore::sensor_table_step(d, c, elem) == Some((
            sensor_views(s),
            c + (i32_bytes(s.len() as i32) + crate::world_image::sensor_run_image(s)).len(),
        )),
{
    let n = s.len() as int;
    lemma_split(d, c, i32_bytes(n as i32), crate::world_image::sensor_run_image(s));
    lemma_i32_read_back(n as i32, d, c);
    law_sensor_run_steps(s, d, c + 4);
    assert(n * elem <= 16 * n) by (nonlinear_arith)
        requires
            0 <= elem <= 16,
            0 <= n,
    ;
}

/// What a run of island records reads back as.
pub open spec fn island_views(s: Seq<Island>) -> Seq<IslandView> {
    Seq::new(s.len(), |k: int| s[k]@)
}

#[verifier::spinoff_prover]
#[verifier::rlimit(80)]
proof fn law_island_run_steps(s: Seq<Island>, d: Seq<u8>, c: int)
    requires
        forall|k: int| 0 <= k < s.len() ==> island_fits(#[trigger] s[k]),
        0 <= c,
        c + crate::world_image::island_run_image(s).len() <= d.len(),
        d.subrange(c, c + crate::world_image::island_run_image(s).len()) == crate::world_image::island_run_image(s),
    ensures
        crate::world_restore::island_run_step(d, c, s.len()) == Some((island_views(s), c + crate::world_image::island_run_image(s).len())),
        crate::world_image::island_run_image(s).len() >= 16 * s.len(),
    decreases s.len(),
{
    if s.len() > 0 {
        let prev = s.drop_last();
        let p = crate::world_image::island_run_image(prev);
        lemma_split(d, c, p, island_image(s.last()));
        assert forall|k: int| 0 <= k < prev.len() implies island_fits(#[trigger] prev[k]) by {
            assert(prev[k] == s[k]);
        }
        law_island_run_steps(prev, d, c);
        law_island_step(s.last(), d, c + p.len());
        assert(island_views(prev).push(s.last()@) =~= island_views(s));
    } else {
        assert(island_views(s) =~= Seq::empty());
    }
}

#[verifier::spinoff_prover]
proof fn law_island_table_steps(s: Seq<Island>, d: Seq<u8>, c: int, elem: int)
    requires
        s.len() <= i32::MAX,
        forall|k: int| 0 <= k < s.len() ==> island_fits(#[trigger] s[k]),
        0 <= elem <= 16,
        0 <= c,
        c + (i32_bytes(s.len() as i32) + crate::world_image::island_run_image(s)).len() <= d.len(),
        d.subrange(c, c + (i32_bytes(s.len() as i32) + crate::world_image::island_run_image(s)).len())
            == i32_bytes(s.len() as i32) + crate::world_image::island_run_image(s),
    ensures
        crate::world_restore::island_table_step(d, c, elem) == Some((
            island_views(s),
            c + (i32_bytes(s.len() as i32) + crate::world_image::island_run_image(s)).len(),
        )),
{
    let n = s.len() as int;
    lemma_split(d, c, i32_bytes(n as i32), crate::world_image::island_run_image(s));
    lemma_i32_read_back(n as i32, d, c);
    law_island_run_steps(s, d, c + 4);
    assert(n * elem <= 16 * n) by (nonlinear_arith)
        requires
            0 <= elem <= 16,
            0 <= n,
    ;
}

/// What a run of tree records reads back as.
pub open spec fn tree_views(s: Seq<DynamicTree>) -> Seq<DynamicTreeView> {
    Seq::new(s.len(), |k: int| s[k]@)
}

#[verifier::spinoff_prover]
#[verifier::rlimit(80)]
proof fn law_tree_run_steps(s: Seq<DynamicTree>, d: Seq<u8>, c: int)
    requires
        forall|k: int| 0 <= k < s.len() ==> tree_fits(#[trigger] s[k]),
        0 <= c,
        c + crate::world_image::tree_run_image(s).len() <= d.len(),
        d.subrange(c, c + crate::world_image::tree_run_image(s).len()) == crate::world_image::tree_run_image(s),
    ensures
        crate::world_restore::tree_run_step(d, c, s.len()) == Some((tree_views(s), c + crate::world_image::tree_run_image(s).len())),
    decreases s.len(),
{
    if s.len() > 0 {
        let prev = s.drop_last();
        let p = crate::world_image::tree_run_image(prev);
        lemma_split(d, c, p, tree_image(s.last()@));
        assert forall|k: int| 0 <= k < prev.len() implies tree_fits(#[trigger] prev[k]) by {
            assert(prev[k] == s[k]);
        }
        law_tree_run_steps(prev, d, c);
        law_tree_step(s.last(), d, c + p.len());
        assert(tree_views(prev).push(s.last()@) =~= tree_views(s));
    } else {
        assert(tree_views(s) =~= Seq::empty());
    }
}

/// What a run of bitset records reads back as.
pub open spec fn bitset_views(s: Seq<BitSet>) -> Seq<BitSetView> {
    Seq::new(s.len(), |k: int| s[k]@)
}

#[verifier::spinoff_prover]
#[verifier::rlimit(80)]
proof fn law_bitset_run_steps(s: Seq<BitSet>, d: Seq<u8>, c: int)
    requires
        forall|k: int| 0 <= k < s.len() ==> bitset_fits(#[trigger] s[k]),
        0 <= c,
        c + crate::world_image::bitset_run_image(s).len() <= d.len(),
        d.subrange(c, c + crate::world_image::bitset_run_image(s).len()) == crate::world_image::bitset_run_image(s),
    ensures
        crate::world_restore::bitset_run_step(d, c, s.len()) == Some((bitset_views(s), c + crate::world_image::bitset_run_image(s).len())),
    decreases s.len(),
{
    if s.len() > 0 {
        let prev = s.drop_last();
        let p = crate::world_image::bitset_run_image(prev);
        lemma_split(d, c, p, bitset_bytes(s.last().block_count, s.last().blocks@));
        assert forall|k: int| 0 <= k < prev.len() implies bitset_fits(#[trigger] prev[k]) by {
            assert(prev[k] == s[k]);
        }
        law_bitset_run_steps(prev, d, c);
        law_bitset_step(s.last(), d, c + p.len());
        assert(bitset_views(prev).push(s.last()@) =~= bitset_views(s));
    } else {
        assert(bitset_views(s) =~= Seq::empty());
    }
}
/// A graph color whose body set and runs can each be counted in an `i32`.
pub open spec fn color_fits(x: GraphColor) -> bool {
    &&& x.body_set.blocks@.len() <= i32::MAX
    &&& x.contact_sims@.len() <= i32::MAX
    &&& x.joint_sims@.len() <= i32::MAX
}

/// A graph color as its image gives it back: the overflow color's body
/// set is not written and reads back empty.
pub open spec fn color_image_view(x: GraphColor, overflow: bool) -> GraphColorView {
    GraphColorView {
        body_set: if overflow { BitSetView { block_count: 0, blocks: Seq::empty() } } else { x.body_set@ },
        contact_sims: x.contact_sims@,
        joint_sims: x.joint_sims@,
    }
}

proof fn lemma_color_sims_from(d: Seq<u8>, c: int, cs: Seq<ContactSim>, js: Seq<JointSim>, o1: int, o2: int, o3: int, o4: int)
    requires
        cs.len() <= i32::MAX,
        js.len() <= i32::MAX,
        o4 <= d.len(),
        o2 - o1 >= 206 * cs.len(),
        o4 - o3 >= 88 * js.len(),
        i32_read(d, true, c) == (cs.len() as i32, (true, o1)),
        crate::snapshot_world::contact_sim_run_read(d, true, o1, cs.len()) == (cs, (true, o2)),
        i32_read(d, true, o2) == (js.len() as i32, (true, o3)),
        crate::snapshot_world::joint_sim_run_read(d, true, o3, js.len()) == (js, (true, o4)),
    ensures
        crate::world_restore::color_sims_step(d, c) == Some(((cs, js), o4)),
{
}

#[verifier::spinoff_prover]
#[verifier::rlimit(100)]
proof fn law_graph_color_step(x: GraphColor, overflow: bool, d: Seq<u8>, c: int)
    requires
        color_fits(x),
        0 <= c,
        c + graph_color_image(x, overflow).len() <= d.len(),
        d.subrange(c, c + graph_color_image(x, overflow).len()) == graph_color_image(x, overflow),
    ensures
        graph_color_step(d, c, overflow) == Some((color_image_view(x, overflow), c + graph_color_image(x, overflow).len())),
{
    lemma_contact_sim_run_len(x.contact_sims@);
    lemma_joint_sim_run_len(x.joint_sims@);
    let p0 = (if overflow { Seq::empty() } else { bitset_bytes(x.body_set.block_count, x.body_set.blocks@) });
    let p1 = i32_bytes(x.contact_sims@.len() as i32);
    let p2 = contact_sim_run_image(x.contact_sims@);
    let p3 = i32_bytes(x.joint_sims@.len() as i32);
    let p4 = joint_sim_run_image(x.joint_sims@);
    let q0 = p0;
    let q1 = q0 + p1;
    let q2 = q1 + p2;
    let q3 = q2 + p3;
    let q4 = q3 + p4;
    lemma_split(d, c, q3, p4);
    lemma_split(d, c, q2, p3);
    lemma_split(d, c, q1, p2);
    lemma_split(d, c, q0, p1);
    assert(q4 == graph_color_image(x, overflow));
    if !overflow {
        law_bitset_step(x.body_set, d, c);
    }
    lemma_i32_read_back(x.contact_sims@.len() as i32, d, c + q0.len());
    law_contact_sim_run_round_trip(x.contact_sims@, d, c + q1.len());
    lemma_i32_read_back(x.joint_sims@.len() as i32, d, c + q2.len());
    law_joint_sim_run_round_trip(x.joint_sims@, d, c + q3.len());
    lemma_color_sims_from(d, c + q0.len(), x.contact_sims@, x.joint_sims@, c + q1.len(), c + q2.len(), c + q3.len(), c + q4.len());
}

/// The graph colors as their images give them back.
pub open spec fn color_views(s: Seq<GraphColor>) -> Seq<GraphColorView> {
    Seq::new(s.len(), |k: int| color_image_view(s[k], k == GRAPH_COLOR_COUNT - 1))
}

#[verifier::spinoff_prover]
#[verifier::rlimit(60)]
proof fn law_graph_color_run_steps(s: Seq<GraphColor>, d: Seq<u8>, c: int)
    requires
        forall|k: int| 0 <= k < s.len() ==> color_fits(#[trigger] s[k]),
        0 <= c,
        c + graph_color_run_image(s).len() <= d.len(),
        d.subrange(c, c + graph_color_run_image(s).len()) == graph_color_run_image(s),
    ensures
        graph_color_run_step(d, c, s.len()) == Some((color_views(s), c + graph_color_run_image(s).len())),
    decreases s.len(),
{
    if s.len() > 0 {
        let prev = s.drop_last();
        let p = graph_color_run_image(prev);
        let last = graph_color_image(s.last(), s.len() - 1 == GRAPH_COLOR_COUNT - 1);
        lemma_split(d, c, p, last);
        assert forall|k: int| 0 <= k < prev.len() implies color_fits(#[trigger] prev[k]) by {
            assert(prev[k] == s[k]);
        }
        law_graph_color_run_steps(prev, d, c);
        law_graph_color_step(s.last(), s.len() - 1 == GRAPH_COLOR_COUNT - 1, d, c + p.len());
        assert(color_views(prev).push(color_image_view(s.last(), s.len() - 1 == GRAPH_COLOR_COUNT - 1)) =~= color_views(s));
    } else {
        assert(color_views(s) =~= Seq::empty());
    }
}

/// A broad phase with its three trees and moved-proxy sets, every list
/// countable in an `i32`.
pub open spec fn broad_phase_fits(b: BroadPhase) -> bool {
    &&& b.trees@.len() == TREE_COUNT
    &&& b.moved_proxies@.len() == TREE_COUNT
    &&& forall|k: int| 0 <= k < b.trees@.len() ==> tree_fits(#[trigger] b.trees@[k])
    &&& forall|k: int| 0 <= k < b.moved_proxies@.len() ==> bitset_fits(#[trigger] b.moved_proxies@[k])
    &&& b.move_array@.len() <= i32::MAX
    &&& b.pair_set.items@.len() <= i32::MAX
}

#[verifier::spinoff_prover]
#[verifier::rlimit(60)]
proof fn law_broad_phase_step(b: BroadPhase, d: Seq<u8>, c: int)
    requires
        broad_phase_fits(b),
        0 <= c,
        c + broad_phase_image(b).len() <= d.len(),
        d.subrange(c, c + broad_phase_image(b).len()) == broad_phase_image(b),
    ensures
        broad_phase_step(d, c) == Some((
            (tree_views(b.trees@), bitset_views(b.moved_proxies@), b.move_array@, b.pair_set@),
            c + broad_phase_image(b).len(),
        )),
{
    let p0 = tree_run_image(b.trees@);
    let p1 = bitset_run_image(b.moved_proxies@);
    let p2 = (i32_bytes(b.move_array@.len() as i32) + i32s_bytes(b.move_array@));
    let p3 = hashset_bytes(b.pair_set.count, b.pair_set.items@);
    let q0 = p0;
    let q1 = q0 + p1;
    let q2 = q1 + p2;
    let q3 = q2 + p3;
    reveal(broad_phase_image);
    assert(q3 == broad_phase_image(b));
    lemma_split(d, c, q2, p3);
    lemma_split(d, c, q1, p2);
    lemma_split(d, c, q0, p1);
    law_tree_run_steps(b.trees@, d, c);
    law_bitset_run_steps(b.moved_proxies@, d, c + q0.len());
    law_move_array_step(b.move_array@, d, c + q1.len());
    law_hashset_step(b.pair_set, d, c + q2.len());
}

/// A world whose tables can each be counted in an `i32`, and whose
/// records each fit their image.
pub open spec fn tables_fit(w: World) -> bool {
    &&& w.solver_sets@.len() <= i32::MAX
    &&& w.bodies@.len() <= i32::MAX
    &&& w.shapes@.len() <= i32::MAX
    &&& w.contacts@.len() <= i32::MAX
    &&& w.joints@.len() <= i32::MAX
    &&& w.chain_shapes@.len() <= i32::MAX
    &&& w.sensors@.len() <= i32::MAX
    &&& w.islands@.len() <= i32::MAX
    &&& forall|k: int| 0 <= k < w.solver_sets@.len() ==> solver_set_fits(#[trigger] w.solver_sets@[k])
    &&& forall|k: int| 0 <= k < w.bodies@.len() ==> body_fits(#[trigger] w.bodies@[k])
    &&& forall|k: int| 0 <= k < w.chain_shapes@.len() ==> chain_fits(#[trigger] w.chain_shapes@[k])
    &&& forall|k: int| 0 <= k < w.sensors@.len() ==> sensor_fits(#[trigger] w.sensors@[k])
    &&& forall|k: int| 0 <= k < w.islands@.len() ==> island_fits(#[trigger] w.islands@[k])
}

#[verifier::spinoff_prover]
#[verifier::rlimit(100)]
proof fn lemma_tables_front(w: World, d: Seq<u8>, c: int)
    requires
        tables_fit(w),
        0 <= c,
        ({
            let p0 = (i32_bytes(w.solver_sets@.len() as i32) + crate::world_image::solver_set_run_image(w.solver_sets@));
            let p1 = (i32_bytes(w.bodies@.len() as i32) + crate::world_image::body_run_image(w.bodies@));
            let p2 = (i32_bytes(w.shapes@.len() as i32) + crate::world_image::shape_run_image(w.shapes@));
            let p3 = (i32_bytes(w.contacts@.len() as i32) + crate::world_image::contact_run_image(w.contacts@));
            let q0 = p0;
            let q1 = q0 + p1;
            let q2 = q1 + p2;
            let q3 = q2 + p3;
            &&& c + q3.len() <= d.len()
            &&& d.subrange(c, c + q3.len()) == q3
        }),
    ensures
        ({
            let p0 = (i32_bytes(w.solver_sets@.len() as i32) + crate::world_image::solver_set_run_image(w.solver_sets@));
            let p1 = (i32_bytes(w.bodies@.len() as i32) + crate::world_image::body_run_image(w.bodies@));
            let p2 = (i32_bytes(w.shapes@.len() as i32) + crate::world_image::shape_run_image(w.shapes@));
            let p3 = (i32_bytes(w.contacts@.len() as i32) + crate::world_image::contact_run_image(w.contacts@));
            let q0 = p0;
            let q1 = q0 + p1;
            let q2 = q1 + p2;
            let q3 = q2 + p3;
            &&& crate::world_restore::solver_set_table_step(d, c, 4) == Some((solver_set_views(w.solver_sets@), c + q0.len()))
            &&& crate::world_restore::body_table_step(d, c + q0.len(), 60) == Some((body_views(w.bodies@), c + q1.len()))
            &&& crate::world_restore::shape_table_step(d, c + q1.len(), 80) == Some((shape_views(w.shapes@), c + q2.len()))
            &&& crate::world_restore::contact_table_step(d, c + q2.len(), 60) == Some((contact_views(w.contacts@), c + q3.len()))
        }),
{
    let p0 = (i32_bytes(w.solver_sets@.len() as i32) + crate::world_image::solver_set_run_image(w.solver_sets@));
    let p1 = (i32_bytes(w.bodies@.len() as i32) + crate::world_image::body_run_image(w.bodies@));
    let p2 = (i32_bytes(w.shapes@.len() as i32) + crate::world_image::shape_run_image(w.shapes@));
    let p3 = (i32_bytes(w.contacts@.len() as i32) + crate::world_image::contact_run_image(w.contacts@));
    let q0 = p0;
    let q1 = q0 + p1;
    let q2 = q1 + p2;
    let q3 = q2 + p3;
    lemma_split(d, c, q2, p3);
    lemma_split(d, c, q1, p2);
    lemma_split(d, c, q0, p1);
    law_solver_set_table_steps(w.solver_sets@, d, c, 4);
    law_body_table_steps(w.bodies@, d, c + q0.len(), 60);
    law_shape_table_steps(w.shapes@, d, c + q1.len(), 80);
    law_contact_table_steps(w.contacts@, d, c + q2.len(), 60);
}

proof fn lemma_tables_from(d: Seq<u8>, o0: int, o1: int, o2: int, o3: int, o4: int, o5: int, o6: int, o7: int, o8: int, v0: Seq<SolverSetView>, v1: Seq<BodyView>, v2: Seq<Shape>, v3: Seq<Contact>, v4: Seq<Joint>, v5: Seq<ChainView>, v6: Seq<SensorView>, v7: Seq<IslandView>)
    requires
        crate::world_restore::solver_set_table_step(d, o0, 4) == Some((v0, o1)),
        crate::world_restore::body_table_step(d, o1, 60) == Some((v1, o2)),
        crate::world_restore::shape_table_step(d, o2, 80) == Some((v2, o3)),
        crate::world_restore::contact_table_step(d, o3, 60) == Some((v3, o4)),
        crate::world_restore::joint_table_step(d, o4, 40) == Some((v4, o5)),
        crate::world_restore::chain_table_step(d, o5, 20) == Some((v5, o6)),
        crate::world_restore::sensor_table_step(d, o6, 16) == Some((v6, o7)),
        crate::world_restore::island_table_step(d, o7, 16) == Some((v7, o8)),
    ensures
        tables_step(d, o0) == Some(((v0, v1, v2, v3, v4, v5, v6, v7), o8)),
{
}

#[verifier::spinoff_prover]
#[verifier::rlimit(80)]
proof fn lemma_tables_split(w: World, d: Seq<u8>, c: int)
    requires
        0 <= c,
        ({
            let p0 = (i32_bytes(w.solver_sets@.len() as i32) + crate::world_image::solver_set_run_image(w.solver_sets@));
            let p1 = (i32_bytes(w.bodies@.len() as i32) + crate::world_image::body_run_image(w.bodies@));
            let p2 = (i32_bytes(w.shapes@.len() as i32) + crate::world_image::shape_run_image(w.shapes@));
            let p3 = (i32_bytes(w.contacts@.len() as i32) + crate::world_image::contact_run_image(w.contacts@));
            let p4 = (i32_bytes(w.joints@.len() as i32) + crate::world_image::joint_run_image(w.joints@));
            let p5 = (i32_bytes(w.chain_shapes@.len() as i32) + crate::world_image::chain_run_image(w.chain_shapes@));
            let p6 = (i32_bytes(w.sensors@.len() as i32) + crate::world_image::sensor_run_image(w.sensors@));
            let p7 = (i32_bytes(w.islands@.len() as i32) + crate::world_image::island_run_image(w.islands@));
            let q0 = p0;
            let q1 = q0 + p1;
            let q2 = q1 + p2;
            let q3 = q2 + p3;
            let q4 = q3 + p4;
            let q5 = q4 + p5;
            let q6 = q5 + p6;
            let q7 = q6 + p7;
            &&& c + q7.len() <= d.len()
            &&& d.subrange(c, c + q7.len()) == q7
        }),
    ensures
        ({
            let p0 = (i32_bytes(w.solver_sets@.len() as i32) + crate::world_image::solver_set_run_image(w.solver_sets@));
            let p1 = (i32_bytes(w.bodies@.len() as i32) + crate::world_image::body_run_image(w.bodies@));
            let p2 = (i32_bytes(w.shapes@.len() as i32) + crate::world_image::shape_run_image(w.shapes@));
            let p3 = (i32_bytes(w.contacts@.len() as i32) + crate::world_image::contact_run_image(w.contacts@));
            let p4 = (i32_bytes(w.joints@.len() as i32) + crate::world_image::joint_run_image(w.joints@));
            let p5 = (i32_bytes(w.chain_shapes@.len() as i32) + crate::world_image::chain_run_image(w.chain_shapes@));
            let p6 = (i32_bytes(w.sensors@.len() as i32) + crate::world_image::sensor_run_image(w.sensors@));
            let p7 = (i32_bytes(w.islands@.len() as i32) + crate::world_image::island_run_image(w.islands@));
            let q0 = p0;
            let q1 = q0 + p1;
            let q2 = q1 + p2;
            let q3 = q2 + p3;
            let q4 = q3 + p4;
            let q5 = q4 + p5;
            let q6 = q5 + p6;
            let q7 = q6 + p7;
            &&& d.subrange(c, c + q3.len()) == q3
            &&& d.subrange(c + q3.len(), c + q4.len()) == p4
            &&& d.subrange(c + q4.len(), c + q5.len()) == p5
            &&& d.subrange(c + q5.len(), c + q6.len()) == p6
            &&& d.subrange(c + q6.len(), c + q7.len()) == p7
        }),
{
    let p0 = (i32_bytes(w.solver_sets@.len() as i32) + crate::world_image::solver_set_run_image(w.solver_sets@));
    let p1 = (i32_bytes(w.bodies@.len() as i32) + crate::world_image::body_run_image(w.bodies@));
    let p2 = (i32_bytes(w.shapes@.len() as i32) + crate::world_image::shape_run_image(w.shapes@));
    let p3 = (i32_bytes(w.contacts@.len() as i32) + crate::world_image::contact_run_image(w.contacts@));
    let p4 = (i32_bytes(w.joints@.len() as i32) + crate::world_image::joint_run_image(w.joints@));
    let p5 = (i32_bytes(w.chain_shapes@.len() as i32) + crate::world_image::chain_run_image(w.chain_shapes@));
    let p6 = (i32_bytes(w.sensors@.len() as i32) + crate::world_image::sensor_run_image(w.sensors@));
    let p7 = (i32_bytes(w.islands@.len() as i32) + crate::world_image::island_run_image(w.islands@));
    let q0 = p0;
    let q1 = q0 + p1;
    let q2 = q1 + p2;
    let q3 = q2 + p3;
    let q4 = q3 + p4;
    let q5 = q4 + p5;
    let q6 = q5 + p6;
    let q7 = q6 + p7;
    lemma_split(d, c, q6, p7);
    lemma_split(d, c, q5, p6);
    lemma_split(d, c, q4, p5);
    lemma_split(d, c, q3, p4);

}

#[verifier::spinoff_prover]
#[verifier::rlimit(80)]
proof fn lemma_tables_back(w: World, d: Seq<u8>, c: int)
    requires
        tables_fit(w),
        0 <= c,
        ({
            let p0 = (i32_bytes(w.solver_sets@.len() as i32) + crate::world_image::solver_set_run_image(w.solver_sets@));
            let p1 = (i32_bytes(w.bodies@.len() as i32) + crate::world_image::body_run_image(w.bodies@));
            let p2 = (i32_bytes(w.shapes@.len() as i32) + crate::world_image::shape_run_image(w.shapes@));
            let p3 = (i32_bytes(w.contacts@.len() as i32) + crate::world_image::contact_run_image(w.contacts@));
            let p4 = (i32_bytes(w.joints@.len() as i32) + crate::world_image::joint_run_image(w.joints@));
            let p5 = (i32_bytes(w.chain_shapes@.len() as i32) + crate::world_image::chain_run_image(w.chain_shapes@));
            let p6 = (i32_bytes(w.sensors@.len() as i32) + crate::world_image::sensor_run_image(w.sensors@));
            let p7 = (i32_bytes(w.islands@.len() as i32) + crate::world_image::island_run_image(w.islands@));
            let q0 = p0;
            let q1 = q0 + p1;
            let q2 = q1 + p2;
            let q3 = q2 + p3;
            let q4 = q3 + p4;
            let q5 = q4 + p5;
            let q6 = q5 + p6;
            let q7 = q6 + p7;
            &&& c + q7.len() <= d.len()
            &&& d.subrange(c + q3.len(), c + q4.len()) == p4
            &&& d.subrange(c + q4.len(), c + q5.len()) == p5
            &&& d.subrange(c + q5.len(), c + q6.len()) == p6
            &&& d.subrange(c + q6.len(), c + q7.len()) == p7
        }),
    ensures
        ({
            let p0 = (i32_bytes(w.solver_sets@.len() as i32) + crate::world_image::solver_set_run_image(w.solver_sets@));
            let p1 = (i32_bytes(w.bodies@.len() as i32) + crate::world_image::body_run_image(w.bodies@));
            let p2 = (i32_bytes(w.shapes@.len() as i32) + crate::world_image::shape_run_image(w.shapes@));
            let p3 = (i32_bytes(w.contacts@.len() as i32) + crate::world_image::contact_run_image(w.contacts@));
            let p4 = (i32_bytes(w.joints@.len() as i32) + crate::world_image::joint_run_image(w.joints@));
            let p5 = (i32_bytes(w.chain_shapes@.len() as i32) + crate::world_image::chain_run_image(w.chain_shapes@));
            let p6 = (i32_bytes(w.sensors@.len() as i32) + crate::world_image::sensor_run_image(w.sensors@));
            let p7 = (i32_bytes(w.islands@.len() as i32) + crate::world_image::island_run_image(w.islands@));
            let q0 = p0;
            let q1 = q0 + p1;
            let q2 = q1 + p2;
            let q3 = q2 + p3;
            let q4 = q3 + p4;
            let q5 = q4 + p5;
            let q6 = q5 + p6;
            let q7 = q6 + p7;
            &&& crate::world_restore::joint_table_step(d, c + q3.len(), 40) == Some((joint_views(w.joints@), c + q4.len()))
            &&& crate::world_restore::chain_table_step(d, c + q4.len(), 20) == Some((chain_views(w.chain_shapes@), c + q5.len()))
            &&& crate::world_restore::sensor_table_step(d, c + q5.len(), 16) == Some((sensor_views(w.sensors@), c + q6.len()))
            &&& crate::world_restore::island_table_step(d, c + q6.len(), 16) == Some((island_views(w.islands@), c + q7.len()))
        }),
{
    let p0 = (i32_bytes(w.solver_sets@.len() as i32) + crate::world_image::solver_set_run_image(w.solver_sets@));
    let p1 = (i32_bytes(w.bodies@.len() as i32) + crate::world_image::body_run_image(w.bodies@));
    let p2 = (i32_bytes(w.shapes@.len() as i32) + crate::world_image::shape_run_image(w.shapes@));
    let p3 = (i32_bytes(w.contacts@.len() as i32) + crate::world_image::contact_run_image(w.contacts@));
    let p4 = (i32_bytes(w.joints@.len() as i32) + crate::world_image::joint_run_image(w.joints@));
    let p5 = (i32_bytes(w.chain_shapes@.len() as i32) + crate::world_image::chain_run_image(w.chain_shapes@));
    let p6 = (i32_bytes(w.sensors@.len() as i32) + crate::world_image::sensor_run_image(w.sensors@));
    let p7 = (i32_bytes(w.islands@.len() as i32) + crate::world_image::island_run_image(w.islands@));
    let q0 = p0;
    let q1 = q0 + p1;
    let q2 = q1 + p2;
    let q3 = q2 + p3;
    let q4 = q3 + p4;
    let q5 = q4 + p5;
    let q6 = q5 + p6;
    let q7 = q6 + p7;
    law_joint_table_steps(w.joints@, d, c + q3.len(), 40);
    law_chain_table_steps(w.chain_shapes@, d, c + q4.len(), 20);
    law_sensor_table_steps(w.sensors@, d, c + q5.len(), 16);
    law_island_table_steps(w.islands@, d, c + q6.len(), 16);
}

#[verifier::spinoff_prover]
#[verifier::rlimit(60)]
proof fn law_tables_step(w: World, d: Seq<u8>, c: int)
    requires
        tables_fit(w),
        0 <= c,
        c + world_tables_image(w).len() <= d.len(),
        d.subrange(c, c + world_tables_image(w).len()) == world_tables_image(w),
    ensures
        tables_step(d, c) == Some((
            (solver_set_views(w.solver_sets@), body_views(w.bodies@), shape_views(w.shapes@), contact_views(w.contacts@), joint_views(w.joints@), chain_views(w.chain_shapes@), sensor_views(w.sensors@), island_views(w.islands@)),
            c + world_tables_image(w).len(),
        )),
{
    let p0 = (i32_bytes(w.solver_sets@.len() as i32) + crate::world_image::solver_set_run_image(w.solver_sets@));
    let p1 = (i32_bytes(w.bodies@.len() as i32) + crate::world_image::body_run_image(w.bodies@));
    let p2 = (i32_bytes(w.shapes@.len() as i32) + crate::world_image::shape_run_image(w.shapes@));
    let p3 = (i32_bytes(w.contacts@.len() as i32) + crate::world_image::contact_run_image(w.contacts@));
    let p4 = (i32_bytes(w.joints@.len() as i32) + crate::world_image::joint_run_image(w.joints@));
    let p5 = (i32_bytes(w.chain_shapes@.len() as i32) + crate::world_image::chain_run_image(w.chain_shapes@));
    let p6 = (i32_bytes(w.sensors@.len() as i32) + crate::world_image::sensor_run_image(w.sensors@));
    let p7 = (i32_bytes(w.islands@.len() as i32) + crate::world_image::island_run_image(w.islands@));
    let q0 = p0;
    let q1 = q0 + p1;
    let q2 = q1 + p2;
    let q3 = q2 + p3;
    let q4 = q3 + p4;
    let q5 = q4 + p5;
    let q6 = q5 + p6;
    let q7 = q6 + p7;
    reveal(world_tables_image);
    assert(q7 == world_tables_image(w));
    lemma_tables_split(w, d, c);
    lemma_tables_back(w, d, c);
    lemma_tables_front(w, d, c);
    lemma_tables_from(d, c, c + q0.len(), c + q1.len(), c + q2.len(), c + q3.len(), c + q4.len(), c + q5.len(), c + q6.len(), c + q7.len(),
        solver_set_views(w.solver_sets@), body_views(w.bodies@), shape_views(w.shapes@), contact_views(w.contacts@), joint_views(w.joints@), chain_views(w.chain_shapes@), sensor_views(w.sensors@), island_views(w.islands@));
}
/// Every id pool's free list can be counted in an `i32`.
pub open spec fn pools_fit(w: World) -> bool {
    &&& w.body_id_pool.free_array@.len() <= i32::MAX
    &&& w.shape_id_pool.free_array@.len() <= i32::MAX
    &&& w.chain_id_pool.free_array@.len() <= i32::MAX
    &&& w.contact_id_pool.free_array@.len() <= i32::MAX
    &&& w.joint_id_pool.free_array@.len() <= i32::MAX
    &&& w.island_id_pool.free_array@.len() <= i32::MAX
    &&& w.solver_set_id_pool.free_array@.len() <= i32::MAX
}

#[verifier::spinoff_prover]
#[verifier::rlimit(80)]
proof fn law_head_steps(w: World, d: Seq<u8>)
    requires
        pools_fit(w),
        97 + world_pools_image(w).len() <= d.len(),
        d.subrange(0, 16) == snap_header_bytes(current_header()),
        d.subrange(16, 97) == world_config_image(w.config),
        d.subrange(97, 97 + world_pools_image(w).len() as int) == world_pools_image(w),
    ensures
        header_step(d, 0) == Some((current_header(), 16int)),
        header_accepted(current_header()),
        world_config_read(d, true, 16) == (w.config, (true, 97int)),
        pools_step(d, 97) == Some((
            seq![w.body_id_pool@, w.shape_id_pool@, w.chain_id_pool@, w.contact_id_pool@, w.joint_id_pool@, w.island_id_pool@, w.solver_set_id_pool@],
            97 + world_pools_image(w).len() as int,
        )),
{
    law_snap_header_round_trip(current_header(), d, 0);
    law_current_header_compatible();
    law_world_config_round_trip(w.config, d, 16);
    let c0: int = 97;
    let b0 = id_pool_bytes(w.body_id_pool.free_array@, w.body_id_pool.next_index);
    let b1 = id_pool_bytes(w.shape_id_pool.free_array@, w.shape_id_pool.next_index);
    let b2 = id_pool_bytes(w.chain_id_pool.free_array@, w.chain_id_pool.next_index);
    let b3 = id_pool_bytes(w.contact_id_pool.free_array@, w.contact_id_pool.next_index);
    let b4 = id_pool_bytes(w.joint_id_pool.free_array@, w.joint_id_pool.next_index);
    let b5 = id_pool_bytes(w.island_id_pool.free_array@, w.island_id_pool.next_index);
    let b6 = id_pool_bytes(w.solver_set_id_pool.free_array@, w.solver_set_id_pool.next_index);
    let q0 = b0;
    let q1 = q0 + b1;
    let q2 = q1 + b2;
    let q3 = q2 + b3;
    let q4 = q3 + b4;
    let q5 = q4 + b5;
    let q6 = q5 + b6;
    reveal(world_pools_image);
    assert(q6 == world_pools_image(w));
    lemma_split(d, c0, q5, b6);
    lemma_split(d, c0, q4, b5);
    lemma_split(d, c0, q3, b4);
    lemma_split(d, c0, q2, b3);
    lemma_split(d, c0, q1, b2);
    lemma_split(d, c0, q0, b1);
    law_id_pool_step(w.body_id_pool@, d, c0);
    law_id_pool_step(w.shape_id_pool@, d, c0 + q0.len());
    law_id_pool_step(w.chain_id_pool@, d, c0 + q1.len());
    law_id_pool_step(w.contact_id_pool@, d, c0 + q2.len());
    law_id_pool_step(w.joint_id_pool@, d, c0 + q3.len());
    law_id_pool_step(w.island_id_pool@, d, c0 + q4.len());
    law_id_pool_step(w.solver_set_id_pool@, d, c0 + q5.len());
}

/// A world whose image holds it whole: every list countable in an `i32`,
/// body names that a recorded string holds, three trees and moved-proxy
/// sets, and a full constraint graph.
pub open spec fn world_image_fits(w: World) -> bool {
    &&& pools_fit(w)
    &&& tables_fit(w)
    &&& broad_phase_fits(w.broad_phase)
    &&& w.graph_colors@.len() == GRAPH_COLOR_COUNT
    &&& forall|k: int| 0 <= k < w.graph_colors@.len() ==> color_fits(#[trigger] w.graph_colors@[k])
}

/// What a world's image holds of it: its settings, pools, tables, broad
/// phase and graph colors as the contracts see them, user data zeroed
/// and the overflow color without a body set.
pub open spec fn world_image_of(w: World) -> WorldImage {
    WorldImage {
        config: w.config,
        pools: seq![w.body_id_pool@, w.shape_id_pool@, w.chain_id_pool@, w.contact_id_pool@, w.joint_id_pool@, w.island_id_pool@, w.solver_set_id_pool@],
        solver_sets: solver_set_views(w.solver_sets@),
        bodies: body_views(w.bodies@),
        shapes: shape_views(w.shapes@),
        contacts: contact_views(w.contacts@),
        joints: joint_views(w.joints@),
        chains: chain_views(w.chain_shapes@),
        sensors: sensor_views(w.sensors@),
        islands: island_views(w.islands@),
        trees: tree_views(w.broad_phase.trees@),
        moved_proxies: bitset_views(w.broad_phase.moved_proxies@),
        move_array: w.broad_phase.move_array@,
        pair_set: w.broad_phase.pair_set@,
        graph_colors: color_views(w.graph_colors@),
    }
}

#[verifier::spinoff_prover]
#[verifier::rlimit(80)]
proof fn lemma_image_split(w: World)
    ensures
        ({
            let d = world_image_bytes(w);
            let a = snap_header_bytes(current_header());
            let b = world_config_image(w.config);
            let p = world_pools_image(w);
            let t = world_tables_image(w);
            let f = broad_phase_image(w.broad_phase);
            let g = graph_color_run_image(w.graph_colors@);
            let pl = p.len() as int;
            let tl = t.len() as int;
            let fl = f.len() as int;
            &&& a.len() == 16
            &&& b.len() == 81
            &&& d.len() == 97 + p.len() + t.len() + f.len() + g.len()
            &&& d.subrange(0, 16) == a
            &&& d.subrange(16, 97) == b
            &&& d.subrange(97, 97 + pl) == p
            &&& d.subrange(97 + pl, 97 + pl + tl) == t
            &&& d.subrange(97 + pl + tl, 97 + pl + tl + fl) == f
            &&& d.subrange(97 + pl + tl + fl, d.len() as int) == g
        }),
{
    reveal(world_image_bytes);
    let d = world_image_bytes(w);
    let p0 = snap_header_bytes(current_header());
    let p1 = world_config_image(w.config);
    let p2 = world_pools_image(w);
    let p3 = world_tables_image(w);
    let p4 = broad_phase_image(w.broad_phase);
    let p5 = graph_color_run_image(w.graph_colors@);
    let q0 = p0;
    let q1 = q0 + p1;
    let q2 = q1 + p2;
    let q3 = q2 + p3;
    let q4 = q3 + p4;
    let q5 = q4 + p5;
    assert(q5 == d);
    assert(d.subrange(0, d.len() as int) =~= d);
    lemma_split(d, 0, q4, p5);
    lemma_split(d, 0, q3, p4);
    lemma_split(d, 0, q2, p3);
    lemma_split(d, 0, q1, p2);
    lemma_split(d, 0, q0, p1);
    assert(p0.len() == 16);
    assert(p1.len() == 81);
}

proof fn lemma_image_from(d: Seq<u8>, config: WorldConfig, pools: Seq<IdPoolView>,
    t: (Seq<SolverSetView>, Seq<BodyView>, Seq<Shape>, Seq<Contact>, Seq<Joint>, Seq<ChainView>, Seq<SensorView>, Seq<IslandView>),
    b: (Seq<DynamicTreeView>, Seq<BitSetView>, Seq<i32>, HashSetView), g: Seq<GraphColorView>, o1: int, o2: int, o3: int, o4: int)
    requires
        header_step(d, 0) == Some((current_header(), 16int)),
        header_accepted(current_header()),
        world_config_read(d, true, 16) == (config, (true, 97int)),
        pools_step(d, 97) == Some((pools, o1)),
        tables_step(d, o1) == Some((t, o2)),
        broad_phase_step(d, o2) == Some((b, o3)),
        graph_color_run_step(d, o3, GRAPH_COLOR_COUNT as nat) == Some((g, o4)),
    ensures
        world_image_read(d) == Some(WorldImage {
            config,
            pools,
            solver_sets: t.0,
            bodies: t.1,
            shapes: t.2,
            contacts: t.3,
            joints: t.4,
            chains: t.5,
            sensors: t.6,
            islands: t.7,
            trees: b.0,
            moved_proxies: b.1,
            move_array: b.2,
            pair_set: b.3,
            graph_colors: g,
        }),
{
}

#[verifier::spinoff_prover]
#[verifier::rlimit(80)]
proof fn lemma_image_front(w: World)
    requires
        world_image_fits(w),
    ensures
        ({
            let d = world_image_bytes(w);
            let pl = world_pools_image(w).len() as int;
            let tl = world_tables_image(w).len() as int;
            &&& header_step(d, 0) == Some((current_header(), 16int))
            &&& header_accepted(current_header())
            &&& world_config_read(d, true, 16) == (w.config, (true, 97int))
            &&& pools_step(d, 97) == Some((
                seq![w.body_id_pool@, w.shape_id_pool@, w.chain_id_pool@, w.contact_id_pool@, w.joint_id_pool@, w.island_id_pool@, w.solver_set_id_pool@],
                97 + pl,
            ))
            &&& tables_step(d, 97 + pl) == Some((
                (solver_set_views(w.solver_sets@), body_views(w.bodies@), shape_views(w.shapes@), contact_views(w.contacts@),
                    joint_views(w.joints@), chain_views(w.chain_shapes@), sensor_views(w.sensors@), island_views(w.islands@)),
                97 + pl + tl,
            ))
        }),
{
    let d = world_image_bytes(w);
    let pl = world_pools_image(w).len() as int;
    lemma_image_split(w);
    law_head_steps(w, d);
    law_tables_step(w, d, 97 + pl);
}

#[verifier::spinoff_prover]
#[verifier::rlimit(80)]
proof fn lemma_image_back(w: World)
    requires
        world_image_fits(w),
    ensures
        ({
            let d = world_image_bytes(w);
            let pl = world_pools_image(w).len() as int;
            let tl = world_tables_image(w).len() as int;
            let fl = broad_phase_image(w.broad_phase).len() as int;
            &&& broad_phase_step(d, 97 + pl + tl) == Some((
                (tree_views(w.broad_phase.trees@), bitset_views(w.broad_phase.moved_proxies@), w.broad_phase.move_array@, w.broad_phase.pair_set@),
                97 + pl + tl + fl,
            ))
            &&& graph_color_run_step(d, 97 + pl + tl + fl, GRAPH_COLOR_COUNT as nat) == Some((color_views(w.graph_colors@), d.len() as int))
        }),
{
    let d = world_image_bytes(w);
    let pl = world_pools_image(w).len() as int;
    let tl = world_tables_image(w).len() as int;
    let fl = broad_phase_image(w.broad_phase).len() as int;
    lemma_image_split(w);
    law_broad_phase_step(w.broad_phase, d, 97 + pl + tl);
    law_graph_color_run_steps(w.graph_colors@, d, 97 + pl + tl + fl);
}

/// A world's image starts with the header this build writes, and holds
/// more than the header.
pub proof fn law_world_image_header(w: World)
    ensures
        world_image_bytes(w).len() > 16,
        world_image_bytes(w).subrange(0, 16) == snap_header_bytes(current_header()),
{
    lemma_image_split(w);
}

/// A world's image reads back as the world: its settings, id pools,
/// tables, broad phase and graph colors, with user data, which an image
/// does not hold, zeroed, and the overflow color, which keeps no body set,
/// with an empty one.
#[verifier::spinoff_prover]
#[verifier::rlimit(100)]
pub proof fn law_world_image_round_trip(w: World)
    requires
        world_image_fits(w),
    ensures
        world_image_read(world_image_bytes(w)) == Some(world_image_of(w)),
{
    let d = world_image_bytes(w);
    let pl = world_pools_image(w).len() as int;
    let tl = world_tables_image(w).len() as int;
    let fl = broad_phase_image(w.broad_phase).len() as int;
    lemma_image_front(w);
    lemma_image_back(w);
    lemma_image_from(d, w.config,
        seq![w.body_id_pool@, w.shape_id_pool@, w.chain_id_pool@, w.contact_id_pool@, w.joint_id_pool@, w.island_id_pool@, w.solver_set_id_pool@],
        (solver_set_views(w.solver_sets@), body_views(w.bodies@), shape_views(w.shapes@), contact_views(w.contacts@),
            joint_views(w.joints@), chain_views(w.chain_shapes@), sensor_views(w.sensors@), island_views(w.islands@)),
        (tree_views(w.broad_phase.trees@), bitset_views(w.broad_phase.moved_proxies@), w.broad_phase.move_array@, w.broad_phase.pair_set@),
        color_views(w.graph_colors@), 97 + pl, 97 + pl + tl, 97 + pl + tl + fl, d.len() as int);
}

/// What a world holding another's image shares with it, record by record.
proof fn lemma_held_records(w1: World, w2: World)
    requires
        world_holds(w1, world_image_of(w2)),
    ensures
        w1.bodies@.len() == w2.bodies@.len(),
        w1.solver_sets@.len() == w2.solver_sets@.len(),
        forall|i: int| 0 <= i < w1.bodies@.len() ==> {
            &&& (#[trigger] w1.bodies@[i]).id == w2.bodies@[i].id
            &&& w1.bodies@[i].set_index == w2.bodies@[i].set_index
            &&& w1.bodies@[i].local_index == w2.bodies@[i].local_index
        },
        forall|k: int| 0 <= k < w1.solver_sets@.len() ==> {
            &&& (#[trigger] w1.solver_sets@[k]).body_sims@ == w2.solver_sets@[k].body_sims@
            &&& w1.solver_sets@[k].body_states@ == w2.solver_sets@[k].body_states@
        },
{
    assert(w1.bodies@.map_values(|x: Body| x@).len() == body_views(w2.bodies@).len());
    assert(w1.solver_sets@.map_values(|x: SolverSet| x@).len() == solver_set_views(w2.solver_sets@).len());
    assert forall|i: int| 0 <= i < w1.bodies@.len() implies {
        &&& (#[trigger] w1.bodies@[i]).id == w2.bodies@[i].id
        &&& w1.bodies@[i].set_index == w2.bodies@[i].set_index
        &&& w1.bodies@[i].local_index == w2.bodies@[i].local_index
    } by {
        assert(w1.bodies@.map_values(|x: Body| x@)[i] == body_views(w2.bodies@)[i]);
    }
    assert forall|k: int| 0 <= k < w1.solver_sets@.len() implies {
        &&& (#[trigger] w1.solver_sets@[k]).body_sims@ == w2.solver_sets@[k].body_sims@
        &&& w1.solver_sets@[k].body_states@ == w2.solver_sets@[k].body_states@
    } by {
        assert(w1.solver_sets@.map_values(|x: SolverSet| x@)[k] == solver_set_views(w2.solver_sets@)[k]);
    }
}

proof fn lemma_state_hash_upto(w1: World, w2: World, n: nat)
    requires
        world_holds(w1, world_image_of(w2)),
        bodies_located(w2),
        n <= w2.bodies@.len(),
    ensures
        state_hash_upto(w1, n) == state_hash_upto(w2, n),
    decreases n,
{
    if n > 0 {
        lemma_state_hash_upto(w1, w2, (n - 1) as nat);
        lemma_held_records(w1, w2);
        let i = n - 1;
        let b = w2.bodies@[i];
        if b.id == i {
            assert(w1.bodies@[i].id == b.id);
            assert(w1.solver_sets@[b.set_index as int].body_sims@ == w2.solver_sets@[b.set_index as int].body_sims@);
            if b.set_index == AWAKE_SET {
                assert(w1.solver_sets@[AWAKE_SET as int].body_states@ == w2.solver_sets@[AWAKE_SET as int].body_states@);
            }
        } else {
            assert(w1.bodies@[i].id == b.id);
        }
    }
}

/// A world that holds another world's image, as a restore from that
/// world's snapshot leaves it, has its bodies where that world has them
/// and the same state hash.
pub proof fn law_restored_state_hash(w1: World, w2: World)
    requires
        world_holds(w1, world_image_of(w2)),
        bodies_located(w2),
    ensures
        bodies_located(w1),
        state_hash(w1) == state_hash(w2),
{
    lemma_held_records(w1, w2);
    lemma_state_hash_upto(w1, w2, w2.bodies@.len());
    assert forall|i: int| 0 <= i < w1.bodies@.len() && (#[trigger] w1.bodies@[i]).id == i implies {
        let b = w1.bodies@[i];
        &&& 0 <= b.set_index < w1.solver_sets@.len()
        &&& 0 <= b.local_index < w1.solver_sets@[b.set_index as int].body_sims@.len()
        &&& b.set_index == AWAKE_SET ==> b.local_index < w1.solver_sets@[AWAKE_SET as int].body_states@.len()
    } by {
        assert(w2.bodies@[i].id == i);
        let b = w2.bodies@[i];
        assert(w1.solver_sets@[b.set_index as int].body_sims@ == w2.solver_sets@[b.set_index as int].body_sims@);
        if b.set_index == AWAKE_SET {
            assert(w1.solver_sets@[AWAKE_SET as int].body_states@ == w2.solver_sets@[AWAKE_SET as int].body_states@);
        }
    }
}

/// The solver data a world holding another's image shares with it.
proof fn lemma_held_constraints(w1: World, w2: World)
    requires
        world_holds(w1, world_image_of(w2)),
    ensures
        w1.contacts@ == w2.contacts@,
        w1.joints@.len() == w2.joints@.len(),
        w1.graph_colors@.len() == w2.graph_colors@.len(),
        w1.solver_sets@.len() == w2.solver_sets@.len(),
        forall|i: int| 0 <= i < w1.joints@.len() ==> {
            &&& (#[trigger] w1.joints@[i]).joint_id == w2.joints@[i].joint_id
            &&& w1.joints@[i].set_index == w2.joints@[i].set_index
            &&& w1.joints@[i].color_index == w2.joints@[i].color_index
            &&& w1.joints@[i].local_index == w2.joints@[i].local_index
        },
        forall|k: int| 0 <= k < w1.graph_colors@.len() ==> {
            &&& (#[trigger] w1.graph_colors@[k]).contact_sims@ == w2.graph_colors@[k].contact_sims@
            &&& w1.graph_colors@[k].joint_sims@ == w2.graph_colors@[k].joint_sims@
        },
        forall|k: int| 0 <= k < w1.solver_sets@.len() ==> {
            &&& (#[trigger] w1.solver_sets@[k]).contact_sims@ == w2.solver_sets@[k].contact_sims@
            &&& w1.solver_sets@[k].joint_sims@ == w2.solver_sets@[k].joint_sims@
        },
        w1.body_id_pool@ == w2.body_id_pool@,
        w1.shape_id_pool@ == w2.shape_id_pool@,
        w1.chain_id_pool@ == w2.chain_id_pool@,
        w1.contact_id_pool@ == w2.contact_id_pool@,
        w1.joint_id_pool@ == w2.joint_id_pool@,
        w1.island_id_pool@ == w2.island_id_pool@,
        w1.solver_set_id_pool@ == w2.solver_set_id_pool@,
{
    assert(w1.contacts@ =~= w2.contacts@) by {
        assert(contact_views(w2.contacts@) =~= w2.contacts@);
    }
    assert(w1.joints@.len() == joint_views(w2.joints@).len());
    assert(w1.graph_colors@.map_values(|x: GraphColor| x@).len() == color_views(w2.graph_colors@).len());
    assert(w1.solver_sets@.map_values(|x: SolverSet| x@).len() == solver_set_views(w2.solver_sets@).len());
    assert forall|i: int| 0 <= i < w1.joints@.len() implies {
        &&& (#[trigger] w1.joints@[i]).joint_id == w2.joints@[i].joint_id
        &&& w1.joints@[i].set_index == w2.joints@[i].set_index
        &&& w1.joints@[i].color_index == w2.joints@[i].color_index
        &&& w1.joints@[i].local_index == w2.joints@[i].local_index
    } by {
        assert(w1.joints@[i] == joint_views(w2.joints@)[i]);
    }
    assert forall|k: int| 0 <= k < w1.graph_colors@.len() implies {
        &&& (#[trigger] w1.graph_colors@[k]).contact_sims@ == w2.graph_colors@[k].contact_sims@
        &&& w1.graph_colors@[k].joint_sims@ == w2.graph_colors@[k].joint_sims@
    } by {
        assert(w1.graph_colors@.map_values(|x: GraphColor| x@)[k] == color_views(w2.graph_colors@)[k]);
    }
    assert forall|k: int| 0 <= k < w1.solver_sets@.len() implies {
        &&& (#[trigger] w1.solver_sets@[k]).contact_sims@ == w2.solver_sets@[k].contact_sims@
        &&& w1.solver_sets@[k].joint_sims@ == w2.solver_sets@[k].joint_sims@
    } by {
        assert(w1.solver_sets@.map_values(|x: SolverSet| x@)[k] == solver_set_views(w2.solver_sets@)[k]);
    }
    let p1 = seq![w1.body_id_pool@, w1.shape_id_pool@, w1.chain_id_pool@, w1.contact_id_pool@, w1.joint_id_pool@, w1.island_id_pool@, w1.solver_set_id_pool@];
    let p2 = seq![w2.body_id_pool@, w2.shape_id_pool@, w2.chain_id_pool@, w2.contact_id_pool@, w2.joint_id_pool@, w2.island_id_pool@, w2.solver_set_id_pool@];
    assert(p1[0] == p2[0] && p1[1] == p2[1] && p1[2] == p2[2] && p1[3] == p2[3] && p1[4] == p2[4] && p1[5] == p2[5] && p1[6] == p2[6]);
}

proof fn lemma_deep_bodies_upto(w1: World, w2: World, n: nat)
    requires
        world_holds(w1, world_image_of(w2)),
        bodies_located(w2),
        n <= w2.bodies@.len(),
    ensures
        deep_bodies_upto(w1, n) == deep_bodies_upto(w2, n),
    decreases n,
{
    if n > 0 {
        lemma_deep_bodies_upto(w1, w2, (n - 1) as nat);
        lemma_held_records(w1, w2);
        let i = n - 1;
        let b = w2.bodies@[i];
        assert(w1.bodies@[i].id == b.id);
        if b.id == i {
            assert(w1.solver_sets@[b.set_index as int].body_sims@ == w2.solver_sets@[b.set_index as int].body_sims@);
            if b.set_index == AWAKE_SET {
                assert(w1.solver_sets@[AWAKE_SET as int].body_states@ == w2.solver_sets@[AWAKE_SET as int].body_states@);
            }
        }
    }
}

proof fn lemma_deep_contacts_upto(w1: World, w2: World, h: u64, n: nat)
    requires
        world_holds(w1, world_image_of(w2)),
        constraints_located(w2),
        n <= w2.contacts@.len(),
    ensures
        deep_contacts_upto(w1, h, n) == deep_contacts_upto(w2, h, n),
    decreases n,
{
    if n > 0 {
        lemma_deep_contacts_upto(w1, w2, h, (n - 1) as nat);
        lemma_held_constraints(w1, w2);
        let i = n - 1;
        let c = w2.contacts@[i];
        if c.contact_id == i {
            if c.set_index == AWAKE_SET && c.color_index != NULL_INDEX {
                assert(w1.graph_colors@[c.color_index as int].contact_sims@ == w2.graph_colors@[c.color_index as int].contact_sims@);
            } else {
                assert(w1.solver_sets@[c.set_index as int].contact_sims@ == w2.solver_sets@[c.set_index as int].contact_sims@);
            }
            assert(contact_sim_of(w1, c) == contact_sim_of(w2, c));
        }
    }
}

proof fn lemma_deep_joints_upto(w1: World, w2: World, h: u64, n: nat)
    requires
        world_holds(w1, world_image_of(w2)),
        constraints_located(w2),
        n <= w2.joints@.len(),
    ensures
        deep_joints_upto(w1, h, n) == deep_joints_upto(w2, h, n),
    decreases n,
{
    if n > 0 {
        lemma_deep_joints_upto(w1, w2, h, (n - 1) as nat);
        lemma_held_constraints(w1, w2);
        let i = n - 1;
        let j = w2.joints@[i];
        assert(w1.joints@[i].joint_id == j.joint_id);
        if j.joint_id == i {
            if j.set_index == AWAKE_SET && j.color_index != NULL_INDEX {
                assert(w1.graph_colors@[j.color_index as int].joint_sims@ == w2.graph_colors@[j.color_index as int].joint_sims@);
            } else {
                assert(w1.solver_sets@[j.set_index as int].joint_sims@ == w2.solver_sets@[j.set_index as int].joint_sims@);
            }
            assert(joint_sim_of(w1, w1.joints@[i]) == joint_sim_of(w2, j));
        }
    }
}

/// A world that holds another world's image, as a restore from that
/// world's snapshot leaves it, has the same deep state hash: the same
/// body bookkeeping, contact impulses, joint impulses, id pools and
/// number of solver sets.
pub proof fn law_restored_deep_hash(w1: World, w2: World)
    requires
        world_holds(w1, world_image_of(w2)),
        bodies_located(w2),
        constraints_located(w2),
    ensures
        deep_state_hash(w1) == deep_state_hash(w2),
{
    lemma_held_records(w1, w2);
    lemma_held_constraints(w1, w2);
    lemma_deep_bodies_upto(w1, w2, w2.bodies@.len());
    let h0 = deep_bodies_upto(w2, w2.bodies@.len());
    lemma_deep_contacts_upto(w1, w2, h0, w2.contacts@.len());
    let h1 = deep_contacts_upto(w2, h0, w2.contacts@.len());
    lemma_deep_joints_upto(w1, w2, h1, w2.joints@.len());
}
} // verus!
