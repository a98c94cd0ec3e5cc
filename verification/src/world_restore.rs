use vstd::prelude::*;
use crate::containers::{count_fits, id_pool_bytes, law_id_pool_round_trip, lemma_i32s_layout, qword_at, r_i32s, r_u64s, BitSet, HashSet, IdPool};
use crate::joint::{Joint, JointSim};
use crate::recording::decode::{i32_read, lemma_split, read_i32, read_u32};
use crate::sensor::{visitors_read, Sensor, Visitor};
use crate::shape::{ChainShape, Shape};
use crate::snapshot::{after, count_ok, current_header, law_current_header_compatible, law_snap_header_round_trip, snap_header_bytes, value_at, word_at, SnapHeader, SnapReader, GRAPH_COLOR_COUNT, SNAP_FLAG_DOUBLE_PRECISION, SNAP_MAGIC, SNAP_VERSION};
use crate::snapshot_bodies::{body_read, contact_read, contact_sim_read, des_body, des_contact, BodyView, Contact, ContactSim};
use crate::snapshot_joints::{des_joint, joint_read};
use crate::snapshot_shapes::{des_shape, shape_read};
use crate::snapshot_structs::{after_run, des_island, i32_at, material_at, r_material, ContactLink, Island, JointLink};
use crate::snapshot_tree::{des_tree, des_world_config, law_world_config_round_trip, tree_read, world_config_image, world_config_read, DynamicTree, DynamicTreeView, WorldConfig};
use crate::snapshot_world::{
    contact_sim_run_read, des_solver_set, joint_sim_run_read, read_contact_sim_run, read_joint_sim_run, solver_set_read,
    SolverSetView,
};
use crate::containers::{des_bitset, des_hashset, des_id_pool};
use crate::sensor::des_sensor;
use crate::recording::{decode_rec_header, RecHeader, REC_MAGIC, REC_VERSION_MAJOR, REC_VERSION_MINOR};
use crate::types::SurfaceMaterial;
use crate::world::{Body, BroadPhase, GraphColor, SolverSet, World};
use crate::world_image::world_pools_image;

verus! {

// Restoring a world from its image: every table is read into fresh
// storage first, and the live world changes only once the whole image has
// read back cleanly.

/// Number of broad-phase trees: one per body type.
pub const TREE_COUNT: usize = 3;

/// An id pool as the contracts see it.
pub struct IdPoolView {
    pub free_array: Seq<i32>,
    pub next_index: i32,
}

impl View for IdPool {
    type V = IdPoolView;

    open spec fn view(&self) -> IdPoolView {
        IdPoolView { free_array: self.free_array@, next_index: self.next_index }
    }
}

/// A bit set as the contracts see it.
pub struct BitSetView {
    pub block_count: u32,
    pub blocks: Seq<u64>,
}

impl View for BitSet {
    type V = BitSetView;

    open spec fn view(&self) -> BitSetView {
        BitSetView { block_count: self.block_count, blocks: self.blocks@ }
    }
}

/// A key set as the contracts see it.
pub struct HashSetView {
    pub count: u32,
    pub items: Seq<u64>,
}

impl View for HashSet {
    type V = HashSetView;

    open spec fn view(&self) -> HashSetView {
        HashSetView { count: self.count, items: self.items@ }
    }
}

/// A chain slot as the contracts see it.
pub struct ChainView {
    pub id: i32,
    pub body_id: i32,
    pub next_chain_id: i32,
    pub shape_indices: Seq<i32>,
    pub materials: Seq<SurfaceMaterial>,
    pub generation: u16,
}

impl View for ChainShape {
    type V = ChainView;

    open spec fn view(&self) -> ChainView {
        ChainView {
            id: self.id,
            body_id: self.body_id,
            next_chain_id: self.next_chain_id,
            shape_indices: self.shape_indices@,
            materials: self.materials@,
            generation: self.generation,
        }
    }
}

/// A sensor as the contracts see it.
pub struct SensorView {
    pub hits: Seq<Visitor>,
    pub overlaps1: Seq<Visitor>,
    pub overlaps2: Seq<Visitor>,
    pub shape_id: i32,
}

impl View for Sensor {
    type V = SensorView;

    open spec fn view(&self) -> SensorView {
        SensorView { hits: self.hits@, overlaps1: self.overlaps1@, overlaps2: self.overlaps2@, shape_id: self.shape_id }
    }
}

/// An island slot as the contracts see it.
pub struct IslandView {
    pub set_index: i32,
    pub local_index: i32,
    pub island_id: i32,
    pub constraint_remove_count: i32,
    pub bodies: Seq<i32>,
    pub contacts: Seq<ContactLink>,
    pub joints: Seq<JointLink>,
}

impl View for Island {
    type V = IslandView;

    open spec fn view(&self) -> IslandView {
        IslandView {
            set_index: self.set_index,
            local_index: self.local_index,
            island_id: self.island_id,
            constraint_remove_count: self.constraint_remove_count,
            bodies: self.bodies@,
            contacts: self.contacts@,
            joints: self.joints@,
        }
    }
}

/// A graph color as the contracts see it.
pub struct GraphColorView {
    pub body_set: BitSetView,
    pub contact_sims: Seq<ContactSim>,
    pub joint_sims: Seq<JointSim>,
}

impl View for GraphColor {
    type V = GraphColorView;

    open spec fn view(&self) -> GraphColorView {
        GraphColorView { body_set: self.body_set@, contact_sims: self.contact_sims@, joint_sims: self.joint_sims@ }
    }
}

/// The header read at `c`, and where it ends; `None` past the end.
pub open spec fn header_step(d: Seq<u8>, c: int) -> Option<(SnapHeader, int)> {
    if c + 16 <= d.len() {
        Some((SnapHeader {
            magic: word_at(d, true, c, 0),
            version: word_at(d, true, c, 1),
            layout_hash: word_at(d, true, c, 2),
            flags: word_at(d, true, c, 3),
        }, c + 16))
    } else {
        None
    }
}

/// A header this build accepts: its magic, version and layout, and the
/// same real precision.
pub open spec fn header_accepted(h: SnapHeader) -> bool {
    h.magic == SNAP_MAGIC && h.version == SNAP_VERSION && h.layout_hash == current_header().layout_hash
        && (h.flags & SNAP_FLAG_DOUBLE_PRECISION) == (current_header().flags & SNAP_FLAG_DOUBLE_PRECISION)
}

/// An id pool read from `c`: its counted free list, then its next index.
pub open spec fn id_pool_step(d: Seq<u8>, c: int) -> Option<(IdPoolView, int)> {
    let count = word_at(d, true, c, 0) as i32;
    if count_fits(d, true, c, 4, count, 4) && c + 4 * count + 8 <= d.len() {
        Some((IdPoolView {
            free_array: Seq::new(count as nat, |k: int| word_at(d, true, c, 1 + k) as i32),
            next_index: word_at(d, true, c, 1 + count) as i32,
        }, c + 4 * count + 8))
    } else {
        None
    }
}

fn step_id_pool(r: &mut SnapReader) -> (x: IdPool)
    requires
        old(r).ok,
    ensures
        final(r).data@ == old(r).data@,
        final(r).ok == id_pool_step(old(r).data@, old(r).cursor as int) is Some,
        final(r).ok ==> id_pool_step(old(r).data@, old(r).cursor as int) == Some((x@, final(r).cursor as int)),
{
    let ghost d = old(r).data@;
    let ghost c = old(r).cursor as int;
    let x = des_id_pool(r);
    proof {
        let count = word_at(d, true, c, 0) as i32;
        if r.ok {
            assert(x.free_array@ =~= Seq::new(count as nat, |k: int| word_at(d, true, c, 1 + k) as i32));
        }
    }
    x
}

/// A bit set read from `c`: its block count, then its counted blocks.
pub open spec fn bitset_step(d: Seq<u8>, c: int) -> Option<(BitSetView, int)> {
    let capacity = value_at(d, true, c + 4, 4) as u32 as i32;
    if c + 8 <= d.len() && count_ok(d, c + 8, capacity, 8) {
        Some((BitSetView {
            block_count: value_at(d, true, c, 4) as u32,
            blocks: Seq::new(capacity as nat, |k: int| qword_at(d, true, c + 8, k)),
        }, c + 8 + 8 * capacity))
    } else {
        None
    }
}

fn step_bitset(r: &mut SnapReader) -> (x: BitSet)
    requires
        old(r).ok,
    ensures
        final(r).data@ == old(r).data@,
        final(r).ok == bitset_step(old(r).data@, old(r).cursor as int) is Some,
        final(r).ok ==> bitset_step(old(r).data@, old(r).cursor as int) == Some((x@, final(r).cursor as int)),
{
    let ghost d = old(r).data@;
    let ghost c = old(r).cursor as int;
    let block_count = read_u32(r);
    let capacity = read_i32(r);
    if !r.ok || !r.check_count(capacity, 8) {
        r.ok = false;
        return BitSet { block_count: 0, blocks: Vec::new() };
    }
    let blocks = r_u64s(r, capacity);
    proof {
        assert(blocks@ =~= Seq::new(capacity as nat, |k: int| qword_at(d, true, c + 8, k)));
    }
    BitSet { block_count, blocks }
}

/// A key set read from `c`: its key count, then its counted slots.
pub open spec fn hashset_step(d: Seq<u8>, c: int) -> Option<(HashSetView, int)> {
    let capacity = value_at(d, true, c + 4, 4) as u32 as i32;
    if c + 8 <= d.len() && count_ok(d, c + 8, capacity, 8) {
        Some((HashSetView {
            count: value_at(d, true, c, 4) as u32,
            items: Seq::new(capacity as nat, |k: int| qword_at(d, true, c + 8, k)),
        }, c + 8 + 8 * capacity))
    } else {
        None
    }
}

fn step_hashset(r: &mut SnapReader) -> (x: HashSet)
    requires
        old(r).ok,
    ensures
        final(r).data@ == old(r).data@,
        final(r).ok == hashset_step(old(r).data@, old(r).cursor as int) is Some,
        final(r).ok ==> hashset_step(old(r).data@, old(r).cursor as int) == Some((x@, final(r).cursor as int)),
{
    let ghost d = old(r).data@;
    let ghost c = old(r).cursor as int;
    let count = read_u32(r);
    let capacity = read_i32(r);
    if !r.ok || !r.check_count(capacity, 8) {
        r.ok = false;
        return HashSet { count: 0, items: Vec::new() };
    }
    let items = r_u64s(r, capacity);
    proof {
        assert(items@ =~= Seq::new(capacity as nat, |k: int| qword_at(d, true, c + 8, k)));
    }
    HashSet { count, items }
}

/// A chain slot read from `c`: id, body, next chain, generation, then its
/// counted segment indices and materials, each count guarded (four and
/// 28 bytes an element).
pub open spec fn chain_step(d: Seq<u8>, c: int) -> Option<(ChainView, int)> {
    let n = value_at(d, true, c + 14, 4) as u32 as i32;
    let c5 = c + 18;
    let m = value_at(d, true, c5 + 4 * n, 4) as u32 as i32;
    let c7 = c5 + 4 * n + 4;
    if c5 <= d.len() && count_ok(d, c5, n, 4) && c7 <= d.len() && count_ok(d, c7, m, 28) {
        Some((ChainView {
            id: value_at(d, true, c, 4) as u32 as i32,
            body_id: value_at(d, true, c + 4, 4) as u32 as i32,
            next_chain_id: value_at(d, true, c + 8, 4) as u32 as i32,
            generation: value_at(d, true, c + 12, 2) as u16,
            shape_indices: Seq::new(n as nat, |k: int| word_at(d, true, c5, k) as i32),
            materials: Seq::new(m as nat, |k: int| material_at(d, true, c7, k)),
        }, c7 + 28 * m))
    } else {
        None
    }
}

/// A sensor read from `c`: its shape id, then three visitor lists.
pub open spec fn sensor_step(d: Seq<u8>, c: int) -> Option<(SensorView, int)> {
    let ok1 = c + 4 <= d.len();
    let c1 = if ok1 { c + 4 } else { c };
    let a = visitors_read(d, ok1, c1);
    let b = visitors_read(d, a.1, a.2);
    let e = visitors_read(d, b.1, b.2);
    if e.1 {
        Some((SensorView { hits: a.0, overlaps1: b.0, overlaps2: e.0, shape_id: word_at(d, true, c, 0) as i32 }, e.2))
    } else {
        None
    }
}

/// An island slot read from `c`: its four indices, then its counted
/// bodies, contact links and joint links.
pub open spec fn island_step(d: Seq<u8>, c: int) -> Option<(IslandView, int)> {
    let s1 = after(d, true, c, 4);
    let s2 = after(d, s1.0, s1.1, 4);
    let s3 = after(d, s2.0, s2.1, 4);
    let s4 = after(d, s3.0, s3.1, 4);
    let n1 = i32_at(d, s4.0, s4.1);
    let s5 = after(d, s4.0, s4.1, 4);
    let s6 = after_run(s5, n1 as int, 4);
    let n2 = i32_at(d, s6.0, s6.1);
    let s7 = after(d, s6.0, s6.1, 4);
    let s8 = after_run(s7, n2 as int, 12);
    let n3 = i32_at(d, s8.0, s8.1);
    let s9 = after(d, s8.0, s8.1, 4);
    if count_ok(d, s5.1, n1, 4) && count_ok(d, s7.1, n2, 12) && count_ok(d, s9.1, n3, 12) && after_run(s9, n3 as int, 12).0 {
        Some((IslandView {
            set_index: i32_at(d, true, c),
            local_index: i32_at(d, s1.0, s1.1),
            island_id: i32_at(d, s2.0, s2.1),
            constraint_remove_count: i32_at(d, s3.0, s3.1),
            bodies: Seq::new(n1 as nat, |k: int| word_at(d, s5.0, s5.1, k) as i32),
            contacts: Seq::new(n2 as nat, |k: int| ContactLink {
                contact_id: word_at(d, s7.0, s7.1, 3 * k) as i32,
                body_id_a: word_at(d, s7.0, s7.1, 3 * k + 1) as i32,
                body_id_b: word_at(d, s7.0, s7.1, 3 * k + 2) as i32,
            }),
            joints: Seq::new(n3 as nat, |k: int| JointLink {
                joint_id: word_at(d, s9.0, s9.1, 3 * k) as i32,
                body_id_a: word_at(d, s9.0, s9.1, 3 * k + 1) as i32,
                body_id_b: word_at(d, s9.0, s9.1, 3 * k + 2) as i32,
            }),
        }, after_run(s9, n3 as int, 12).1))
    } else {
        None
    }
}

/// A broad-phase tree read from `c`; `None` when its node count fails
/// the guard or the reader goes bad.
pub open spec fn tree_step(d: Seq<u8>, c: int) -> Option<(DynamicTreeView, int)> {
    let (t, s) = tree_read(d, true, c);
    if s.0 && t is Some {
        Some((t->0, s.1))
    } else {
        None
    }
}

fn step_tree(r: &mut SnapReader) -> (x: DynamicTree)
    requires
        old(r).ok,
    ensures
        final(r).data@ == old(r).data@,
        final(r).ok == tree_step(old(r).data@, old(r).cursor as int) is Some,
        final(r).ok ==> tree_step(old(r).data@, old(r).cursor as int) == Some((x@, final(r).cursor as int)),
{
    match des_tree(r) {
        Some(t) => t,
        None => {
            r.ok = false;
            DynamicTree { root: -1, node_count: 0, free_list: -1, proxy_count: 0, nodes: Vec::new() }
        },
    }
}

/// The contact sims and joint sims of a graph color read from `c`, each
/// run behind a count guarded at 80 and 60 bytes an element.
pub open spec fn color_sims_step(d: Seq<u8>, c: int) -> Option<((Seq<ContactSim>, Seq<JointSim>), int)> {
    let (n1, s1) = i32_read(d, true, c);
    if !s1.0 || !count_ok(d, s1.1, n1, 80) {
        None
    } else {
        let (contact_sims, s2) = contact_sim_run_read(d, true, s1.1, n1 as nat);
        let (n2, s3) = i32_read(d, s2.0, s2.1);
        if !s3.0 || !count_ok(d, s3.1, n2, 60) {
            None
        } else {
            let (joint_sims, s4) = joint_sim_run_read(d, true, s3.1, n2 as nat);
            if s4.0 {
                Some(((contact_sims, joint_sims), s4.1))
            } else {
                None
            }
        }
    }
}

#[verifier::spinoff_prover]
fn step_color_sims(r: &mut SnapReader) -> (x: (Vec<ContactSim>, Vec<JointSim>))
    requires
        old(r).ok,
    ensures
        final(r).data@ == old(r).data@,
        final(r).ok == color_sims_step(old(r).data@, old(r).cursor as int) is Some,
        final(r).ok ==> color_sims_step(old(r).data@, old(r).cursor as int) == Some(((x.0@, x.1@), final(r).cursor as int)),
{
    let n = read_i32(r);
    if !r.ok || !r.check_count(n, 80) {
        r.ok = false;
        return (Vec::new(), Vec::new());
    }
    let contact_sims = read_contact_sim_run(r, n as usize);
    let n = read_i32(r);
    if !r.ok || !r.check_count(n, 60) {
        r.ok = false;
        return (contact_sims, Vec::new());
    }
    let joint_sims = read_joint_sim_run(r, n as usize);
    (contact_sims, joint_sims)
}

/// A graph color read from `c`: its body set (not for the overflow
/// color), then its contact sims and joint sims.
pub open spec fn graph_color_step(d: Seq<u8>, c: int, overflow: bool) -> Option<(GraphColorView, int)> {
    let set = if overflow { Some((BitSetView { block_count: 0, blocks: Seq::empty() }, c)) } else { bitset_step(d, c) };
    match set {
        None => None,
        Some((body_set, c1)) => match color_sims_step(d, c1) {
            None => None,
            Some(((contact_sims, joint_sims), c2)) => Some((GraphColorView { body_set, contact_sims, joint_sims }, c2)),
        },
    }
}

fn step_graph_color(r: &mut SnapReader, overflow: bool) -> (x: GraphColor)
    requires
        old(r).ok,
    ensures
        final(r).data@ == old(r).data@,
        final(r).ok == graph_color_step(old(r).data@, old(r).cursor as int, overflow) is Some,
        final(r).ok ==> graph_color_step(old(r).data@, old(r).cursor as int, overflow) == Some((x@, final(r).cursor as int)),
{
    let body_set = if overflow { BitSet { block_count: 0, blocks: Vec::new() } } else { step_bitset(r) };
    if !r.ok {
        return GraphColor { body_set, contact_sims: Vec::new(), joint_sims: Vec::new() };
    }
    let (contact_sims, joint_sims) = step_color_sims(r);
    GraphColor { body_set, contact_sims, joint_sims }
}


/// A solver set read from `c` on a good reader, and where it ends; `None`
/// when the reader goes bad.
#[verifier::opaque]
pub open spec fn solver_set_step(d: Seq<u8>, c: int) -> Option<(SolverSetView, int)> {
    let (x, s) = solver_set_read(d, true, c);
    if s.0 {
        Some((x, s.1))
    } else {
        None
    }
}

fn step_solver_set(r: &mut SnapReader) -> (x: SolverSet)
    requires
        old(r).ok,
    ensures
        final(r).data@ == old(r).data@,
        final(r).ok == solver_set_step(old(r).data@, old(r).cursor as int) is Some,
        final(r).ok ==> solver_set_step(old(r).data@, old(r).cursor as int) == Some((x@, final(r).cursor as int)),
{
    let x = des_solver_set(r);
    proof {
        reveal(solver_set_step);
    }
    x
}

/// A body slot read from `c` on a good reader, and where it ends; `None`
/// when the reader goes bad.
pub open spec fn body_step(d: Seq<u8>, c: int) -> Option<(BodyView, int)> {
    let (x, s) = body_read(d, true, c);
    if s.0 {
        Some((x, s.1))
    } else {
        None
    }
}

fn step_body(r: &mut SnapReader) -> (x: Body)
    requires
        old(r).ok,
    ensures
        final(r).data@ == old(r).data@,
        final(r).ok == body_step(old(r).data@, old(r).cursor as int) is Some,
        final(r).ok ==> body_step(old(r).data@, old(r).cursor as int) == Some((x@, final(r).cursor as int)),
{
    des_body(r)
}

/// A shape slot read from `c` on a good reader, and where it ends; `None`
/// when the reader goes bad.
pub open spec fn shape_step(d: Seq<u8>, c: int) -> Option<(Shape, int)> {
    let (x, s) = shape_read(d, true, c);
    if s.0 {
        Some((x, s.1))
    } else {
        None
    }
}

fn step_shape(r: &mut SnapReader) -> (x: Shape)
    requires
        old(r).ok,
    ensures
        final(r).data@ == old(r).data@,
        final(r).ok == shape_step(old(r).data@, old(r).cursor as int) is Some,
        final(r).ok ==> shape_step(old(r).data@, old(r).cursor as int) == Some((x, final(r).cursor as int)),
{
    des_shape(r)
}

/// A contact slot read from `c` on a good reader, and where it ends; `None`
/// when the reader goes bad.
pub open spec fn contact_step(d: Seq<u8>, c: int) -> Option<(Contact, int)> {
    let (x, s) = contact_read(d, true, c);
    if s.0 {
        Some((x, s.1))
    } else {
        None
    }
}

fn step_contact(r: &mut SnapReader) -> (x: Contact)
    requires
        old(r).ok,
    ensures
        final(r).data@ == old(r).data@,
        final(r).ok == contact_step(old(r).data@, old(r).cursor as int) is Some,
        final(r).ok ==> contact_step(old(r).data@, old(r).cursor as int) == Some((x, final(r).cursor as int)),
{
    des_contact(r)
}

/// A joint slot read from `c` on a good reader, and where it ends; `None`
/// when the reader goes bad.
pub open spec fn joint_step(d: Seq<u8>, c: int) -> Option<(Joint, int)> {
    let (x, s) = joint_read(d, true, c);
    if s.0 {
        Some((x, s.1))
    } else {
        None
    }
}

fn step_joint(r: &mut SnapReader) -> (x: Joint)
    requires
        old(r).ok,
    ensures
        final(r).data@ == old(r).data@,
        final(r).ok == joint_step(old(r).data@, old(r).cursor as int) is Some,
        final(r).ok ==> joint_step(old(r).data@, old(r).cursor as int) == Some((x, final(r).cursor as int)),
{
    des_joint(r)
}

fn step_chain(r: &mut SnapReader) -> (x: ChainShape)
    requires
        old(r).ok,
    ensures
        final(r).data@ == old(r).data@,
        final(r).ok == chain_step(old(r).data@, old(r).cursor as int) is Some,
        final(r).ok ==> chain_step(old(r).data@, old(r).cursor as int) == Some((x@, final(r).cursor as int)),
{
    let ghost d = old(r).data@;
    let ghost c = old(r).cursor as int;
    let id = read_i32(r);
    let body_id = read_i32(r);
    let next_chain_id = read_i32(r);
    let generation = r.r_u16();
    let mut chain = ChainShape { id, body_id, next_chain_id, shape_indices: Vec::new(), materials: Vec::new(), generation };
    let n = read_i32(r);
    if !r.ok || !r.check_count(n, 4) {
        r.ok = false;
        return chain;
    }
    chain.shape_indices = r_i32s(r, n);
    let m = read_i32(r);
    if !r.ok || !r.check_count(m, 28) {
        r.ok = false;
        return chain;
    }
    let ghost c7 = r.cursor as int;
    let mut materials: Vec<SurfaceMaterial> = Vec::new();
    let mut j: i32 = 0;
    while j < m
        invariant
            0 <= j <= m,
            r.data@ == d,
            r.ok,
            c7 + 28 * m <= d.len(),
            r.cursor == c7 + 28 * j,
            materials@.len() == j,
            forall|k: int| 0 <= k < j ==> materials@[k] == #[trigger] material_at(d, true, c7, k),
        decreases m - j,
    {
        let ghost before = *r;
        let mat = r_material(r);
        proof {
            assert(material_at(d, true, c7, j as int) == material_at(d, true, before.cursor as int, 0));
        }
        materials.push(mat);
        j = j + 1;
    }
    chain.materials = materials;
    proof {
        assert(chain.shape_indices@ =~= Seq::new(n as nat, |k: int| word_at(d, true, c + 18, k) as i32));
        assert(chain.materials@ =~= Seq::new(m as nat, |k: int| material_at(d, true, c7, k)));
    }
    chain
}

fn step_sensor(r: &mut SnapReader) -> (x: Sensor)
    requires
        old(r).ok,
    ensures
        final(r).data@ == old(r).data@,
        final(r).ok == sensor_step(old(r).data@, old(r).cursor as int) is Some,
        final(r).ok ==> sensor_step(old(r).data@, old(r).cursor as int) == Some((x@, final(r).cursor as int)),
{
    des_sensor(r)
}

fn step_island(r: &mut SnapReader) -> (x: Island)
    requires
        old(r).ok,
    ensures
        final(r).data@ == old(r).data@,
        final(r).ok == island_step(old(r).data@, old(r).cursor as int) is Some,
        final(r).ok ==> island_step(old(r).data@, old(r).cursor as int) == Some((x@, final(r).cursor as int)),
{
    let ghost d = old(r).data@;
    let ghost c = old(r).cursor as int;
    let x = des_island(r);
    proof {
        let s1 = after(d, true, c, 4);
        let s2 = after(d, s1.0, s1.1, 4);
        let s3 = after(d, s2.0, s2.1, 4);
        let s4 = after(d, s3.0, s3.1, 4);
        let n1 = i32_at(d, s4.0, s4.1);
        let s5 = after(d, s4.0, s4.1, 4);
        let s6 = after_run(s5, n1 as int, 4);
        let n2 = i32_at(d, s6.0, s6.1);
        let s7 = after(d, s6.0, s6.1, 4);
        let s8 = after_run(s7, n2 as int, 12);
        let n3 = i32_at(d, s8.0, s8.1);
        let s9 = after(d, s8.0, s8.1, 4);
        if r.ok {
            assert(x.bodies@ =~= Seq::new(n1 as nat, |k: int| word_at(d, s5.0, s5.1, k) as i32));
            assert(x.contacts@ =~= Seq::new(n2 as nat, |k: int| ContactLink {
                contact_id: word_at(d, s7.0, s7.1, 3 * k) as i32,
                body_id_a: word_at(d, s7.0, s7.1, 3 * k + 1) as i32,
                body_id_b: word_at(d, s7.0, s7.1, 3 * k + 2) as i32,
            }));
            assert(x.joints@ =~= Seq::new(n3 as nat, |k: int| JointLink {
                joint_id: word_at(d, s9.0, s9.1, 3 * k) as i32,
                body_id_a: word_at(d, s9.0, s9.1, 3 * k + 1) as i32,
                body_id_b: word_at(d, s9.0, s9.1, 3 * k + 2) as i32,
            }));
        }
    }
    x
}

/// `n` solver sets read in turn from `c`; `None` when the reader goes bad.
pub open spec fn solver_set_run_step(d: Seq<u8>, c: int, n: nat) -> Option<(Seq<SolverSetView>, int)>
    decreases n,
{
    if n == 0 {
        Some((Seq::empty(), c))
    } else {
        match solver_set_run_step(d, c, (n - 1) as nat) {
            None => None,
            Some((s, c1)) => match solver_set_step(d, c1) {
                None => None,
                Some((x, c2)) => Some((s.push(x), c2)),
            },
        }
    }
}

#[verifier::spinoff_prover]
#[verifier::rlimit(40)]
fn step_solver_set_run(r: &mut SnapReader, n: usize) -> (v: Vec<SolverSet>)
    requires
        old(r).ok,
    ensures
        final(r).data@ == old(r).data@,
        final(r).ok == solver_set_run_step(old(r).data@, old(r).cursor as int, n as nat) is Some,
        final(r).ok ==> solver_set_run_step(old(r).data@, old(r).cursor as int, n as nat) == Some((v@.map_values(|x: SolverSet| x@), final(r).cursor as int)),
{
    let ghost d = old(r).data@;
    let ghost c0 = old(r).cursor as int;
    let mut v: Vec<SolverSet> = Vec::new();
    let mut i: usize = 0;
    while i < n
        invariant
            0 <= i <= n,
            r.data@ == d,
            r.ok == solver_set_run_step(d, c0, i as nat) is Some,
            r.ok ==> solver_set_run_step(d, c0, i as nat) == Some((v@.map_values(|x: SolverSet| x@), r.cursor as int)),
        decreases n - i,
    {
        if r.ok {
            let x = step_solver_set(r);
            let ghost before = v@;
            v.push(x);
            proof {
                if r.ok {
                    assert(v@.map_values(|x: SolverSet| x@) =~= before.map_values(|x: SolverSet| x@).push(x@));
                }
            }
        }
        i = i + 1;
    }
    v
}

/// A count, then that many solver sets when the count passes its guard
/// (at least `elem` bytes an element left); `None` when the reader goes bad.
pub open spec fn solver_set_table_step(d: Seq<u8>, c: int, elem: int) -> Option<(Seq<SolverSetView>, int)> {
    let (n, s) = i32_read(d, true, c);
    if !s.0 || !count_ok(d, s.1, n, elem) {
        None
    } else {
        solver_set_run_step(d, s.1, n as nat)
    }
}

fn step_solver_set_table(r: &mut SnapReader, elem: usize) -> (v: Vec<SolverSet>)
    requires
        old(r).ok,
    ensures
        final(r).data@ == old(r).data@,
        final(r).ok == solver_set_table_step(old(r).data@, old(r).cursor as int, elem as int) is Some,
        final(r).ok ==> solver_set_table_step(old(r).data@, old(r).cursor as int, elem as int) == Some((v@.map_values(|x: SolverSet| x@), final(r).cursor as int)),
{
    let n = read_i32(r);
    if !r.ok {
        return Vec::new();
    }
    if !r.check_count(n, elem) {
        return Vec::new();
    }
    step_solver_set_run(r, n as usize)
}

/// `n` body slots read in turn from `c`; `None` when the reader goes bad.
pub open spec fn body_run_step(d: Seq<u8>, c: int, n: nat) -> Option<(Seq<BodyView>, int)>
    decreases n,
{
    if n == 0 {
        Some((Seq::empty(), c))
    } else {
        match body_run_step(d, c, (n - 1) as nat) {
            None => None,
            Some((s, c1)) => match body_step(d, c1) {
                None => None,
                Some((x, c2)) => Some((s.push(x), c2)),
            },
        }
    }
}

#[verifier::spinoff_prover]
#[verifier::rlimit(40)]
fn step_body_run(r: &mut SnapReader, n: usize) -> (v: Vec<Body>)
    requires
        old(r).ok,
    ensures
        final(r).data@ == old(r).data@,
        final(r).ok == body_run_step(old(r).data@, old(r).cursor as int, n as nat) is Some,
        final(r).ok ==> body_run_step(old(r).data@, old(r).cursor as int, n as nat) == Some((v@.map_values(|x: Body| x@), final(r).cursor as int)),
{
    let ghost d = old(r).data@;
    let ghost c0 = old(r).cursor as int;
    let mut v: Vec<Body> = Vec::new();
    let mut i: usize = 0;
    while i < n
        invariant
            0 <= i <= n,
            r.data@ == d,
            r.ok == body_run_step(d, c0, i as nat) is Some,
            r.ok ==> body_run_step(d, c0, i as nat) == Some((v@.map_values(|x: Body| x@), r.cursor as int)),
        decreases n - i,
    {
        if r.ok {
            let x = step_body(r);
            let ghost before = v@;
            v.push(x);
            proof {
                if r.ok {
                    assert(v@.map_values(|x: Body| x@) =~= before.map_values(|x: Body| x@).push(x@));
                }
            }
        }
        i = i + 1;
    }
    v
}

/// A count, then that many body slots when the count passes its guard
/// (at least `elem` bytes an element left); `None` when the reader goes bad.
pub open spec fn body_table_step(d: Seq<u8>, c: int, elem: int) -> Option<(Seq<BodyView>, int)> {
    let (n, s) = i32_read(d, true, c);
    if !s.0 || !count_ok(d, s.1, n, elem) {
        None
    } else {
        body_run_step(d, s.1, n as nat)
    }
}

fn step_body_table(r: &mut SnapReader, elem: usize) -> (v: Vec<Body>)
    requires
        old(r).ok,
    ensures
        final(r).data@ == old(r).data@,
        final(r).ok == body_table_step(old(r).data@, old(r).cursor as int, elem as int) is Some,
        final(r).ok ==> body_table_step(old(r).data@, old(r).cursor as int, elem as int) == Some((v@.map_values(|x: Body| x@), final(r).cursor as int)),
{
    let n = read_i32(r);
    if !r.ok {
        return Vec::new();
    }
    if !r.check_count(n, elem) {
        return Vec::new();
    }
    step_body_run(r, n as usize)
}

/// `n` shape slots read in turn from `c`; `None` when the reader goes bad.
pub open spec fn shape_run_step(d: Seq<u8>, c: int, n: nat) -> Option<(Seq<Shape>, int)>
    decreases n,
{
    if n == 0 {
        Some((Seq::empty(), c))
    } else {
        match shape_run_step(d, c, (n - 1) as nat) {
            None => None,
            Some((s, c1)) => match shape_step(d, c1) {
                None => None,
                Some((x, c2)) => Some((s.push(x), c2)),
            },
        }
    }
}

#[verifier::spinoff_prover]
#[verifier::rlimit(40)]
fn step_shape_run(r: &mut SnapReader, n: usize) -> (v: Vec<Shape>)
    requires
        old(r).ok,
    ensures
        final(r).data@ == old(r).data@,
        final(r).ok == shape_run_step(old(r).data@, old(r).cursor as int, n as nat) is Some,
        final(r).ok ==> shape_run_step(old(r).data@, old(r).cursor as int, n as nat) == Some((v@.map_values(|x: Shape| x), final(r).cursor as int)),
{
    let ghost d = old(r).data@;
    let ghost c0 = old(r).cursor as int;
    let mut v: Vec<Shape> = Vec::new();
    let mut i: usize = 0;
    while i < n
        invariant
            0 <= i <= n,
            r.data@ == d,
            r.ok == shape_run_step(d, c0, i as nat) is Some,
            r.ok ==> shape_run_step(d, c0, i as nat) == Some((v@.map_values(|x: Shape| x), r.cursor as int)),
        decreases n - i,
    {
        if r.ok {
            let x = step_shape(r);
            let ghost before = v@;
            v.push(x);
            proof {
                if r.ok {
                    assert(v@.map_values(|x: Shape| x) =~= before.map_values(|x: Shape| x).push(x));
                }
            }
        }
        i = i + 1;
    }
    v
}

/// A count, then that many shape slots when the count passes its guard
/// (at least `elem` bytes an element left); `None` when the reader goes bad.
pub open spec fn shape_table_step(d: Seq<u8>, c: int, elem: int) -> Option<(Seq<Shape>, int)> {
    let (n, s) = i32_read(d, true, c);
    if !s.0 || !count_ok(d, s.1, n, elem) {
        None
    } else {
        shape_run_step(d, s.1, n as nat)
    }
}

fn step_shape_table(r: &mut SnapReader, elem: usize) -> (v: Vec<Shape>)
    requires
        old(r).ok,
    ensures
        final(r).data@ == old(r).data@,
        final(r).ok == shape_table_step(old(r).data@, old(r).cursor as int, elem as int) is Some,
        final(r).ok ==> shape_table_step(old(r).data@, old(r).cursor as int, elem as int) == Some((v@.map_values(|x: Shape| x), final(r).cursor as int)),
{
    let n = read_i32(r);
    if !r.ok {
        return Vec::new();
    }
    if !r.check_count(n, elem) {
        return Vec::new();
    }
    step_shape_run(r, n as usize)
}

/// `n` contact slots read in turn from `c`; `None` when the reader goes bad.
pub open spec fn contact_run_step(d: Seq<u8>, c: int, n: nat) -> Option<(Seq<Contact>, int)>
    decreases n,
{
    if n == 0 {
        Some((Seq::empty(), c))
    } else {
        match contact_run_step(d, c, (n - 1) as nat) {
            None => None,
            Some((s, c1)) => match contact_step(d, c1) {
                None => None,
                Some((x, c2)) => Some((s.push(x), c2)),
            },
        }
    }
}

#[verifier::spinoff_prover]
#[verifier::rlimit(40)]
fn step_contact_run(r: &mut SnapReader, n: usize) -> (v: Vec<Contact>)
    requires
        old(r).ok,
    ensures
        final(r).data@ == old(r).data@,
        final(r).ok == contact_run_step(old(r).data@, old(r).cursor as int, n as nat) is Some,
        final(r).ok ==> contact_run_step(old(r).data@, old(r).cursor as int, n as nat) == Some((v@.map_values(|x: Contact| x), final(r).cursor as int)),
{
    let ghost d = old(r).data@;
    let ghost c0 = old(r).cursor as int;
    let mut v: Vec<Contact> = Vec::new();
    let mut i: usize = 0;
    while i < n
        invariant
            0 <= i <= n,
            r.data@ == d,
            r.ok == contact_run_step(d, c0, i as nat) is Some,
            r.ok ==> contact_run_step(d, c0, i as nat) == Some((v@.map_values(|x: Contact| x), r.cursor as int)),
        decreases n - i,
    {
        if r.ok {
            let x = step_contact(r);
            let ghost before = v@;
            v.push(x);
            proof {
                if r.ok {
                    assert(v@.map_values(|x: Contact| x) =~= before.map_values(|x: Contact| x).push(x));
                }
            }
        }
        i = i + 1;
    }
    v
}

/// A count, then that many contact slots when the count passes its guard
/// (at least `elem` bytes an element left); `None` when the reader goes bad.
pub open spec fn contact_table_step(d: Seq<u8>, c: int, elem: int) -> Option<(Seq<Contact>, int)> {
    let (n, s) = i32_read(d, true, c);
    if !s.0 || !count_ok(d, s.1, n, elem) {
        None
    } else {
        contact_run_step(d, s.1, n as nat)
    }
}

fn step_contact_table(r: &mut SnapReader, elem: usize) -> (v: Vec<Contact>)
    requires
        old(r).ok,
    ensures
        final(r).data@ == old(r).data@,
        final(r).ok == contact_table_step(old(r).data@, old(r).cursor as int, elem as int) is Some,
        final(r).ok ==> contact_table_step(old(r).data@, old(r).cursor as int, elem as int) == Some((v@.map_values(|x: Contact| x), final(r).cursor as int)),
{
    let n = read_i32(r);
    if !r.ok {
        return Vec::new();
    }
    if !r.check_count(n, elem) {
        return Vec::new();
    }
    step_contact_run(r, n as usize)
}

/// `n` joint slots read in turn from `c`; `None` when the reader goes bad.
pub open spec fn joint_run_step(d: Seq<u8>, c: int, n: nat) -> Option<(Seq<Joint>, int)>
    decreases n,
{
    if n == 0 {
        Some((Seq::empty(), c))
    } else {
        match joint_run_step(d, c, (n - 1) as nat) {
            None => None,
            Some((s, c1)) => match joint_step(d, c1) {
                None => None,
                Some((x, c2)) => Some((s.push(x), c2)),
            },
        }
    }
}

#[verifier::spinoff_prover]
#[verifier::rlimit(40)]
fn step_joint_run(r: &mut SnapReader, n: usize) -> (v: Vec<Joint>)
    requires
        old(r).ok,
    ensures
        final(r).data@ == old(r).data@,
        final(r).ok == joint_run_step(old(r).data@, old(r).cursor as int, n as nat) is Some,
        final(r).ok ==> joint_run_step(old(r).data@, old(r).cursor as int, n as nat) == Some((v@.map_values(|x: Joint| x), final(r).cursor as int)),
{
    let ghost d = old(r).data@;
    let ghost c0 = old(r).cursor as int;
    let mut v: Vec<Joint> = Vec::new();
    let mut i: usize = 0;
    while i < n
        invariant
            0 <= i <= n,
            r.data@ == d,
            r.ok == joint_run_step(d, c0, i as nat) is Some,
            r.ok ==> joint_run_step(d, c0, i as nat) == Some((v@.map_values(|x: Joint| x), r.cursor as int)),
        decreases n - i,
    {
        if r.ok {
            let x = step_joint(r);
            let ghost before = v@;
            v.push(x);
            proof {
                if r.ok {
                    assert(v@.map_values(|x: Joint| x) =~= before.map_values(|x: Joint| x).push(x));
                }
            }
        }
        i = i + 1;
    }
    v
}

/// A count, then that many joint slots when the count passes its guard
/// (at least `elem` bytes an element left); `None` when the reader goes bad.
pub open spec fn joint_table_step(d: Seq<u8>, c: int, elem: int) -> Option<(Seq<Joint>, int)> {
    let (n, s) = i32_read(d, true, c);
    if !s.0 || !count_ok(d, s.1, n, elem) {
        None
    } else {
        joint_run_step(d, s.1, n as nat)
    }
}

fn step_joint_table(r: &mut SnapReader, elem: usize) -> (v: Vec<Joint>)
    requires
        old(r).ok,
    ensures
        final(r).data@ == old(r).data@,
        final(r).ok == joint_table_step(old(r).data@, old(r).cursor as int, elem as int) is Some,
        final(r).ok ==> joint_table_step(old(r).data@, old(r).cursor as int, elem as int) == Some((v@.map_values(|x: Joint| x), final(r).cursor as int)),
{
    let n = read_i32(r);
    if !r.ok {
        return Vec::new();
    }
    if !r.check_count(n, elem) {
        return Vec::new();
    }
    step_joint_run(r, n as usize)
}

/// `n` chain slots read in turn from `c`; `None` when the reader goes bad.
pub open spec fn chain_run_step(d: Seq<u8>, c: int, n: nat) -> Option<(Seq<ChainView>, int)>
    decreases n,
{
    if n == 0 {
        Some((Seq::empty(), c))
    } else {
        match chain_run_step(d, c, (n - 1) as nat) {
            None => None,
            Some((s, c1)) => match chain_step(d, c1) {
                None => None,
                Some((x, c2)) => Some((s.push(x), c2)),
            },
        }
    }
}

#[verifier::spinoff_prover]
#[verifier::rlimit(40)]
fn step_chain_run(r: &mut SnapReader, n: usize) -> (v: Vec<ChainShape>)
    requires
        old(r).ok,
    ensures
        final(r).data@ == old(r).data@,
        final(r).ok == chain_run_step(old(r).data@, old(r).cursor as int, n as nat) is Some,
        final(r).ok ==> chain_run_step(old(r).data@, old(r).cursor as int, n as nat) == Some((v@.map_values(|x: ChainShape| x@), final(r).cursor as int)),
{
    let ghost d = old(r).data@;
    let ghost c0 = old(r).cursor as int;
    let mut v: Vec<ChainShape> = Vec::new();
    let mut i: usize = 0;
    while i < n
        invariant
            0 <= i <= n,
            r.data@ == d,
            r.ok == chain_run_step(d, c0, i as nat) is Some,
            r.ok ==> chain_run_step(d, c0, i as nat) == Some((v@.map_values(|x: ChainShape| x@), r.cursor as int)),
        decreases n - i,
    {
        if r.ok {
            let x = step_chain(r);
            let ghost before = v@;
            v.push(x);
            proof {
                if r.ok {
                    assert(v@.map_values(|x: ChainShape| x@) =~= before.map_values(|x: ChainShape| x@).push(x@));
                }
            }
        }
        i = i + 1;
    }
    v
}

/// A count, then that many chain slots when the count passes its guard
/// (at least `elem` bytes an element left); `None` when the reader goes bad.
pub open spec fn chain_table_step(d: Seq<u8>, c: int, elem: int) -> Option<(Seq<ChainView>, int)> {
    let (n, s) = i32_read(d, true, c);
    if !s.0 || !count_ok(d, s.1, n, elem) {
        None
    } else {
        chain_run_step(d, s.1, n as nat)
    }
}

fn step_chain_table(r: &mut SnapReader, elem: usize) -> (v: Vec<ChainShape>)
    requires
        old(r).ok,
    ensures
        final(r).data@ == old(r).data@,
        final(r).ok == chain_table_step(old(r).data@, old(r).cursor as int, elem as int) is Some,
        final(r).ok ==> chain_table_step(old(r).data@, old(r).cursor as int, elem as int) == Some((v@.map_values(|x: ChainShape| x@), final(r).cursor as int)),
{
    let n = read_i32(r);
    if !r.ok {
        return Vec::new();
    }
    if !r.check_count(n, elem) {
        return Vec::new();
    }
    step_chain_run(r, n as usize)
}

/// `n` sensors read in turn from `c`; `None` when the reader goes bad.
pub open spec fn sensor_run_step(d: Seq<u8>, c: int, n: nat) -> Option<(Seq<SensorView>, int)>
    decreases n,
{
    if n == 0 {
        Some((Seq::empty(), c))
    } else {
        match sensor_run_step(d, c, (n - 1) as nat) {
            None => None,
            Some((s, c1)) => match sensor_step(d, c1) {
                None => None,
                Some((x, c2)) => Some((s.push(x), c2)),
            },
        }
    }
}

#[verifier::spinoff_prover]
#[verifier::rlimit(40)]
fn step_sensor_run(r: &mut SnapReader, n: usize) -> (v: Vec<Sensor>)
    requires
        old(r).ok,
    ensures
        final(r).data@ == old(r).data@,
        final(r).ok == sensor_run_step(old(r).data@, old(r).cursor as int, n as nat) is Some,
        final(r).ok ==> sensor_run_step(old(r).data@, old(r).cursor as int, n as nat) == Some((v@.map_values(|x: Sensor| x@), final(r).cursor as int)),
{
    let ghost d = old(r).data@;
    let ghost c0 = old(r).cursor as int;
    let mut v: Vec<Sensor> = Vec::new();
    let mut i: usize = 0;
    while i < n
        invariant
            0 <= i <= n,
            r.data@ == d,
            r.ok == sensor_run_step(d, c0, i as nat) is Some,
            r.ok ==> sensor_run_step(d, c0, i as nat) == Some((v@.map_values(|x: Sensor| x@), r.cursor as int)),
        decreases n - i,
    {
        if r.ok {
            let x = step_sensor(r);
            let ghost before = v@;
            v.push(x);
            proof {
                if r.ok {
                    assert(v@.map_values(|x: Sensor| x@) =~= before.map_values(|x: Sensor| x@).push(x@));
                }
            }
        }
        i = i + 1;
    }
    v
}

/// A count, then that many sensors when the count passes its guard
/// (at least `elem` bytes an element left); `None` when the reader goes bad.
pub open spec fn sensor_table_step(d: Seq<u8>, c: int, elem: int) -> Option<(Seq<SensorView>, int)> {
    let (n, s) = i32_read(d, true, c);
    if !s.0 || !count_ok(d, s.1, n, elem) {
        None
    } else {
        sensor_run_step(d, s.1, n as nat)
    }
}

fn step_sensor_table(r: &mut SnapReader, elem: usize) -> (v: Vec<Sensor>)
    requires
        old(r).ok,
    ensures
        final(r).data@ == old(r).data@,
        final(r).ok == sensor_table_step(old(r).data@, old(r).cursor as int, elem as int) is Some,
        final(r).ok ==> sensor_table_step(old(r).data@, old(r).cursor as int, elem as int) == Some((v@.map_values(|x: Sensor| x@), final(r).cursor as int)),
{
    let n = read_i32(r);
    if !r.ok {
        return Vec::new();
    }
    if !r.check_count(n, elem) {
        return Vec::new();
    }
    step_sensor_run(r, n as usize)
}

/// `n` island slots read in turn from `c`; `None` when the reader goes bad.
pub open spec fn island_run_step(d: Seq<u8>, c: int, n: nat) -> Option<(Seq<IslandView>, int)>
    decreases n,
{
    if n == 0 {
        Some((Seq::empty(), c))
    } else {
        match island_run_step(d, c, (n - 1) as nat) {
            None => None,
            Some((s, c1)) => match island_step(d, c1) {
                None => None,
                Some((x, c2)) => Some((s.push(x), c2)),
            },
        }
    }
}

#[verifier::spinoff_prover]
#[verifier::rlimit(40)]
fn step_island_run(r: &mut SnapReader, n: usize) -> (v: Vec<Island>)
    requires
        old(r).ok,
    ensures
        final(r).data@ == old(r).data@,
        final(r).ok == island_run_step(old(r).data@, old(r).cursor as int, n as nat) is Some,
        final(r).ok ==> island_run_step(old(r).data@, old(r).cursor as int, n as nat) == Some((v@.map_values(|x: Island| x@), final(r).cursor as int)),
{
    let ghost d = old(r).data@;
    let ghost c0 = old(r).cursor as int;
    let mut v: Vec<Island> = Vec::new();
    let mut i: usize = 0;
    while i < n
        invariant
            0 <= i <= n,
            r.data@ == d,
            r.ok == island_run_step(d, c0, i as nat) is Some,
            r.ok ==> island_run_step(d, c0, i as nat) == Some((v@.map_values(|x: Island| x@), r.cursor as int)),
        decreases n - i,
    {
        if r.ok {
            let x = step_island(r);
            let ghost before = v@;
            v.push(x);
            proof {
                if r.ok {
                    assert(v@.map_values(|x: Island| x@) =~= before.map_values(|x: Island| x@).push(x@));
                }
            }
        }
        i = i + 1;
    }
    v
}

/// A count, then that many island slots when the count passes its guard
/// (at least `elem` bytes an element left); `None` when the reader goes bad.
pub open spec fn island_table_step(d: Seq<u8>, c: int, elem: int) -> Option<(Seq<IslandView>, int)> {
    let (n, s) = i32_read(d, true, c);
    if !s.0 || !count_ok(d, s.1, n, elem) {
        None
    } else {
        island_run_step(d, s.1, n as nat)
    }
}

fn step_island_table(r: &mut SnapReader, elem: usize) -> (v: Vec<Island>)
    requires
        old(r).ok,
    ensures
        final(r).data@ == old(r).data@,
        final(r).ok == island_table_step(old(r).data@, old(r).cursor as int, elem as int) is Some,
        final(r).ok ==> island_table_step(old(r).data@, old(r).cursor as int, elem as int) == Some((v@.map_values(|x: Island| x@), final(r).cursor as int)),
{
    let n = read_i32(r);
    if !r.ok {
        return Vec::new();
    }
    if !r.check_count(n, elem) {
        return Vec::new();
    }
    step_island_run(r, n as usize)
}

/// `n` broad-phase trees read in turn from `c`; `None` when the reader goes bad.
pub open spec fn tree_run_step(d: Seq<u8>, c: int, n: nat) -> Option<(Seq<DynamicTreeView>, int)>
    decreases n,
{
    if n == 0 {
        Some((Seq::empty(), c))
    } else {
        match tree_run_step(d, c, (n - 1) as nat) {
            None => None,
            Some((s, c1)) => match tree_step(d, c1) {
                None => None,
                Some((x, c2)) => Some((s.push(x), c2)),
            },
        }
    }
}

#[verifier::spinoff_prover]
#[verifier::rlimit(40)]
fn step_tree_run(r: &mut SnapReader, n: usize) -> (v: Vec<DynamicTree>)
    requires
        old(r).ok,
    ensures
        final(r).data@ == old(r).data@,
        final(r).ok == tree_run_step(old(r).data@, old(r).cursor as int, n as nat) is Some,
        final(r).ok ==> tree_run_step(old(r).data@, old(r).cursor as int, n as nat) == Some((v@.map_values(|x: DynamicTree| x@), final(r).cursor as int)),
{
    let ghost d = old(r).data@;
    let ghost c0 = old(r).cursor as int;
    let mut v: Vec<DynamicTree> = Vec::new();
    let mut i: usize = 0;
    while i < n
        invariant
            0 <= i <= n,
            r.data@ == d,
            r.ok == tree_run_step(d, c0, i as nat) is Some,
            r.ok ==> tree_run_step(d, c0, i as nat) == Some((v@.map_values(|x: DynamicTree| x@), r.cursor as int)),
        decreases n - i,
    {
        if r.ok {
            let x = step_tree(r);
            let ghost before = v@;
            v.push(x);
            proof {
                if r.ok {
                    assert(v@.map_values(|x: DynamicTree| x@) =~= before.map_values(|x: DynamicTree| x@).push(x@));
                }
            }
        }
        i = i + 1;
    }
    v
}


/// `n` bit sets read in turn from `c`; `None` when the reader goes bad.
pub open spec fn bitset_run_step(d: Seq<u8>, c: int, n: nat) -> Option<(Seq<BitSetView>, int)>
    decreases n,
{
    if n == 0 {
        Some((Seq::empty(), c))
    } else {
        match bitset_run_step(d, c, (n - 1) as nat) {
            None => None,
            Some((s, c1)) => match bitset_step(d, c1) {
                None => None,
                Some((x, c2)) => Some((s.push(x), c2)),
            },
        }
    }
}

#[verifier::spinoff_prover]
#[verifier::rlimit(40)]
fn step_bitset_run(r: &mut SnapReader, n: usize) -> (v: Vec<BitSet>)
    requires
        old(r).ok,
    ensures
        final(r).data@ == old(r).data@,
        final(r).ok == bitset_run_step(old(r).data@, old(r).cursor as int, n as nat) is Some,
        final(r).ok ==> bitset_run_step(old(r).data@, old(r).cursor as int, n as nat) == Some((v@.map_values(|x: BitSet| x@), final(r).cursor as int)),
{
    let ghost d = old(r).data@;
    let ghost c0 = old(r).cursor as int;
    let mut v: Vec<BitSet> = Vec::new();
    let mut i: usize = 0;
    while i < n
        invariant
            0 <= i <= n,
            r.data@ == d,
            r.ok == bitset_run_step(d, c0, i as nat) is Some,
            r.ok ==> bitset_run_step(d, c0, i as nat) == Some((v@.map_values(|x: BitSet| x@), r.cursor as int)),
        decreases n - i,
    {
        if r.ok {
            let x = step_bitset(r);
            let ghost before = v@;
            v.push(x);
            proof {
                if r.ok {
                    assert(v@.map_values(|x: BitSet| x@) =~= before.map_values(|x: BitSet| x@).push(x@));
                }
            }
        }
        i = i + 1;
    }
    v
}


/// The seven id pools read in turn from `c`: body, shape, chain, contact,
/// joint, island and solver set.
pub open spec fn pools_step(d: Seq<u8>, c: int) -> Option<(Seq<IdPoolView>, int)> {
    match id_pool_step(d, c) { None => None, Some((p1, c1)) =>
    match id_pool_step(d, c1) { None => None, Some((p2, c2)) =>
    match id_pool_step(d, c2) { None => None, Some((p3, c3)) =>
    match id_pool_step(d, c3) { None => None, Some((p4, c4)) =>
    match id_pool_step(d, c4) { None => None, Some((p5, c5)) =>
    match id_pool_step(d, c5) { None => None, Some((p6, c6)) =>
    match id_pool_step(d, c6) { None => None, Some((p7, c7)) =>
        Some((seq![p1, p2, p3, p4, p5, p6, p7], c7))
    }}}}}}}
}

struct Pools {
    body: IdPool,
    shape: IdPool,
    chain: IdPool,
    contact: IdPool,
    joint: IdPool,
    island: IdPool,
    solver_set: IdPool,
}

fn step_pools(r: &mut SnapReader) -> (p: Pools)
    requires
        old(r).ok,
    ensures
        final(r).data@ == old(r).data@,
        final(r).ok == pools_step(old(r).data@, old(r).cursor as int) is Some,
        final(r).ok ==> pools_step(old(r).data@, old(r).cursor as int) == Some((
            seq![p.body@, p.shape@, p.chain@, p.contact@, p.joint@, p.island@, p.solver_set@],
            final(r).cursor as int,
        )),
{
    let body = step_id_pool(r);
    let mut p = Pools { body, shape: IdPool::new(), chain: IdPool::new(), contact: IdPool::new(), joint: IdPool::new(), island: IdPool::new(), solver_set: IdPool::new() };
    if !r.ok {
        return p;
    }
    p.shape = step_id_pool(r);
    if !r.ok {
        return p;
    }
    p.chain = step_id_pool(r);
    if !r.ok {
        return p;
    }
    p.contact = step_id_pool(r);
    if !r.ok {
        return p;
    }
    p.joint = step_id_pool(r);
    if !r.ok {
        return p;
    }
    p.island = step_id_pool(r);
    if !r.ok {
        return p;
    }
    p.solver_set = step_id_pool(r);
    p
}

/// The graph colors read in turn from `c`, the last of the full graph
/// being the overflow color.
pub open spec fn graph_color_run_step(d: Seq<u8>, c: int, n: nat) -> Option<(Seq<GraphColorView>, int)>
    decreases n,
{
    if n == 0 {
        Some((Seq::empty(), c))
    } else {
        match graph_color_run_step(d, c, (n - 1) as nat) {
            None => None,
            Some((s, c1)) => match graph_color_step(d, c1, n - 1 == GRAPH_COLOR_COUNT - 1) {
                None => None,
                Some((x, c2)) => Some((s.push(x), c2)),
            },
        }
    }
}

fn step_graph_color_run(r: &mut SnapReader, n: usize) -> (v: Vec<GraphColor>)
    requires
        old(r).ok,
    ensures
        final(r).data@ == old(r).data@,
        final(r).ok == graph_color_run_step(old(r).data@, old(r).cursor as int, n as nat) is Some,
        final(r).ok ==> graph_color_run_step(old(r).data@, old(r).cursor as int, n as nat) == Some((v@.map_values(|x: GraphColor| x@), final(r).cursor as int)),
{
    let ghost d = old(r).data@;
    let ghost c0 = old(r).cursor as int;
    let mut v: Vec<GraphColor> = Vec::new();
    let mut i: usize = 0;
    while i < n
        invariant
            0 <= i <= n,
            r.data@ == d,
            r.ok == graph_color_run_step(d, c0, i as nat) is Some,
            r.ok ==> graph_color_run_step(d, c0, i as nat) == Some((v@.map_values(|x: GraphColor| x@), r.cursor as int)),
        decreases n - i,
    {
        if r.ok {
            let x = step_graph_color(r, i == GRAPH_COLOR_COUNT - 1);
            let ghost before = v@;
            v.push(x);
            proof {
                if r.ok {
                    assert(v@.map_values(|x: GraphColor| x@) =~= before.map_values(|x: GraphColor| x@).push(x@));
                }
            }
        }
        i = i + 1;
    }
    v
}

/// What a world image holds: the settings, the seven id pools, the
/// tables, the broad phase and the graph colors. User data is not part of
/// an image and reads back as zero.
pub struct WorldImage {
    pub config: WorldConfig,
    pub pools: Seq<IdPoolView>,
    pub solver_sets: Seq<SolverSetView>,
    pub bodies: Seq<BodyView>,
    pub shapes: Seq<Shape>,
    pub contacts: Seq<Contact>,
    pub joints: Seq<Joint>,
    pub chains: Seq<ChainView>,
    pub sensors: Seq<SensorView>,
    pub islands: Seq<IslandView>,
    pub trees: Seq<DynamicTreeView>,
    pub moved_proxies: Seq<BitSetView>,
    pub move_array: Seq<i32>,
    pub pair_set: HashSetView,
    pub graph_colors: Seq<GraphColorView>,
}

/// The tables of an image read from `c`, each behind a count guarded by
/// the least bytes an element takes: solver sets (4), bodies (60), shapes
/// (80), contacts (60), joints (40), chains (20), sensors (16) and islands
/// (16).
pub open spec fn tables_step(d: Seq<u8>, c: int) -> Option<((Seq<SolverSetView>, Seq<BodyView>, Seq<Shape>, Seq<Contact>, Seq<Joint>, Seq<ChainView>, Seq<SensorView>, Seq<IslandView>), int)> {
    match solver_set_table_step(d, c, 4) { None => None, Some((solver_sets, c1)) =>
    match body_table_step(d, c1, 60) { None => None, Some((bodies, c2)) =>
    match shape_table_step(d, c2, 80) { None => None, Some((shapes, c3)) =>
    match contact_table_step(d, c3, 60) { None => None, Some((contacts, c4)) =>
    match joint_table_step(d, c4, 40) { None => None, Some((joints, c5)) =>
    match chain_table_step(d, c5, 20) { None => None, Some((chains, c6)) =>
    match sensor_table_step(d, c6, 16) { None => None, Some((sensors, c7)) =>
    match island_table_step(d, c7, 16) { None => None, Some((islands, c8)) =>
        Some(((solver_sets, bodies, shapes, contacts, joints, chains, sensors, islands), c8))
    }}}}}}}}
}

struct Tables {
    solver_sets: Vec<SolverSet>,
    bodies: Vec<Body>,
    shapes: Vec<Shape>,
    contacts: Vec<Contact>,
    joints: Vec<Joint>,
    chain_shapes: Vec<ChainShape>,
    sensors: Vec<Sensor>,
    islands: Vec<Island>,
}

#[verifier::spinoff_prover]
#[verifier::rlimit(60)]
fn step_tables(r: &mut SnapReader) -> (t: Tables)
    requires
        old(r).ok,
    ensures
        final(r).data@ == old(r).data@,
        final(r).ok == tables_step(old(r).data@, old(r).cursor as int) is Some,
        final(r).ok ==> tables_step(old(r).data@, old(r).cursor as int) == Some((
            (
                t.solver_sets@.map_values(|x: SolverSet| x@),
                t.bodies@.map_values(|x: Body| x@),
                t.shapes@.map_values(|x: Shape| x),
                t.contacts@.map_values(|x: Contact| x),
                t.joints@.map_values(|x: Joint| x),
                t.chain_shapes@.map_values(|x: ChainShape| x@),
                t.sensors@.map_values(|x: Sensor| x@),
                t.islands@.map_values(|x: Island| x@),
            ),
            final(r).cursor as int,
        )),
{
    let mut t = Tables {
        solver_sets: Vec::new(),
        bodies: Vec::new(),
        shapes: Vec::new(),
        contacts: Vec::new(),
        joints: Vec::new(),
        chain_shapes: Vec::new(),
        sensors: Vec::new(),
        islands: Vec::new(),
    };
    t.solver_sets = step_solver_set_table(r, 4);
    if !r.ok {
        return t;
    }
    t.bodies = step_body_table(r, 60);
    if !r.ok {
        return t;
    }
    t.shapes = step_shape_table(r, 80);
    if !r.ok {
        return t;
    }
    t.contacts = step_contact_table(r, 60);
    if !r.ok {
        return t;
    }
    t.joints = step_joint_table(r, 40);
    if !r.ok {
        return t;
    }
    t.chain_shapes = step_chain_table(r, 20);
    if !r.ok {
        return t;
    }
    t.sensors = step_sensor_table(r, 16);
    if !r.ok {
        return t;
    }
    t.islands = step_island_table(r, 16);
    t
}

/// The move list read from `c`: a count guarded at four bytes an entry,
/// then that many keys.
pub open spec fn move_array_step(d: Seq<u8>, c: int) -> Option<(Seq<i32>, int)> {
    let (n, s) = i32_read(d, true, c);
    if !s.0 || !count_ok(d, s.1, n, 4) || s.1 + 4 * n > d.len() {
        None
    } else {
        Some((Seq::new(n as nat, |k: int| word_at(d, true, s.1, k) as i32), s.1 + 4 * n))
    }
}

fn step_move_array(r: &mut SnapReader) -> (v: Vec<i32>)
    requires
        old(r).ok,
    ensures
        final(r).data@ == old(r).data@,
        final(r).ok == move_array_step(old(r).data@, old(r).cursor as int) is Some,
        final(r).ok ==> move_array_step(old(r).data@, old(r).cursor as int) == Some((v@, final(r).cursor as int)),
{
    let ghost d = old(r).data@;
    let n = read_i32(r);
    let mut v: Vec<i32> = Vec::new();
    if !r.ok || !r.check_count(n, 4) {
        r.ok = false;
        return v;
    }
    let ghost c1 = r.cursor as int;
    let mut i: i32 = 0;
    while i < n
        invariant
            0 <= i <= n,
            r.data@ == d,
            r.ok ==> r.cursor == c1 + 4 * i,
            r.ok ==> c1 + 4 * i <= d.len(),
            !r.ok ==> c1 + 4 * n > d.len(),
            r.ok ==> v@ == Seq::new(i as nat, |k: int| word_at(d, true, c1, k) as i32),
        decreases n - i,
    {
        let x = read_i32(r);
        v.push(x);
        i = i + 1;
        proof {
            if r.ok {
                assert(v@ =~= Seq::new(i as nat, |k: int| word_at(d, true, c1, k) as i32));
            }
        }
    }
    v
}

/// The broad phase read from `c`: its trees, its moved-proxy sets, its
/// move list and its pair set.
pub open spec fn broad_phase_step(d: Seq<u8>, c: int) -> Option<((Seq<DynamicTreeView>, Seq<BitSetView>, Seq<i32>, HashSetView), int)> {
    match tree_run_step(d, c, TREE_COUNT as nat) { None => None, Some((trees, c1)) =>
    match bitset_run_step(d, c1, TREE_COUNT as nat) { None => None, Some((moved, c2)) =>
    match move_array_step(d, c2) { None => None, Some((move_array, c3)) =>
    match hashset_step(d, c3) { None => None, Some((pair_set, c4)) =>
        Some(((trees, moved, move_array, pair_set), c4))
    }}}}
}

fn step_broad_phase(r: &mut SnapReader) -> (b: BroadPhase)
    requires
        old(r).ok,
    ensures
        final(r).data@ == old(r).data@,
        final(r).ok == broad_phase_step(old(r).data@, old(r).cursor as int) is Some,
        final(r).ok ==> broad_phase_step(old(r).data@, old(r).cursor as int) == Some((
            (
                b.trees@.map_values(|x: DynamicTree| x@),
                b.moved_proxies@.map_values(|x: BitSet| x@),
                b.move_array@,
                b.pair_set@,
            ),
            final(r).cursor as int,
        )),
{
    let mut b = BroadPhase { trees: Vec::new(), moved_proxies: Vec::new(), move_array: Vec::new(), pair_set: HashSet { count: 0, items: Vec::new() } };
    b.trees = step_tree_run(r, TREE_COUNT);
    if !r.ok {
        return b;
    }
    b.moved_proxies = step_bitset_run(r, TREE_COUNT);
    if !r.ok {
        return b;
    }
    b.move_array = step_move_array(r);
    if !r.ok {
        return b;
    }
    b.pair_set = step_hashset(r);
    b
}

/// What an image holds, or `None` when it is not one this build accepts:
/// a short or foreign header, a count that fails its guard, or data that
/// ends early.
pub open spec fn world_image_read(d: Seq<u8>) -> Option<WorldImage> {
    match header_step(d, 0) { None => None, Some((h, c0)) =>
    if !header_accepted(h) { None } else {
    let (config, s) = world_config_read(d, true, c0);
    if !s.0 { None } else {
    match pools_step(d, s.1) { None => None, Some((pools, c1)) =>
    match tables_step(d, c1) { None => None, Some((t, c2)) =>
    match broad_phase_step(d, c2) { None => None, Some((b, c3)) =>
    match graph_color_run_step(d, c3, GRAPH_COLOR_COUNT as nat) { None => None, Some((graph_colors, c4)) =>
        Some(WorldImage {
            config,
            pools,
            solver_sets: t.0,
            bodies: t.1,
            shapes: t.2,
            contacts: t.3,
            joints: t.4,
            chains: t.5,
            sensors: t.6,
            islands: t.7,
            trees: b.0,
            moved_proxies: b.1,
            move_array: b.2,
            pair_set: b.3,
            graph_colors,
        })
    }}}}}}}
}

/// The world holds what the image holds, table by table.
pub open spec fn world_holds(w: World, img: WorldImage) -> bool {
    &&& w.config == img.config
    &&& seq![w.body_id_pool@, w.shape_id_pool@, w.chain_id_pool@, w.contact_id_pool@, w.joint_id_pool@, w.island_id_pool@, w.solver_set_id_pool@] == img.pools
    &&& w.solver_sets@.map_values(|x: SolverSet| x@) == img.solver_sets
    &&& w.bodies@.map_values(|x: Body| x@) == img.bodies
    &&& w.shapes@ == img.shapes
    &&& w.contacts@ == img.contacts
    &&& w.joints@ == img.joints
    &&& w.chain_shapes@.map_values(|x: ChainShape| x@) == img.chains
    &&& w.sensors@.map_values(|x: Sensor| x@) == img.sensors
    &&& w.islands@.map_values(|x: Island| x@) == img.islands
    &&& w.broad_phase.trees@.map_values(|x: DynamicTree| x@) == img.trees
    &&& w.broad_phase.moved_proxies@.map_values(|x: BitSet| x@) == img.moved_proxies
    &&& w.broad_phase.move_array@ == img.move_array
    &&& w.broad_phase.pair_set@ == img.pair_set
    &&& w.graph_colors@.map_values(|x: GraphColor| x@) == img.graph_colors
}

/// Restore the simulation state from an image. The world changes only
/// when the whole image reads back: then it holds what the image holds,
/// its id, generation, lock and recording session kept; otherwise it is
/// left as it was and the answer is `false`.
#[verifier::spinoff_prover]
#[verifier::rlimit(100)]
pub fn world_restore(world: &mut World, image: &[u8]) -> (ok: bool)
    requires
        !old(world).locked,
    ensures
        ok == world_image_read(image@) is Some,
        ok ==> world_holds(*final(world), world_image_read(image@)->0),
        ok ==> final(world).world_id == old(world).world_id && final(world).generation == old(world).generation
            && final(world).locked == old(world).locked && final(world).recording == old(world).recording,
        !ok ==> *final(world) == *old(world),
{
    let mut r = SnapReader::new(image);
    let header = r.r_header();
    if !r.ok || !header.is_compatible() {
        return false;
    }
    let config = des_world_config(&mut r);
    if !r.ok {
        return false;
    }
    let pools = step_pools(&mut r);
    if !r.ok {
        return false;
    }
    let tables = step_tables(&mut r);
    if !r.ok {
        return false;
    }
    let broad_phase = step_broad_phase(&mut r);
    if !r.ok {
        return false;
    }
    let graph_colors = step_graph_color_run(&mut r, GRAPH_COLOR_COUNT);
    if !r.ok {
        return false;
    }
    world.config = config;
    world.body_id_pool = pools.body;
    world.shape_id_pool = pools.shape;
    world.chain_id_pool = pools.chain;
    world.contact_id_pool = pools.contact;
    world.joint_id_pool = pools.joint;
    world.island_id_pool = pools.island;
    world.solver_set_id_pool = pools.solver_set;
    world.solver_sets = tables.solver_sets;
    world.bodies = tables.bodies;
    world.shapes = tables.shapes;
    world.contacts = tables.contacts;
    world.joints = tables.joints;
    world.chain_shapes = tables.chain_shapes;
    world.sensors = tables.sensors;
    world.islands = tables.islands;
    world.broad_phase = broad_phase;
    world.graph_colors = graph_colors;
    proof {
        assert(world.shapes@ =~= world.shapes@.map_values(|x: Shape| x));
        assert(world.contacts@ =~= world.contacts@.map_values(|x: Contact| x));
        assert(world.joints@ =~= world.joints@.map_values(|x: Joint| x));
    }
    true
}

/// An id pool's image reads back as the pool, whatever follows it.
pub proof fn law_id_pool_step(p: IdPoolView, d: Seq<u8>, c: int)
    requires
        p.free_array.len() <= i32::MAX,
        0 <= c,
        c + id_pool_bytes(p.free_array, p.next_index).len() <= d.len(),
        d.subrange(c, c + id_pool_bytes(p.free_array, p.next_index).len()) == id_pool_bytes(p.free_array, p.next_index),
    ensures
        id_pool_bytes(p.free_array, p.next_index).len() == 4 * p.free_array.len() + 8,
        id_pool_step(d, c) == Some((p, c + id_pool_bytes(p.free_array, p.next_index).len())),
{
    broadcast use crate::write::lemma_le_bytes_len;
    law_id_pool_round_trip(p.free_array, p.next_index, d, c);
    let n = p.free_array.len();
    if n > 0 {
        lemma_i32s_layout(p.free_array, 0);
    } else {
        assert(crate::containers::i32s_bytes(p.free_array) =~= Seq::empty());
    }
    assert(id_pool_bytes(p.free_array, p.next_index).len() == 4 * n + 8);
    let count = word_at(d, true, c, 0) as i32;
    assert(Seq::new(count as nat, |k: int| word_at(d, true, c, 1 + k) as i32) =~= p.free_array);
}

/// Where the world image of a recording lies, after its header: `None`
/// when the data is shorter than a header, the header is not one of this
/// format and version, or the image it announces runs past the data.
pub open spec fn seed_region(d: Seq<u8>) -> Option<(int, int)> {
    if d.len() < 32 {
        None
    } else {
        let h = decode_rec_header(d);
        if h.magic != REC_MAGIC || h.version_major != REC_VERSION_MAJOR || h.version_minor != REC_VERSION_MINOR {
            None
        } else if 32 + h.snapshot_size > d.len() {
            None
        } else {
            Some((32, 32 + h.snapshot_size))
        }
    }
}

/// The image a recording seeds its replay from, when its header lets it.
pub open spec fn seed_image(d: Seq<u8>) -> Seq<u8> {
    match seed_region(d) {
        Some((start, end)) => d.subrange(start, end),
        None => Seq::empty(),
    }
}

/// Where a recording's operations start: just after its seed image.
pub open spec fn seed_end(d: Seq<u8>) -> int {
    match seed_region(d) {
        Some((_, end)) => end,
        None => 0,
    }
}

/// Seed a replay: check the recording's header and restore the world
/// from the image that follows it. Gives the offset where the recorded
/// operations start, or `None`, the world untouched, when the header is
/// refused or the image does not read back.
pub fn replay_seed(world: &mut World, data: &[u8]) -> (start: Option<usize>)
    requires
        !old(world).locked,
    ensures
        start is Some <==> (seed_region(data@) is Some && world_image_read(seed_image(data@)) is Some),
        start is Some ==> start->0 == seed_end(data@) && world_holds(*final(world), world_image_read(seed_image(data@))->0),
        start is None ==> *final(world) == *old(world),
{
    let header = match RecHeader::read(data) {
        Some(h) => h,
        None => return None,
    };
    if header.magic != REC_MAGIC || header.version_major != REC_VERSION_MAJOR || header.version_minor != REC_VERSION_MINOR {
        return None;
    }
    if header.snapshot_size > (data.len() - RecHeader::SIZE) as u64 {
        return None;
    }
    let end = RecHeader::SIZE + header.snapshot_size as usize;
    let image = vstd::slice::slice_subrange(data, RecHeader::SIZE, end);
    if world_restore(world, image) {
        Some(end)
    } else {
        None
    }
}

} // verus!
