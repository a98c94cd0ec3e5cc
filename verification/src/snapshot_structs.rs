use vstd::prelude::*;
use crate::joint::{joint_type_of, JointType};
use crate::shape::ChainShape;
use crate::snapshot::{after, count_ok, value_at, word_at, SnapReader};
use crate::types::{BodyType, SurfaceMaterial};
use crate::write::{
    i32_bytes, lemma_materials_len, material_bytes, materials_bytes, rec_w_i32, rec_w_material, rec_w_u16, u16_bytes,
};
use crate::containers::{i32s_bytes, lemma_i32_bits, lemma_i32s_layout, lemma_u64_round_trip, w_i32s};
use crate::snapshot::lemma_u32_round_trip;
use crate::write::{le_value, lemma_le_round_trip, pow256, u32_bytes, u64_bytes};

verus! {

broadcast use crate::write::lemma_le_bytes_len;

/// The material a run of 28-byte material records read from `base` holds
/// at `k`, or a zeroed one when the reader is bad.
pub open spec fn material_at(d: Seq<u8>, ok: bool, base: int, k: int) -> SurfaceMaterial {
    let b = base + 28 * k;
    if ok && b + 28 <= d.len() {
        SurfaceMaterial {
            friction: value_at(d, true, b, 4) as u32,
            restitution: value_at(d, true, b + 4, 4) as u32,
            rolling_resistance: value_at(d, true, b + 8, 4) as u32,
            tangent_speed: value_at(d, true, b + 12, 4) as u32,
            user_material_id: value_at(d, true, b + 16, 8) as u64,
            custom_color: value_at(d, true, b + 24, 4) as u32,
        }
    } else {
        SurfaceMaterial {
            friction: 0,
            restitution: 0,
            rolling_resistance: 0,
            tangent_speed: 0,
            user_material_id: 0,
            custom_color: 0,
        }
    }
}

/// Read a surface material: the four coefficient bit patterns, the user
/// material id and the custom color.
pub fn r_material(r: &mut SnapReader) -> (m: SurfaceMaterial)
    ensures
        final(r).data@ == old(r).data@,
        ({
            let d = old(r).data@;
            let s0 = (old(r).ok, old(r).cursor as int);
            let s1 = after(d, s0.0, s0.1, 4);
            let s2 = after(d, s1.0, s1.1, 4);
            let s3 = after(d, s2.0, s2.1, 4);
            let s4 = after(d, s3.0, s3.1, 4);
            let s5 = after(d, s4.0, s4.1, 8);
            let s6 = after(d, s5.0, s5.1, 4);
            &&& m == (SurfaceMaterial {
                friction: value_at(d, s0.0, s0.1, 4) as u32,
                restitution: value_at(d, s1.0, s1.1, 4) as u32,
                rolling_resistance: value_at(d, s2.0, s2.1, 4) as u32,
                tangent_speed: value_at(d, s3.0, s3.1, 4) as u32,
                user_material_id: value_at(d, s4.0, s4.1, 8) as u64,
                custom_color: value_at(d, s5.0, s5.1, 4) as u32,
            })
            &&& (final(r).ok, final(r).cursor as int) == s6
        }),
        old(r).can_take(28) ==> m == material_at(old(r).data@, true, old(r).cursor as int, 0),
        !old(r).ok ==> m == material_at(old(r).data@, false, old(r).cursor as int, 0),
{
    let friction = r.r_u32();
    let restitution = r.r_u32();
    let rolling_resistance = r.r_u32();
    let tangent_speed = r.r_u32();
    let user_material_id = r.r_u64();
    let custom_color = r.r_u32();
    SurfaceMaterial { friction, restitution, rolling_resistance, tangent_speed, user_material_id, custom_color }
}

/// Read a body type: 0 static, 1 kinematic, anything else dynamic.
pub fn r_body_type(r: &mut SnapReader) -> (t: BodyType)
    ensures
        SnapReader::took(*old(r), *final(r), 4),
        t == match word_at(old(r).data@, old(r).ok, old(r).cursor as int, 0) as i32 {
            0 => BodyType::Static,
            1 => BodyType::Kinematic,
            _ => BodyType::Dynamic,
        },
{
    match r.r_i32() {
        0 => BodyType::Static,
        1 => BodyType::Kinematic,
        _ => BodyType::Dynamic,
    }
}

/// Read a joint type from one byte: 0 to 5 in declaration order, anything
/// else a wheel joint.
pub fn r_joint_type(r: &mut SnapReader) -> (t: JointType)
    ensures
        SnapReader::took(*old(r), *final(r), 1),
        t == joint_type_of(value_at(old(r).data@, old(r).ok, old(r).cursor as int, 1) as u8),
{
    proof {
        reveal_with_fuel(crate::write::le_value, 2);
    }
    match r.r_u8() {
        0 => JointType::Distance,
        1 => JointType::Filter,
        2 => JointType::Motor,
        3 => JointType::Prismatic,
        4 => JointType::Revolute,
        5 => JointType::Weld,
        _ => JointType::Wheel,
    }
}

/// A link of a body into a joint's or a contact's edge list.
#[derive(Clone, Copy, Debug, PartialEq, Eq, Structural)]
pub struct Edge {
    pub body_id: i32,
    pub prev_key: i32,
    pub next_key: i32,
}

/// Wire form of an edge.
pub open spec fn edge_bytes(e: Edge) -> Seq<u8> {
    i32_bytes(e.body_id) + i32_bytes(e.prev_key) + i32_bytes(e.next_key)
}

/// Write a joint or contact edge.
pub fn w_edge(buf: &mut Vec<u8>, e: &Edge)
    ensures
        final(buf)@ == old(buf)@ + edge_bytes(*e),
{
    rec_w_i32(buf, e.body_id);
    rec_w_i32(buf, e.prev_key);
    rec_w_i32(buf, e.next_key);
    assert(buf@ =~= old(buf)@ + edge_bytes(*e));
}

/// Read a joint or contact edge.
pub fn r_edge(r: &mut SnapReader) -> (e: Edge)
    ensures
        final(r).data@ == old(r).data@,
        e == (Edge {
            body_id: word_at(old(r).data@, old(r).ok, old(r).cursor as int, 0) as i32,
            prev_key: word_at(old(r).data@, old(r).ok, old(r).cursor as int, 1) as i32,
            next_key: word_at(old(r).data@, old(r).ok, old(r).cursor as int, 2) as i32,
        }),
        final(r).ok == old(r).can_take(12),
        final(r).ok ==> final(r).cursor == old(r).cursor + 12,
{
    let body_id = r.r_i32();
    let prev_key = r.r_i32();
    let next_key = r.r_i32();
    Edge { body_id, prev_key, next_key }
}

/// Wire form of a chain: id, body, next chain, generation, segment
/// indices, materials.
pub open spec fn chain_bytes(id: i32, body_id: i32, next_chain_id: i32, generation: u16, shape_indices: Seq<i32>, materials: Seq<SurfaceMaterial>) -> Seq<u8> {
    i32_bytes(id) + i32_bytes(body_id) + i32_bytes(next_chain_id) + u16_bytes(generation)
        + i32_bytes(shape_indices.len() as i32) + i32s_bytes(shape_indices)
        + i32_bytes(materials.len() as i32) + materials_bytes(materials)
}

/// Append a chain's image.
pub fn ser_chain(buf: &mut Vec<u8>, chain: &ChainShape)
    ensures
        final(buf)@ == old(buf)@ + chain_bytes(chain.id, chain.body_id, chain.next_chain_id, chain.generation,
            chain.shape_indices@, chain.materials@),
{
    rec_w_i32(buf, chain.id);
    rec_w_i32(buf, chain.body_id);
    rec_w_i32(buf, chain.next_chain_id);
    rec_w_u16(buf, chain.generation);
    rec_w_i32(buf, chain.shape_indices.len() as i32);
    w_i32s(buf, &chain.shape_indices);
    rec_w_i32(buf, chain.materials.len() as i32);
    let ghost start = buf@;
    let mut i: usize = 0;
    while i < chain.materials.len()
        invariant
            0 <= i <= chain.materials@.len(),
            buf@ == start + materials_bytes(chain.materials@.take(i as int)),
        decreases chain.materials@.len() - i,
    {
        rec_w_material(buf, chain.materials[i]);
        i = i + 1;
        assert(chain.materials@.take(i as int).drop_last() =~= chain.materials@.take(i - 1));
        assert(buf@ =~= start + materials_bytes(chain.materials@.take(i as int)));
    }
    assert(chain.materials@.take(chain.materials@.len() as int) =~= chain.materials@);
    assert(buf@ =~= old(buf)@ + chain_bytes(chain.id, chain.body_id, chain.next_chain_id, chain.generation,
        chain.shape_indices@, chain.materials@));
}

/// Fields read in turn; a count that fails its guard leaves
/// that list and the ones after it empty and the reader bad.
pub fn des_chain(r: &mut SnapReader) -> (chain: ChainShape)
    ensures
        final(r).data@ == old(r).data@,
        ({
            let d = old(r).data@;
            let s0 = (old(r).ok, old(r).cursor as int);
            let s1 = after(d, s0.0, s0.1, 4);
            let s2 = after(d, s1.0, s1.1, 4);
            let s3 = after(d, s2.0, s2.1, 4);
            let s4 = after(d, s3.0, s3.1, 2);
            let n = value_at(d, s4.0, s4.1, 4) as u32 as i32;
            let s5 = after(d, s4.0, s4.1, 4);
            let s6 = if s5.0 { (true, s5.1 + 4 * n) } else { s5 };
            let m = value_at(d, s6.0, s6.1, 4) as u32 as i32;
            let s7 = after(d, s6.0, s6.1, 4);
            &&& chain.id == value_at(d, s0.0, s0.1, 4) as u32 as i32
            &&& chain.body_id == value_at(d, s1.0, s1.1, 4) as u32 as i32
            &&& chain.next_chain_id == value_at(d, s2.0, s2.1, 4) as u32 as i32
            &&& chain.generation == value_at(d, s3.0, s3.1, 2) as u16
            &&& if !count_ok(d, s5.1, n, 4) {
                &&& chain.shape_indices@.len() == 0
                &&& chain.materials@.len() == 0
                &&& !final(r).ok
                &&& final(r).cursor == s5.1
            } else {
                &&& chain.shape_indices@.len() == n
                &&& forall|k: int| 0 <= k < n ==> chain.shape_indices@[k] == #[trigger] (word_at(d, s5.0, s5.1, k) as i32)
                &&& if !count_ok(d, s7.1, m, 28) {
                    &&& chain.materials@.len() == 0
                    &&& !final(r).ok
                    &&& final(r).cursor == s7.1
                } else {
                    &&& chain.materials@.len() == m
                    &&& forall|k: int| 0 <= k < m ==> chain.materials@[k] == #[trigger] material_at(d, s7.0, s7.1, k)
                    &&& (final(r).ok, final(r).cursor as int) == if s7.0 { (true, s7.1 + 28 * m) } else { s7 }
                }
            }
        }),
{
    let ghost d = old(r).data@;
    let id = r.r_i32();
    let body_id = r.r_i32();
    let next_chain_id = r.r_i32();
    let generation = r.r_u16();
    let mut chain = ChainShape { id, body_id, next_chain_id, shape_indices: Vec::new(), materials: Vec::new(), generation };
    let n = r.r_i32();
    if !r.check_count(n, 4) {
        return chain;
    }
    let ghost s5 = (r.ok, r.cursor as int);
    let mut shape_indices: Vec<i32> = Vec::new();
    let mut i: i32 = 0;
    while i < n
        invariant
            0 <= i <= n,
            r.data@ == d,
            r.ok == s5.0,
            s5.0 ==> s5.1 + 4 * n <= d.len(),
            s5.0 ==> r.cursor == s5.1 + 4 * i,
            !s5.0 ==> r.cursor == s5.1,
            shape_indices@.len() == i,
            forall|k: int| 0 <= k < i ==> shape_indices@[k] == #[trigger] (word_at(d, s5.0, s5.1, k) as i32),
        decreases n - i,
    {
        shape_indices.push(r.r_i32());
        i = i + 1;
    }
    chain.shape_indices = shape_indices;
    let m = r.r_i32();
    if !r.check_count(m, 28) {
        return chain;
    }
    let ghost s7 = (r.ok, r.cursor as int);
    let mut materials: Vec<SurfaceMaterial> = Vec::new();
    let mut j: i32 = 0;
    while j < m
        invariant
            0 <= j <= m,
            r.data@ == d,
            r.ok == s7.0,
            s7.0 ==> s7.1 + 28 * m <= d.len(),
            s7.0 ==> r.cursor == s7.1 + 28 * j,
            !s7.0 ==> r.cursor == s7.1,
            materials@.len() == j,
            forall|k: int| 0 <= k < j ==> materials@[k] == #[trigger] material_at(d, s7.0, s7.1, k),
        decreases m - j,
    {
        let ghost before = *r;
        let mat = r_material(r);
        proof {
            if s7.0 {
                assert(material_at(d, true, s7.1, j as int) == material_at(d, true, before.cursor as int, 0));
            }
        }
        materials.push(mat);
        j = j + 1;
    }
    chain.materials = materials;
    chain
}

/// A contact of an island, with the two bodies it joins.
#[derive(Clone, Copy, Debug, PartialEq, Eq, Structural)]
pub struct ContactLink {
    pub contact_id: i32,
    pub body_id_a: i32,
    pub body_id_b: i32,
}

/// A joint of an island, with the two bodies it joins.
#[derive(Clone, Copy, Debug, PartialEq, Eq, Structural)]
pub struct JointLink {
    pub joint_id: i32,
    pub body_id_a: i32,
    pub body_id_b: i32,
}

/// A persistent island: the bodies, contacts and joints that sleep and
/// wake together.
#[derive(Debug)]
pub struct Island {
    pub set_index: i32,
    pub local_index: i32,
    pub island_id: i32,
    pub constraint_remove_count: i32,
    pub bodies: Vec<i32>,
    pub contacts: Vec<ContactLink>,
    pub joints: Vec<JointLink>,
}

/// The solver's copy of an island.
#[derive(Clone, Copy, Debug, PartialEq, Eq, Structural)]
pub struct IslandSim {
    pub island_id: i32,
}

/// Concatenated wire forms of contact links.
pub open spec fn contact_links_bytes(s: Seq<ContactLink>) -> Seq<u8>
    decreases s.len(),
{
    if s.len() == 0 {
        Seq::empty()
    } else {
        contact_links_bytes(s.drop_last()) + i32_bytes(s.last().contact_id) + i32_bytes(s.last().body_id_a)
            + i32_bytes(s.last().body_id_b)
    }
}

/// Concatenated wire forms of joint links.
pub open spec fn joint_links_bytes(s: Seq<JointLink>) -> Seq<u8>
    decreases s.len(),
{
    if s.len() == 0 {
        Seq::empty()
    } else {
        joint_links_bytes(s.drop_last()) + i32_bytes(s.last().joint_id) + i32_bytes(s.last().body_id_a)
            + i32_bytes(s.last().body_id_b)
    }
}

/// Wire form of an island: its four indices, then its bodies, contacts and
/// joints, each list led by its count.
pub open spec fn island_bytes(set_index: i32, local_index: i32, island_id: i32, constraint_remove_count: i32,
    bodies: Seq<i32>, contacts: Seq<ContactLink>, joints: Seq<JointLink>) -> Seq<u8> {
    i32_bytes(set_index) + i32_bytes(local_index) + i32_bytes(island_id) + i32_bytes(constraint_remove_count)
        + i32_bytes(bodies.len() as i32) + i32s_bytes(bodies)
        + i32_bytes(contacts.len() as i32) + contact_links_bytes(contacts)
        + i32_bytes(joints.len() as i32) + joint_links_bytes(joints)
}

/// Append an island's image.
pub fn ser_island(buf: &mut Vec<u8>, island: &Island)
    ensures
        final(buf)@ == old(buf)@ + island_bytes(island.set_index, island.local_index, island.island_id,
            island.constraint_remove_count, island.bodies@, island.contacts@, island.joints@),
{
    rec_w_i32(buf, island.set_index);
    rec_w_i32(buf, island.local_index);
    rec_w_i32(buf, island.island_id);
    rec_w_i32(buf, island.constraint_remove_count);
    rec_w_i32(buf, island.bodies.len() as i32);
    w_i32s(buf, &island.bodies);
    rec_w_i32(buf, island.contacts.len() as i32);
    let ghost start = buf@;
    let mut i: usize = 0;
    while i < island.contacts.len()
        invariant
            0 <= i <= island.contacts@.len(),
            buf@ == start + contact_links_bytes(island.contacts@.take(i as int)),
        decreases island.contacts@.len() - i,
    {
        let link = island.contacts[i];
        rec_w_i32(buf, link.contact_id);
        rec_w_i32(buf, link.body_id_a);
        rec_w_i32(buf, link.body_id_b);
        i = i + 1;
        assert(island.contacts@.take(i as int).drop_last() =~= island.contacts@.take(i - 1));
        assert(buf@ =~= start + contact_links_bytes(island.contacts@.take(i as int)));
    }
    assert(island.contacts@.take(island.contacts@.len() as int) =~= island.contacts@);
    rec_w_i32(buf, island.joints.len() as i32);
    let ghost start2 = buf@;
    let mut j: usize = 0;
    while j < island.joints.len()
        invariant
            0 <= j <= island.joints@.len(),
            buf@ == start2 + joint_links_bytes(island.joints@.take(j as int)),
        decreases island.joints@.len() - j,
    {
        let link = island.joints[j];
        rec_w_i32(buf, link.joint_id);
        rec_w_i32(buf, link.body_id_a);
        rec_w_i32(buf, link.body_id_b);
        j = j + 1;
        assert(island.joints@.take(j as int).drop_last() =~= island.joints@.take(j - 1));
        assert(buf@ =~= start2 + joint_links_bytes(island.joints@.take(j as int)));
    }
    assert(island.joints@.take(island.joints@.len() as int) =~= island.joints@);
    assert(buf@ =~= old(buf)@ + island_bytes(island.set_index, island.local_index, island.island_id,
        island.constraint_remove_count, island.bodies@, island.contacts@, island.joints@));
}

/// A signed word read at state `(ok, c)`.
pub open spec fn i32_at(d: Seq<u8>, ok: bool, c: int) -> i32 {
    value_at(d, ok, c, 4) as u32 as i32
}

/// The state after a guarded run of `n` records of `size` bytes from `s`:
/// all of them read when the reader was good.
pub open spec fn after_run(s: (bool, int), n: int, size: int) -> (bool, int) {
    if s.0 {
        (true, s.1 + size * n)
    } else {
        s
    }
}

/// Fields read in turn; a count that fails its guard leaves
/// that list and the ones after it empty and the reader bad.
pub fn des_island(r: &mut SnapReader) -> (island: Island)
    ensures
        final(r).data@ == old(r).data@,
        ({
            let d = old(r).data@;
            let s0 = (old(r).ok, old(r).cursor as int);
            let s1 = after(d, s0.0, s0.1, 4);
            let s2 = after(d, s1.0, s1.1, 4);
            let s3 = after(d, s2.0, s2.1, 4);
            let s4 = after(d, s3.0, s3.1, 4);
            let n1 = i32_at(d, s4.0, s4.1);
            let s5 = after(d, s4.0, s4.1, 4);
            let s6 = after_run(s5, n1 as int, 4);
            let n2 = i32_at(d, s6.0, s6.1);
            let s7 = after(d, s6.0, s6.1, 4);
            let s8 = after_run(s7, n2 as int, 12);
            let n3 = i32_at(d, s8.0, s8.1);
            let s9 = after(d, s8.0, s8.1, 4);
            &&& island.set_index == i32_at(d, s0.0, s0.1)
            &&& island.local_index == i32_at(d, s1.0, s1.1)
            &&& island.island_id == i32_at(d, s2.0, s2.1)
            &&& island.constraint_remove_count == i32_at(d, s3.0, s3.1)
            &&& if !count_ok(d, s5.1, n1, 4) {
                &&& island.bodies@.len() == 0 && island.contacts@.len() == 0 && island.joints@.len() == 0
                &&& !final(r).ok && final(r).cursor == s5.1
            } else {
                &&& island.bodies@.len() == n1
                &&& forall|k: int| 0 <= k < n1 ==> island.bodies@[k] == #[trigger] (word_at(d, s5.0, s5.1, k) as i32)
                &&& if !count_ok(d, s7.1, n2, 12) {
                    &&& island.contacts@.len() == 0 && island.joints@.len() == 0
                    &&& !final(r).ok && final(r).cursor == s7.1
                } else {
                    &&& island.contacts@.len() == n2
                    &&& forall|k: int| 0 <= k < n2 ==> #[trigger] island.contacts@[k] == (ContactLink {
                        contact_id: word_at(d, s7.0, s7.1, 3 * k) as i32,
                        body_id_a: word_at(d, s7.0, s7.1, 3 * k + 1) as i32,
                        body_id_b: word_at(d, s7.0, s7.1, 3 * k + 2) as i32,
                    })
                    &&& if !count_ok(d, s9.1, n3, 12) {
                        &&& island.joints@.len() == 0
                        &&& !final(r).ok && final(r).cursor == s9.1
                    } else {
                        &&& island.joints@.len() == n3
                        &&& forall|k: int| 0 <= k < n3 ==> #[trigger] island.joints@[k] == (JointLink {
                            joint_id: word_at(d, s9.0, s9.1, 3 * k) as i32,
                            body_id_a: word_at(d, s9.0, s9.1, 3 * k + 1) as i32,
                            body_id_b: word_at(d, s9.0, s9.1, 3 * k + 2) as i32,
                        })
                        &&& (final(r).ok, final(r).cursor as int) == after_run(s9, n3 as int, 12)
                    }
                }
            }
        }),
{
    let ghost d = old(r).data@;
    let set_index = r.r_i32();
    let local_index = r.r_i32();
    let island_id = r.r_i32();
    let constraint_remove_count = r.r_i32();
    let mut island = Island {
        set_index,
        local_index,
        island_id,
        constraint_remove_count,
        bodies: Vec::new(),
        contacts: Vec::new(),
        joints: Vec::new(),
    };
    let n = r.r_i32();
    if !r.check_count(n, 4) {
        return island;
    }
    let ghost s5 = (r.ok, r.cursor as int);
    let mut bodies: Vec<i32> = Vec::new();
    let mut i: i32 = 0;
    while i < n
        invariant
            0 <= i <= n,
            r.data@ == d,
            r.ok == s5.0,
            s5.0 ==> s5.1 + 4 * n <= d.len(),
            s5.0 ==> r.cursor == s5.1 + 4 * i,
            !s5.0 ==> r.cursor == s5.1,
            bodies@.len() == i,
            forall|k: int| 0 <= k < i ==> bodies@[k] == #[trigger] (word_at(d, s5.0, s5.1, k) as i32),
        decreases n - i,
    {
        bodies.push(r.r_i32());
        i = i + 1;
    }
    island.bodies = bodies;
    let n = r.r_i32();
    if !r.check_count(n, 12) {
        return island;
    }
    let ghost s7 = (r.ok, r.cursor as int);
    let mut contacts: Vec<ContactLink> = Vec::new();
    let mut i: i32 = 0;
    while i < n
        invariant
            0 <= i <= n,
            r.data@ == d,
            r.ok == s7.0,
            s7.0 ==> s7.1 + 12 * n <= d.len(),
            s7.0 ==> r.cursor == s7.1 + 12 * i,
            !s7.0 ==> r.cursor == s7.1,
            contacts@.len() == i,
            forall|k: int| 0 <= k < i ==> #[trigger] contacts@[k] == (ContactLink {
                contact_id: word_at(d, s7.0, s7.1, 3 * k) as i32,
                body_id_a: word_at(d, s7.0, s7.1, 3 * k + 1) as i32,
                body_id_b: word_at(d, s7.0, s7.1, 3 * k + 2) as i32,
            }),
        decreases n - i,
    {
        let contact_id = r.r_i32();
        let body_id_a = r.r_i32();
        let body_id_b = r.r_i32();
        contacts.push(ContactLink { contact_id, body_id_a, body_id_b });
        i = i + 1;
    }
    island.contacts = contacts;
    let n = r.r_i32();
    if !r.check_count(n, 12) {
        return island;
    }
    let ghost s9 = (r.ok, r.cursor as int);
    let mut joints: Vec<JointLink> = Vec::new();
    let mut i: i32 = 0;
    while i < n
        invariant
            0 <= i <= n,
            r.data@ == d,
            r.ok == s9.0,
            s9.0 ==> s9.1 + 12 * n <= d.len(),
            s9.0 ==> r.cursor == s9.1 + 12 * i,
            !s9.0 ==> r.cursor == s9.1,
            joints@.len() == i,
            forall|k: int| 0 <= k < i ==> #[trigger] joints@[k] == (JointLink {
                joint_id: word_at(d, s9.0, s9.1, 3 * k) as i32,
                body_id_a: word_at(d, s9.0, s9.1, 3 * k + 1) as i32,
                body_id_b: word_at(d, s9.0, s9.1, 3 * k + 2) as i32,
            }),
        decreases n - i,
    {
        let joint_id = r.r_i32();
        let body_id_a = r.r_i32();
        let body_id_b = r.r_i32();
        joints.push(JointLink { joint_id, body_id_a, body_id_b });
        i = i + 1;
    }
    island.joints = joints;
    island
}

/// Append an island sim's image: its island id.
pub fn ser_island_sim(buf: &mut Vec<u8>, s: &IslandSim)
    ensures
        final(buf)@ == old(buf)@ + i32_bytes(s.island_id),
{
    rec_w_i32(buf, s.island_id);
}

/// Read an island sim: its island id.
pub fn des_island_sim(r: &mut SnapReader) -> (s: IslandSim)
    ensures
        SnapReader::took(*old(r), *final(r), 4),
        s.island_id == i32_at(old(r).data@, old(r).ok, old(r).cursor as int),
{
    IslandSim { island_id: r.r_i32() }
}

/// Each material takes 28 bytes on the wire, in order.
pub proof fn lemma_materials_layout(s: Seq<SurfaceMaterial>, i: int)
    requires
        0 <= i < s.len(),
    ensures
        materials_bytes(s).len() == 28 * s.len(),
        materials_bytes(s).subrange(28 * i, 28 * i + 28) == material_bytes(s[i]),
    decreases s.len(),
{
    lemma_materials_len(s);
    if i < s.len() - 1 {
        lemma_materials_layout(s.drop_last(), i);
        assert(materials_bytes(s).subrange(28 * i, 28 * i + 28) =~= materials_bytes(s.drop_last()).subrange(28 * i, 28 * i + 28));
    } else {
        lemma_materials_len(s.drop_last());
        assert(materials_bytes(s).subrange(28 * i, 28 * i + 28) =~= material_bytes(s.last()));
    }
}

/// A material's encoding decodes back to it.
pub proof fn lemma_material_decode(d: Seq<u8>, b: int, m: SurfaceMaterial)
    requires
        0 <= b,
        b + 28 <= d.len(),
        d.subrange(b, b + 28) == material_bytes(m),
    ensures
        material_at(d, true, b, 0) == m,
{
    lemma_u32_round_trip(m.friction);
    lemma_u32_round_trip(m.restitution);
    lemma_u32_round_trip(m.rolling_resistance);
    lemma_u32_round_trip(m.tangent_speed);
    lemma_u64_round_trip(m.user_material_id);
    lemma_u32_round_trip(m.custom_color);
    let e = material_bytes(m);
    assert(d.subrange(b, b + 4) =~= e.subrange(0, 4));
    assert(e.subrange(0, 4) =~= u32_bytes(m.friction));
    assert(d.subrange(b + 4, b + 8) =~= e.subrange(4, 8));
    assert(e.subrange(4, 8) =~= u32_bytes(m.restitution));
    assert(d.subrange(b + 8, b + 12) =~= e.subrange(8, 12));
    assert(e.subrange(8, 12) =~= u32_bytes(m.rolling_resistance));
    assert(d.subrange(b + 12, b + 16) =~= e.subrange(12, 16));
    assert(e.subrange(12, 16) =~= u32_bytes(m.tangent_speed));
    assert(d.subrange(b + 16, b + 24) =~= e.subrange(16, 24));
    assert(e.subrange(16, 24) =~= u64_bytes(m.user_material_id));
    assert(d.subrange(b + 24, b + 28) =~= e.subrange(24, 28));
    assert(e.subrange(24, 28) =~= u32_bytes(m.custom_color));
}

/// A chain reads back unchanged from where it was written, and the reader
/// ends right after it.
pub proof fn law_chain_round_trip(id: i32, body_id: i32, next_chain_id: i32, generation: u16,
    shape_indices: Seq<i32>, materials: Seq<SurfaceMaterial>, d: Seq<u8>, c: int)
    requires
        shape_indices.len() <= i32::MAX,
        materials.len() <= i32::MAX,
        0 <= c,
        c + chain_bytes(id, body_id, next_chain_id, generation, shape_indices, materials).len() <= d.len(),
        d.subrange(c, c + chain_bytes(id, body_id, next_chain_id, generation, shape_indices, materials).len())
            == chain_bytes(id, body_id, next_chain_id, generation, shape_indices, materials),
    ensures
        ({
            let s0 = (true, c);
            let s1 = after(d, s0.0, s0.1, 4);
            let s2 = after(d, s1.0, s1.1, 4);
            let s3 = after(d, s2.0, s2.1, 4);
            let s4 = after(d, s3.0, s3.1, 2);
            let n = value_at(d, s4.0, s4.1, 4) as u32 as i32;
            let s5 = after(d, s4.0, s4.1, 4);
            let s6 = if s5.0 { (true, s5.1 + 4 * n) } else { s5 };
            let m = value_at(d, s6.0, s6.1, 4) as u32 as i32;
            let s7 = after(d, s6.0, s6.1, 4);
            &&& value_at(d, s0.0, s0.1, 4) as u32 as i32 == id
            &&& value_at(d, s1.0, s1.1, 4) as u32 as i32 == body_id
            &&& value_at(d, s2.0, s2.1, 4) as u32 as i32 == next_chain_id
            &&& value_at(d, s3.0, s3.1, 2) as u16 == generation
            &&& n == shape_indices.len()
            &&& count_ok(d, s5.1, n, 4)
            &&& forall|k: int| 0 <= k < n ==> #[trigger] (word_at(d, s5.0, s5.1, k) as i32) == shape_indices[k]
            &&& m == materials.len()
            &&& count_ok(d, s7.1, m, 28)
            &&& forall|k: int| 0 <= k < m ==> #[trigger] material_at(d, s7.0, s7.1, k) == materials[k]
            &&& s7.0
            &&& s7.1 + 28 * m == c + chain_bytes(id, body_id, next_chain_id, generation, shape_indices, materials).len()
        }),
{
    let n = shape_indices.len() as int;
    let m = materials.len() as int;
    let e = chain_bytes(id, body_id, next_chain_id, generation, shape_indices, materials);
    reveal_with_fuel(pow256, 3);
    lemma_le_round_trip(generation as nat, 2);
    if n > 0 {
        lemma_i32s_layout(shape_indices, 0);
    }
    lemma_materials_len(materials);
    assert(e.len() == 22 + 4 * n + 28 * m);
    lemma_u32_round_trip(id as u32);
    lemma_u32_round_trip(body_id as u32);
    lemma_u32_round_trip(next_chain_id as u32);
    lemma_u32_round_trip((n as i32) as u32);
    lemma_u32_round_trip((m as i32) as u32);
    lemma_i32_bits(id);
    lemma_i32_bits(body_id);
    lemma_i32_bits(next_chain_id);
    lemma_i32_bits(n as i32);
    lemma_i32_bits(m as i32);
    assert(d.subrange(c, c + 4) =~= e.subrange(0, 4));
    assert(e.subrange(0, 4) =~= i32_bytes(id));
    assert(d.subrange(c + 4, c + 8) =~= e.subrange(4, 8));
    assert(e.subrange(4, 8) =~= i32_bytes(body_id));
    assert(d.subrange(c + 8, c + 12) =~= e.subrange(8, 12));
    assert(e.subrange(8, 12) =~= i32_bytes(next_chain_id));
    assert(d.subrange(c + 12, c + 14) =~= e.subrange(12, 14));
    assert(e.subrange(12, 14) =~= u16_bytes(generation));
    assert(d.subrange(c + 14, c + 18) =~= e.subrange(14, 18));
    assert(e.subrange(14, 18) =~= i32_bytes(n as i32));
    let b5 = c + 18;
    assert forall|k: int| 0 <= k < n implies #[trigger] (word_at(d, true, b5, k) as i32) == shape_indices[k] by {
        lemma_i32s_layout(shape_indices, k);
        lemma_u32_round_trip(shape_indices[k] as u32);
        lemma_i32_bits(shape_indices[k]);
        assert(d.subrange(b5 + 4 * k, b5 + 4 * k + 4) =~= e.subrange(18 + 4 * k, 22 + 4 * k));
        assert(e.subrange(18 + 4 * k, 22 + 4 * k) =~= i32s_bytes(shape_indices).subrange(4 * k, 4 * k + 4));
    }
    let b6 = b5 + 4 * n;
    assert(d.subrange(b6, b6 + 4) =~= e.subrange(18 + 4 * n, 22 + 4 * n));
    assert(e.subrange(18 + 4 * n, 22 + 4 * n) =~= i32_bytes(m as i32));
    let b7 = b6 + 4;
    assert forall|k: int| 0 <= k < m implies #[trigger] material_at(d, true, b7, k) == materials[k] by {
        lemma_materials_layout(materials, k);
        assert(d.subrange(b7 + 28 * k, b7 + 28 * k + 28) =~= e.subrange(22 + 4 * n + 28 * k, 50 + 4 * n + 28 * k));
        assert(e.subrange(22 + 4 * n + 28 * k, 50 + 4 * n + 28 * k) =~= materials_bytes(materials).subrange(28 * k, 28 * k + 28));
        lemma_material_decode(d, b7 + 28 * k, materials[k]);
    }
}

/// The words a run of contact links travels as, three per link.
pub open spec fn contact_words(s: Seq<ContactLink>) -> Seq<i32> {
    Seq::new(3 * s.len(), |i: int| if i % 3 == 0 { s[i / 3].contact_id } else if i % 3 == 1 { s[i / 3].body_id_a } else { s[i / 3].body_id_b })
}

/// The words a run of joint links travels as, three per link.
pub open spec fn joint_words(s: Seq<JointLink>) -> Seq<i32> {
    Seq::new(3 * s.len(), |i: int| if i % 3 == 0 { s[i / 3].joint_id } else if i % 3 == 1 { s[i / 3].body_id_a } else { s[i / 3].body_id_b })
}

proof fn lemma_i32s_push3(x: Seq<i32>, a: i32, b: i32, c: i32)
    ensures
        i32s_bytes(x + seq![a, b, c]) == i32s_bytes(x) + i32_bytes(a) + i32_bytes(b) + i32_bytes(c),
{
    let y = x + seq![a, b, c];
    assert(y.drop_last() =~= x + seq![a, b]);
    assert((x + seq![a, b]).drop_last() =~= x + seq![a]);
    assert((x + seq![a]).drop_last() =~= x);
    assert(i32s_bytes(x + seq![a]) == i32s_bytes(x) + i32_bytes(a));
    assert(i32s_bytes(x + seq![a, b]) == i32s_bytes(x + seq![a]) + i32_bytes(b));
    assert(i32s_bytes(y) == i32s_bytes(x + seq![a, b]) + i32_bytes(c));
    assert(i32s_bytes(y) =~= i32s_bytes(x) + i32_bytes(a) + i32_bytes(b) + i32_bytes(c));
}

/// Contact links travel as their words in order.
pub proof fn lemma_contact_links_words(s: Seq<ContactLink>)
    ensures
        contact_links_bytes(s) == i32s_bytes(contact_words(s)),
    decreases s.len(),
{
    if s.len() > 0 {
        lemma_contact_links_words(s.drop_last());
        let l = s.last();
        assert(contact_words(s) =~= contact_words(s.drop_last()) + seq![l.contact_id, l.body_id_a, l.body_id_b]);
        lemma_i32s_push3(contact_words(s.drop_last()), l.contact_id, l.body_id_a, l.body_id_b);
        assert(contact_links_bytes(s) =~= i32s_bytes(contact_words(s)));
    } else {
        assert(contact_words(s) =~= Seq::<i32>::empty());
    }
}

/// Joint links travel as their words in order.
pub proof fn lemma_joint_links_words(s: Seq<JointLink>)
    ensures
        joint_links_bytes(s) == i32s_bytes(joint_words(s)),
    decreases s.len(),
{
    if s.len() > 0 {
        lemma_joint_links_words(s.drop_last());
        let l = s.last();
        assert(joint_words(s) =~= joint_words(s.drop_last()) + seq![l.joint_id, l.body_id_a, l.body_id_b]);
        lemma_i32s_push3(joint_words(s.drop_last()), l.joint_id, l.body_id_a, l.body_id_b);
        assert(joint_links_bytes(s) =~= i32s_bytes(joint_words(s)));
    } else {
        assert(joint_words(s) =~= Seq::<i32>::empty());
    }
}

/// A run of signed words read from `base` gives back the words encoded
/// there.
pub proof fn lemma_words_read_back(w: Seq<i32>, d: Seq<u8>, base: int)
    requires
        0 <= base,
        base + 4 * w.len() <= d.len(),
        d.subrange(base, base + 4 * w.len()) == i32s_bytes(w),
    ensures
        forall|k: int| 0 <= k < w.len() ==> #[trigger] (word_at(d, true, base, k) as i32) == w[k],
{
    assert forall|k: int| 0 <= k < w.len() implies #[trigger] (word_at(d, true, base, k) as i32) == w[k] by {
        lemma_i32s_layout(w, k);
        lemma_u32_round_trip(w[k] as u32);
        lemma_i32_bits(w[k]);
        assert(d.subrange(base + 4 * k, base + 4 * k + 4) =~= i32s_bytes(w).subrange(4 * k, 4 * k + 4));
    }
}

/// An island reads back unchanged from where it was written, and the
/// reader ends right after it.
pub proof fn law_island_round_trip(set_index: i32, local_index: i32, island_id: i32, constraint_remove_count: i32,
    bodies: Seq<i32>, contacts: Seq<ContactLink>, joints: Seq<JointLink>, d: Seq<u8>, c: int)
    requires
        bodies.len() <= i32::MAX,
        contacts.len() <= i32::MAX,
        joints.len() <= i32::MAX,
        0 <= c,
        c + island_bytes(set_index, local_index, island_id, constraint_remove_count, bodies, contacts, joints).len() <= d.len(),
        d.subrange(c, c + island_bytes(set_index, local_index, island_id, constraint_remove_count, bodies, contacts, joints).len())
            == island_bytes(set_index, local_index, island_id, constraint_remove_count, bodies, contacts, joints),
    ensures
        island_read_back(set_index, local_index, island_id, constraint_remove_count, bodies, contacts, joints, d, c,
            c + island_bytes(set_index, local_index, island_id, constraint_remove_count, bodies, contacts, joints).len()),
{
    let e = island_bytes(set_index, local_index, island_id, constraint_remove_count, bodies, contacts, joints);
    let heads = seq![set_index, local_index, island_id, constraint_remove_count, bodies.len() as i32];
    lemma_island_layout(set_index, local_index, island_id, constraint_remove_count, bodies, contacts, joints);
    lemma_island_parts(d, c, e, heads, bodies, contacts.len() as i32, contact_words(contacts), joints.len() as i32,
        joint_words(joints));
    lemma_island_reads(set_index, local_index, island_id, constraint_remove_count, bodies, contacts, joints, d, c);
}

/// What `des_island` reads from `(true, c)` in `d` is the island given, and
/// the reader ends at `end`.
pub open spec fn island_read_back(set_index: i32, local_index: i32, island_id: i32, constraint_remove_count: i32,
    bodies: Seq<i32>, contacts: Seq<ContactLink>, joints: Seq<JointLink>, d: Seq<u8>, c: int, end: int) -> bool {
    let s5 = (true, c + 20);
    let n1 = i32_at(d, true, c + 16);
    let s6 = after_run(s5, n1 as int, 4);
    let n2 = i32_at(d, s6.0, s6.1);
    let s7 = after(d, s6.0, s6.1, 4);
    let s8 = after_run(s7, n2 as int, 12);
    let n3 = i32_at(d, s8.0, s8.1);
    let s9 = after(d, s8.0, s8.1, 4);
    &&& i32_at(d, true, c) == set_index
    &&& i32_at(d, true, c + 4) == local_index
    &&& i32_at(d, true, c + 8) == island_id
    &&& i32_at(d, true, c + 12) == constraint_remove_count
    &&& n1 == bodies.len() && count_ok(d, s5.1, n1, 4)
    &&& forall|k: int| 0 <= k < n1 ==> #[trigger] (word_at(d, s5.0, s5.1, k) as i32) == bodies[k]
    &&& n2 == contacts.len() && count_ok(d, s7.1, n2, 12)
    &&& forall|k: int| 0 <= k < n2 ==> #[trigger] contacts[k] == (ContactLink {
        contact_id: word_at(d, s7.0, s7.1, 3 * k) as i32,
        body_id_a: word_at(d, s7.0, s7.1, 3 * k + 1) as i32,
        body_id_b: word_at(d, s7.0, s7.1, 3 * k + 2) as i32,
    })
    &&& n3 == joints.len() && count_ok(d, s9.1, n3, 12)
    &&& forall|k: int| 0 <= k < n3 ==> #[trigger] joints[k] == (JointLink {
        joint_id: word_at(d, s9.0, s9.1, 3 * k) as i32,
        body_id_a: word_at(d, s9.0, s9.1, 3 * k + 1) as i32,
        body_id_b: word_at(d, s9.0, s9.1, 3 * k + 2) as i32,
    })
    &&& after_run(s9, n3 as int, 12) == (true, end)
}

/// From the words laid down part by part, the reads `des_island` makes.
proof fn lemma_island_reads(set_index: i32, local_index: i32, island_id: i32, constraint_remove_count: i32,
    bodies: Seq<i32>, contacts: Seq<ContactLink>, joints: Seq<JointLink>, d: Seq<u8>, c: int)
    requires
        bodies.len() <= i32::MAX,
        contacts.len() <= i32::MAX,
        joints.len() <= i32::MAX,
        0 <= c,
        c + 28 + 4 * bodies.len() + 12 * contacts.len() + 12 * joints.len() <= d.len(),
        ({
            let heads = seq![set_index, local_index, island_id, constraint_remove_count, bodies.len() as i32];
            let cw = contact_words(contacts);
            let jw = joint_words(joints);
            let l1: int = 20 + 4 * (bodies.len() as int);
            let l2 = l1 + 4;
            let l3 = l2 + 4 * cw.len();
            let l4 = l3 + 4;
            &&& forall|k: int| 0 <= k < 5 ==> #[trigger] (word_at(d, true, c, k) as i32) == heads[k]
            &&& forall|k: int| 0 <= k < bodies.len() ==> #[trigger] (word_at(d, true, c + 20, k) as i32) == bodies[k]
            &&& word_at(d, true, c + l1, 0) as i32 == contacts.len() as i32
            &&& forall|k: int| 0 <= k < cw.len() ==> #[trigger] (word_at(d, true, c + l2, k) as i32) == cw[k]
            &&& word_at(d, true, c + l3, 0) as i32 == joints.len() as i32
            &&& forall|k: int| 0 <= k < jw.len() ==> #[trigger] (word_at(d, true, c + l4, k) as i32) == jw[k]
        }),
    ensures
        island_read_back(set_index, local_index, island_id, constraint_remove_count, bodies, contacts, joints, d, c,
            c + 28 + 4 * bodies.len() + 12 * contacts.len() + 12 * joints.len()),
{
    let n1 = bodies.len() as int;
    let n2 = contacts.len() as int;
    let n3 = joints.len() as int;
    let cw = contact_words(contacts);
    let jw = joint_words(joints);
    let heads = seq![set_index, local_index, island_id, constraint_remove_count, n1 as i32];
    let l1: int = 20 + 4 * n1;
    let l2 = l1 + 4;
    let l3 = l2 + 12 * n2;
    let l4 = l3 + 4;
    assert(word_at(d, true, c, 0) as i32 == heads[0]);
    assert(word_at(d, true, c, 1) as i32 == heads[1]);
    assert(word_at(d, true, c, 2) as i32 == heads[2]);
    assert(word_at(d, true, c, 3) as i32 == heads[3]);
    assert(word_at(d, true, c, 4) as i32 == heads[4]);
    assert(cw.len() == 3 * n2);
    assert(jw.len() == 3 * n3);
    assert forall|k: int| 0 <= k < n2 implies #[trigger] contacts[k] == (ContactLink {
        contact_id: word_at(d, true, c + l2, 3 * k) as i32,
        body_id_a: word_at(d, true, c + l2, 3 * k + 1) as i32,
        body_id_b: word_at(d, true, c + l2, 3 * k + 2) as i32,
    }) by {
        assert(word_at(d, true, c + l2, 3 * k) as i32 == cw[3 * k]);
        assert(word_at(d, true, c + l2, 3 * k + 1) as i32 == cw[3 * k + 1]);
        assert(word_at(d, true, c + l2, 3 * k + 2) as i32 == cw[3 * k + 2]);
    }
    assert forall|k: int| 0 <= k < n3 implies #[trigger] joints[k] == (JointLink {
        joint_id: word_at(d, true, c + l4, 3 * k) as i32,
        body_id_a: word_at(d, true, c + l4, 3 * k + 1) as i32,
        body_id_b: word_at(d, true, c + l4, 3 * k + 2) as i32,
    }) by {
        assert(word_at(d, true, c + l4, 3 * k) as i32 == jw[3 * k]);
        assert(word_at(d, true, c + l4, 3 * k + 1) as i32 == jw[3 * k + 1]);
        assert(word_at(d, true, c + l4, 3 * k + 2) as i32 == jw[3 * k + 2]);
    }
    assert(word_at(d, true, c + l1, 0) as i32 == n2 as i32);
    assert(word_at(d, true, c + l3, 0) as i32 == n3 as i32);
}

/// An island's encoding as runs of signed words.
proof fn lemma_island_layout(set_index: i32, local_index: i32, island_id: i32, constraint_remove_count: i32,
    bodies: Seq<i32>, contacts: Seq<ContactLink>, joints: Seq<JointLink>)
    ensures
        island_bytes(set_index, local_index, island_id, constraint_remove_count, bodies, contacts, joints)
            == i32s_bytes(seq![set_index, local_index, island_id, constraint_remove_count, bodies.len() as i32])
            + i32s_bytes(bodies) + i32s_bytes(seq![contacts.len() as i32]) + i32s_bytes(contact_words(contacts))
            + i32s_bytes(seq![joints.len() as i32]) + i32s_bytes(joint_words(joints)),
        i32s_bytes(bodies).len() == 4 * bodies.len(),
        i32s_bytes(contact_words(contacts)).len() == 12 * contacts.len(),
        i32s_bytes(joint_words(joints)).len() == 12 * joints.len(),
        island_bytes(set_index, local_index, island_id, constraint_remove_count, bodies, contacts, joints).len()
            == 28 + 4 * bodies.len() + 12 * contacts.len() + 12 * joints.len(),
{
    lemma_contact_links_words(contacts);
    lemma_joint_links_words(joints);
    lemma_i32s_len(bodies);
    lemma_i32s_len(contact_words(contacts));
    lemma_i32s_len(joint_words(joints));
    lemma_i32s_five(set_index, local_index, island_id, constraint_remove_count, bodies.len() as i32);
    lemma_i32s_one(contacts.len() as i32);
    lemma_i32s_one(joints.len() as i32);
    assert(island_bytes(set_index, local_index, island_id, constraint_remove_count, bodies, contacts, joints)
        =~= i32s_bytes(seq![set_index, local_index, island_id, constraint_remove_count, bodies.len() as i32])
        + i32s_bytes(bodies) + i32s_bytes(seq![contacts.len() as i32]) + i32s_bytes(contact_words(contacts))
        + i32s_bytes(seq![joints.len() as i32]) + i32s_bytes(joint_words(joints)));
}

/// The word reads over an island's encoding, part by part.
proof fn lemma_island_parts(d: Seq<u8>, c: int, e: Seq<u8>, heads: Seq<i32>, bodies: Seq<i32>, n2: i32,
    cw: Seq<i32>, n3: i32, jw: Seq<i32>)
    requires
        0 <= c,
        heads.len() == 5,
        c + e.len() <= d.len(),
        d.subrange(c, c + e.len()) == e,
        i32s_bytes(bodies).len() == 4 * bodies.len(),
        i32s_bytes(cw).len() == 4 * cw.len(),
        i32s_bytes(jw).len() == 4 * jw.len(),
        e == i32s_bytes(heads) + i32s_bytes(bodies) + i32s_bytes(seq![n2]) + i32s_bytes(cw) + i32s_bytes(seq![n3]) + i32s_bytes(jw),
    ensures
        ({
            let l1: int = 20 + 4 * (bodies.len() as int);
            let l2 = l1 + 4;
            let l3 = l2 + 4 * cw.len();
            let l4 = l3 + 4;
            &&& forall|k: int| 0 <= k < 5 ==> #[trigger] (word_at(d, true, c, k) as i32) == heads[k]
            &&& forall|k: int| 0 <= k < bodies.len() ==> #[trigger] (word_at(d, true, c + 20, k) as i32) == bodies[k]
            &&& word_at(d, true, c + l1, 0) as i32 == n2
            &&& forall|k: int| 0 <= k < cw.len() ==> #[trigger] (word_at(d, true, c + l2, k) as i32) == cw[k]
            &&& word_at(d, true, c + l3, 0) as i32 == n3
            &&& forall|k: int| 0 <= k < jw.len() ==> #[trigger] (word_at(d, true, c + l4, k) as i32) == jw[k]
            &&& e.len() == l4 + 4 * jw.len()
        }),
{
    let t2 = seq![n2];
    let t3 = seq![n3];
    lemma_i32s_len(heads);
    lemma_i32s_len(t2);
    lemma_i32s_len(t3);
    let l1: int = 20 + 4 * (bodies.len() as int);
    let l2 = l1 + 4;
    let l3 = l2 + 4 * cw.len();
    let l4 = l3 + 4;
    assert(e.subrange(0, 20) =~= i32s_bytes(heads));
    assert(e.subrange(20, l1) =~= i32s_bytes(bodies));
    assert(e.subrange(l1, l2) =~= i32s_bytes(t2));
    assert(e.subrange(l2, l3) =~= i32s_bytes(cw));
    assert(e.subrange(l3, l4) =~= i32s_bytes(t3));
    assert(e.subrange(l4, l4 + 4 * jw.len()) =~= i32s_bytes(jw));
    lemma_part_read_back(d, c, e, 0, heads);
    lemma_part_read_back(d, c, e, 20, bodies);
    lemma_part_read_back(d, c, e, l1, t2);
    lemma_part_read_back(d, c, e, l2, cw);
    lemma_part_read_back(d, c, e, l3, t3);
    lemma_part_read_back(d, c, e, l4, jw);
    assert(c + 0 == c);
}

/// Each signed word takes four bytes.
pub proof fn lemma_i32s_len(w: Seq<i32>)
    ensures
        i32s_bytes(w).len() == 4 * w.len(),
    decreases w.len(),
{
    if w.len() > 0 {
        lemma_i32s_len(w.drop_last());
    }
}

proof fn lemma_i32s_one(a: i32)
    ensures
        i32s_bytes(seq![a]) == i32_bytes(a),
{
    reveal_with_fuel(i32s_bytes, 2);
    assert(seq![a].drop_last() =~= Seq::<i32>::empty());
    assert(i32s_bytes(seq![a]) =~= i32_bytes(a));
}

proof fn lemma_i32s_five(a: i32, b: i32, c: i32, e: i32, f: i32)
    ensures
        i32s_bytes(seq![a, b, c, e, f]) == i32_bytes(a) + i32_bytes(b) + i32_bytes(c) + i32_bytes(e) + i32_bytes(f),
{
    lemma_i32s_one(a);
    lemma_i32s_push3(seq![a], b, c, e);
    assert(seq![a] + seq![b, c, e] =~= seq![a, b, c, e]);
    assert(seq![a, b, c, e, f].drop_last() =~= seq![a, b, c, e]);
    assert(i32s_bytes(seq![a, b, c, e, f]) =~= i32_bytes(a) + i32_bytes(b) + i32_bytes(c) + i32_bytes(e) + i32_bytes(f));
}

/// Where part of an encoding at `c + lo` is a run of signed words, those
/// words read back from there.
pub proof fn lemma_part_read_back(d: Seq<u8>, c: int, e: Seq<u8>, lo: int, w: Seq<i32>)
    requires
        0 <= c,
        0 <= lo,
        lo + 4 * w.len() <= e.len(),
        c + e.len() <= d.len(),
        d.subrange(c, c + e.len()) == e,
        e.subrange(lo, lo + 4 * w.len()) == i32s_bytes(w),
    ensures
        forall|k: int| 0 <= k < w.len() ==> #[trigger] (word_at(d, true, c + lo, k) as i32) == w[k],
{
    assert(d.subrange(c + lo, c + lo + 4 * w.len()) =~= e.subrange(lo, lo + 4 * w.len()));
    lemma_words_read_back(w, d, c + lo);
}

} // verus!
