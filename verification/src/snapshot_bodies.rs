use vstd::prelude::*;
use crate::geometry::{Rot, Transform, Vec2};
use crate::recording::decode::{
    bool_read, i32_read, law_rot_round_trip, law_vec2_round_trip, law_xf_round_trip, lemma_bool_read_back,
    lemma_i32_read_back, lemma_split, lemma_u32_read_back, r_rot, r_vec2, r_xf, read_bool, read_i32, read_u32,
    rot_read, u16_read, u32_read, u8_read, vec2_read, xf_read,
};
use crate::snapshot::SnapReader;
use crate::recording::decode::{
    body_type_from, law_string_round_trip, lemma_u64_read_back, r_string, read_u64, string_read, u64_read_at,
};
use crate::types::{body_type_code, BodyType};
use crate::world::Body;
use crate::write::{rec_w_str, rec_w_u64, str_bytes, u64_bytes, REC_MAX_STR_LEN};
use vstd::utf8::{encode_utf8, is_ascii_chars};
use crate::write::{
    bool_byte, i32_bytes, le_bytes, lemma_le_round_trip, pow256, rec_w_bool, rec_w_i32, rec_w_rot, rec_w_u16,
    rec_w_u32, rec_w_u8, rec_w_vec2, rec_w_xf, rot_bytes, u16_bytes, u32_bytes, vec2_bytes, xf_bytes,
};

verus! {

broadcast use crate::write::lemma_le_bytes_len;

// Images of the body and contact records of a world snapshot: each record's
// fields in order, little-endian, every real value as its IEEE-754 single
// precision bit pattern, a switch as one byte.

/// Read a 2-byte word, in the reader-state form.
fn read_u16(r: &mut SnapReader) -> (v: u16)
    ensures
        final(r).data@ == old(r).data@,
        (v, (final(r).ok, final(r).cursor as int)) == u16_read(old(r).data@, old(r).ok, old(r).cursor as int),
{
    r.r_u16()
}

/// Read a byte, in the reader-state form.
fn read_u8(r: &mut SnapReader) -> (v: u8)
    ensures
        final(r).data@ == old(r).data@,
        (v, (final(r).ok, final(r).cursor as int)) == u8_read(old(r).data@, old(r).ok, old(r).cursor as int),
{
    r.r_u8()
}

/// A 2-byte word reads back from its encoding.
proof fn lemma_u16_read_back(v: u16, d: Seq<u8>, c: int)
    requires
        0 <= c,
        c + 2 <= d.len(),
        d.subrange(c, c + 2) == u16_bytes(v),
    ensures
        u16_read(d, true, c) == (v, (true, c + 2)),
{
    reveal_with_fuel(pow256, 3);
    lemma_le_round_trip(v as nat, 2);
}

/// A byte reads back from itself.
proof fn lemma_u8_read_back(v: u8, d: Seq<u8>, c: int)
    requires
        0 <= c,
        c + 1 <= d.len(),
        d.subrange(c, c + 1) == seq![v],
    ensures
        u8_read(d, true, c) == (v, (true, c + 1)),
{
    assert(d[c] == d.subrange(c, c + 1)[0]);
}


/// The solver state of a body that moves: transform, centers, forces and mass parameters.
#[derive(Clone, Copy, Debug, PartialEq, Eq, Structural)]
pub struct BodySim {
    pub transform: Transform,
    pub center: Vec2,
    pub rotation0: Rot,
    pub center0: Vec2,
    pub local_center: Vec2,
    pub force: Vec2,
    pub torque: u32,
    pub inv_mass: u32,
    pub inv_inertia: u32,
    pub min_extent: u32,
    pub max_extent: u32,
    pub linear_damping: u32,
    pub angular_damping: u32,
    pub gravity_scale: u32,
    pub body_id: i32,
    pub flags: u32,
}

/// Image form of a body sim: its fields in order, 96 bytes.
pub open spec fn body_sim_image(v: BodySim) -> Seq<u8> {
    xf_bytes(v.transform) + vec2_bytes(v.center) + rot_bytes(v.rotation0) + vec2_bytes(v.center0) + vec2_bytes(v.local_center) + vec2_bytes(v.force) + u32_bytes(v.torque) + u32_bytes(v.inv_mass) + u32_bytes(v.inv_inertia) + u32_bytes(v.min_extent) + u32_bytes(v.max_extent) + u32_bytes(v.linear_damping) + u32_bytes(v.angular_damping) + u32_bytes(v.gravity_scale) + i32_bytes(v.body_id) + u32_bytes(v.flags)
}

/// A body sim read at `(ok, c)`, its fields in order.
pub open spec fn body_sim_read(d: Seq<u8>, ok: bool, c: int) -> (BodySim, (bool, int)) {
    let (x0, s1) = xf_read(d, ok, c);
    let (x1, s2) = vec2_read(d, s1.0, s1.1);
    let (x2, s3) = rot_read(d, s2.0, s2.1);
    let (x3, s4) = vec2_read(d, s3.0, s3.1);
    let (x4, s5) = vec2_read(d, s4.0, s4.1);
    let (x5, s6) = vec2_read(d, s5.0, s5.1);
    let (x6, s7) = u32_read(d, s6.0, s6.1);
    let (x7, s8) = u32_read(d, s7.0, s7.1);
    let (x8, s9) = u32_read(d, s8.0, s8.1);
    let (x9, s10) = u32_read(d, s9.0, s9.1);
    let (x10, s11) = u32_read(d, s10.0, s10.1);
    let (x11, s12) = u32_read(d, s11.0, s11.1);
    let (x12, s13) = u32_read(d, s12.0, s12.1);
    let (x13, s14) = u32_read(d, s13.0, s13.1);
    let (x14, s15) = i32_read(d, s14.0, s14.1);
    let (x15, s16) = u32_read(d, s15.0, s15.1);
    (BodySim { transform: x0, center: x1, rotation0: x2, center0: x3, local_center: x4, force: x5, torque: x6, inv_mass: x7, inv_inertia: x8, min_extent: x9, max_extent: x10, linear_damping: x11, angular_damping: x12, gravity_scale: x13, body_id: x14, flags: x15 }, s16)
}

/// Append the image of a body sim.
pub fn ser_body_sim(buf: &mut Vec<u8>, v: &BodySim)
    ensures
        final(buf)@ == old(buf)@ + body_sim_image(*v),
{
    ser_body_sim_into(buf, *v);
}

fn ser_body_sim_into(buf: &mut Vec<u8>, v: BodySim)
    ensures
        final(buf)@ == old(buf)@ + body_sim_image(v),
{
    rec_w_xf(buf, v.transform);
    rec_w_vec2(buf, v.center);
    rec_w_rot(buf, v.rotation0);
    rec_w_vec2(buf, v.center0);
    rec_w_vec2(buf, v.local_center);
    rec_w_vec2(buf, v.force);
    rec_w_u32(buf, v.torque);
    rec_w_u32(buf, v.inv_mass);
    rec_w_u32(buf, v.inv_inertia);
    rec_w_u32(buf, v.min_extent);
    rec_w_u32(buf, v.max_extent);
    rec_w_u32(buf, v.linear_damping);
    rec_w_u32(buf, v.angular_damping);
    rec_w_u32(buf, v.gravity_scale);
    rec_w_i32(buf, v.body_id);
    rec_w_u32(buf, v.flags);
    assert(buf@ =~= old(buf)@ + body_sim_image(v));
}

/// Read a body sim from its image.
pub fn des_body_sim(r: &mut SnapReader) -> (v: BodySim)
    ensures
        final(r).data@ == old(r).data@,
        (v, (final(r).ok, final(r).cursor as int)) == body_sim_read(old(r).data@, old(r).ok, old(r).cursor as int),
{
    let x0 = r_xf(r);
    let x1 = r_vec2(r);
    let x2 = r_rot(r);
    let x3 = r_vec2(r);
    let x4 = r_vec2(r);
    let x5 = r_vec2(r);
    let x6 = read_u32(r);
    let x7 = read_u32(r);
    let x8 = read_u32(r);
    let x9 = read_u32(r);
    let x10 = read_u32(r);
    let x11 = read_u32(r);
    let x12 = read_u32(r);
    let x13 = read_u32(r);
    let x14 = read_i32(r);
    let x15 = read_u32(r);
    BodySim { transform: x0, center: x1, rotation0: x2, center0: x3, local_center: x4, force: x5, torque: x6, inv_mass: x7, inv_inertia: x8, min_extent: x9, max_extent: x10, linear_damping: x11, angular_damping: x12, gravity_scale: x13, body_id: x14, flags: x15 }
}

/// A body sim reads back unchanged from its image.
#[verifier::spinoff_prover]
pub proof fn law_body_sim_round_trip(v: BodySim, d: Seq<u8>, c: int)
    requires
        0 <= c,
        c + 96 <= d.len(),
        d.subrange(c, c + 96) == body_sim_image(v),
    ensures
        body_sim_read(d, true, c) == (v, (true, c + 96)),
{
    lemma_split(d, c, xf_bytes(v.transform) + vec2_bytes(v.center) + rot_bytes(v.rotation0) + vec2_bytes(v.center0) + vec2_bytes(v.local_center) + vec2_bytes(v.force) + u32_bytes(v.torque) + u32_bytes(v.inv_mass) + u32_bytes(v.inv_inertia) + u32_bytes(v.min_extent) + u32_bytes(v.max_extent) + u32_bytes(v.linear_damping) + u32_bytes(v.angular_damping) + u32_bytes(v.gravity_scale) + i32_bytes(v.body_id), u32_bytes(v.flags));
    lemma_split(d, c, xf_bytes(v.transform) + vec2_bytes(v.center) + rot_bytes(v.rotation0) + vec2_bytes(v.center0) + vec2_bytes(v.local_center) + vec2_bytes(v.force) + u32_bytes(v.torque) + u32_bytes(v.inv_mass) + u32_bytes(v.inv_inertia) + u32_bytes(v.min_extent) + u32_bytes(v.max_extent) + u32_bytes(v.linear_damping) + u32_bytes(v.angular_damping) + u32_bytes(v.gravity_scale), i32_bytes(v.body_id));
    lemma_split(d, c, xf_bytes(v.transform) + vec2_bytes(v.center) + rot_bytes(v.rotation0) + vec2_bytes(v.center0) + vec2_bytes(v.local_center) + vec2_bytes(v.force) + u32_bytes(v.torque) + u32_bytes(v.inv_mass) + u32_bytes(v.inv_inertia) + u32_bytes(v.min_extent) + u32_bytes(v.max_extent) + u32_bytes(v.linear_damping) + u32_bytes(v.angular_damping), u32_bytes(v.gravity_scale));
    lemma_split(d, c, xf_bytes(v.transform) + vec2_bytes(v.center) + rot_bytes(v.rotation0) + vec2_bytes(v.center0) + vec2_bytes(v.local_center) + vec2_bytes(v.force) + u32_bytes(v.torque) + u32_bytes(v.inv_mass) + u32_bytes(v.inv_inertia) + u32_bytes(v.min_extent) + u32_bytes(v.max_extent) + u32_bytes(v.linear_damping), u32_bytes(v.angular_damping));
    lemma_split(d, c, xf_bytes(v.transform) + vec2_bytes(v.center) + rot_bytes(v.rotation0) + vec2_bytes(v.center0) + vec2_bytes(v.local_center) + vec2_bytes(v.force) + u32_bytes(v.torque) + u32_bytes(v.inv_mass) + u32_bytes(v.inv_inertia) + u32_bytes(v.min_extent) + u32_bytes(v.max_extent), u32_bytes(v.linear_damping));
    lemma_split(d, c, xf_bytes(v.transform) + vec2_bytes(v.center) + rot_bytes(v.rotation0) + vec2_bytes(v.center0) + vec2_bytes(v.local_center) + vec2_bytes(v.force) + u32_bytes(v.torque) + u32_bytes(v.inv_mass) + u32_bytes(v.inv_inertia) + u32_bytes(v.min_extent), u32_bytes(v.max_extent));
    lemma_split(d, c, xf_bytes(v.transform) + vec2_bytes(v.center) + rot_bytes(v.rotation0) + vec2_bytes(v.center0) + vec2_bytes(v.local_center) + vec2_bytes(v.force) + u32_bytes(v.torque) + u32_bytes(v.inv_mass) + u32_bytes(v.inv_inertia), u32_bytes(v.min_extent));
    lemma_split(d, c, xf_bytes(v.transform) + vec2_bytes(v.center) + rot_bytes(v.rotation0) + vec2_bytes(v.center0) + vec2_bytes(v.local_center) + vec2_bytes(v.force) + u32_bytes(v.torque) + u32_bytes(v.inv_mass), u32_bytes(v.inv_inertia));
    lemma_split(d, c, xf_bytes(v.transform) + vec2_bytes(v.center) + rot_bytes(v.rotation0) + vec2_bytes(v.center0) + vec2_bytes(v.local_center) + vec2_bytes(v.force) + u32_bytes(v.torque), u32_bytes(v.inv_mass));
    lemma_split(d, c, xf_bytes(v.transform) + vec2_bytes(v.center) + rot_bytes(v.rotation0) + vec2_bytes(v.center0) + vec2_bytes(v.local_center) + vec2_bytes(v.force), u32_bytes(v.torque));
    lemma_split(d, c, xf_bytes(v.transform) + vec2_bytes(v.center) + rot_bytes(v.rotation0) + vec2_bytes(v.center0) + vec2_bytes(v.local_center), vec2_bytes(v.force));
    lemma_split(d, c, xf_bytes(v.transform) + vec2_bytes(v.center) + rot_bytes(v.rotation0) + vec2_bytes(v.center0), vec2_bytes(v.local_center));
    lemma_split(d, c, xf_bytes(v.transform) + vec2_bytes(v.center) + rot_bytes(v.rotation0), vec2_bytes(v.center0));
    lemma_split(d, c, xf_bytes(v.transform) + vec2_bytes(v.center), rot_bytes(v.rotation0));
    lemma_split(d, c, xf_bytes(v.transform), vec2_bytes(v.center));
    law_xf_round_trip(v.transform, d, c + 0);
    law_vec2_round_trip(v.center, d, c + 16);
    law_rot_round_trip(v.rotation0, d, c + 24);
    law_vec2_round_trip(v.center0, d, c + 32);
    law_vec2_round_trip(v.local_center, d, c + 40);
    law_vec2_round_trip(v.force, d, c + 48);
    lemma_u32_read_back(v.torque, d, c + 56);
    lemma_u32_read_back(v.inv_mass, d, c + 60);
    lemma_u32_read_back(v.inv_inertia, d, c + 64);
    lemma_u32_read_back(v.min_extent, d, c + 68);
    lemma_u32_read_back(v.max_extent, d, c + 72);
    lemma_u32_read_back(v.linear_damping, d, c + 76);
    lemma_u32_read_back(v.angular_damping, d, c + 80);
    lemma_u32_read_back(v.gravity_scale, d, c + 84);
    lemma_i32_read_back(v.body_id, d, c + 88);
    lemma_u32_read_back(v.flags, d, c + 92);
}

/// The velocity state of an awake body.
#[derive(Clone, Copy, Debug, PartialEq, Eq, Structural)]
pub struct BodyState {
    pub linear_velocity: Vec2,
    pub angular_velocity: u32,
    pub flags: u32,
    pub delta_position: Vec2,
    pub delta_rotation: Rot,
}

/// Image form of a body state: its fields in order, 32 bytes.
pub open spec fn body_state_image(v: BodyState) -> Seq<u8> {
    vec2_bytes(v.linear_velocity) + u32_bytes(v.angular_velocity) + u32_bytes(v.flags) + vec2_bytes(v.delta_position) + rot_bytes(v.delta_rotation)
}

/// A body state read at `(ok, c)`, its fields in order.
pub open spec fn body_state_read(d: Seq<u8>, ok: bool, c: int) -> (BodyState, (bool, int)) {
    let (x0, s1) = vec2_read(d, ok, c);
    let (x1, s2) = u32_read(d, s1.0, s1.1);
    let (x2, s3) = u32_read(d, s2.0, s2.1);
    let (x3, s4) = vec2_read(d, s3.0, s3.1);
    let (x4, s5) = rot_read(d, s4.0, s4.1);
    (BodyState { linear_velocity: x0, angular_velocity: x1, flags: x2, delta_position: x3, delta_rotation: x4 }, s5)
}

/// Append the image of a body state.
pub fn ser_body_state(buf: &mut Vec<u8>, v: &BodyState)
    ensures
        final(buf)@ == old(buf)@ + body_state_image(*v),
{
    ser_body_state_into(buf, *v);
}

fn ser_body_state_into(buf: &mut Vec<u8>, v: BodyState)
    ensures
        final(buf)@ == old(buf)@ + body_state_image(v),
{
    rec_w_vec2(buf, v.linear_velocity);
    rec_w_u32(buf, v.angular_velocity);
    rec_w_u32(buf, v.flags);
    rec_w_vec2(buf, v.delta_position);
    rec_w_rot(buf, v.delta_rotation);
    assert(buf@ =~= old(buf)@ + body_state_image(v));
}

/// Read a body state from its image.
pub fn des_body_state(r: &mut SnapReader) -> (v: BodyState)
    ensures
        final(r).data@ == old(r).data@,
        (v, (final(r).ok, final(r).cursor as int)) == body_state_read(old(r).data@, old(r).ok, old(r).cursor as int),
{
    let x0 = r_vec2(r);
    let x1 = read_u32(r);
    let x2 = read_u32(r);
    let x3 = r_vec2(r);
    let x4 = r_rot(r);
    BodyState { linear_velocity: x0, angular_velocity: x1, flags: x2, delta_position: x3, delta_rotation: x4 }
}

/// A body state reads back unchanged from its image.
#[verifier::spinoff_prover]
pub proof fn law_body_state_round_trip(v: BodyState, d: Seq<u8>, c: int)
    requires
        0 <= c,
        c + 32 <= d.len(),
        d.subrange(c, c + 32) == body_state_image(v),
    ensures
        body_state_read(d, true, c) == (v, (true, c + 32)),
{
    lemma_split(d, c, vec2_bytes(v.linear_velocity) + u32_bytes(v.angular_velocity) + u32_bytes(v.flags) + vec2_bytes(v.delta_position), rot_bytes(v.delta_rotation));
    lemma_split(d, c, vec2_bytes(v.linear_velocity) + u32_bytes(v.angular_velocity) + u32_bytes(v.flags), vec2_bytes(v.delta_position));
    lemma_split(d, c, vec2_bytes(v.linear_velocity) + u32_bytes(v.angular_velocity), u32_bytes(v.flags));
    lemma_split(d, c, vec2_bytes(v.linear_velocity), u32_bytes(v.angular_velocity));
    law_vec2_round_trip(v.linear_velocity, d, c + 0);
    lemma_u32_read_back(v.angular_velocity, d, c + 8);
    lemma_u32_read_back(v.flags, d, c + 12);
    law_vec2_round_trip(v.delta_position, d, c + 16);
    law_rot_round_trip(v.delta_rotation, d, c + 24);
}

/// One end of a contact in a body's contact list: the body and its neighbouring contact keys.
#[derive(Clone, Copy, Debug, PartialEq, Eq, Structural)]
pub struct ContactEdge {
    pub body_id: i32,
    pub prev_key: i32,
    pub next_key: i32,
}

/// Image form of a contact edge: its fields in order, 12 bytes.
pub open spec fn contact_edge_image(v: ContactEdge) -> Seq<u8> {
    i32_bytes(v.body_id) + i32_bytes(v.prev_key) + i32_bytes(v.next_key)
}

/// A contact edge read at `(ok, c)`, its fields in order.
pub open spec fn contact_edge_read(d: Seq<u8>, ok: bool, c: int) -> (ContactEdge, (bool, int)) {
    let (x0, s1) = i32_read(d, ok, c);
    let (x1, s2) = i32_read(d, s1.0, s1.1);
    let (x2, s3) = i32_read(d, s2.0, s2.1);
    (ContactEdge { body_id: x0, prev_key: x1, next_key: x2 }, s3)
}

/// Append the image of a contact edge.
pub fn ser_contact_edge(buf: &mut Vec<u8>, v: &ContactEdge)
    ensures
        final(buf)@ == old(buf)@ + contact_edge_image(*v),
{
    ser_contact_edge_into(buf, *v);
}

fn ser_contact_edge_into(buf: &mut Vec<u8>, v: ContactEdge)
    ensures
        final(buf)@ == old(buf)@ + contact_edge_image(v),
{
    rec_w_i32(buf, v.body_id);
    rec_w_i32(buf, v.prev_key);
    rec_w_i32(buf, v.next_key);
    assert(buf@ =~= old(buf)@ + contact_edge_image(v));
}

/// Read a contact edge from its image.
pub fn des_contact_edge(r: &mut SnapReader) -> (v: ContactEdge)
    ensures
        final(r).data@ == old(r).data@,
        (v, (final(r).ok, final(r).cursor as int)) == contact_edge_read(old(r).data@, old(r).ok, old(r).cursor as int),
{
    let x0 = read_i32(r);
    let x1 = read_i32(r);
    let x2 = read_i32(r);
    ContactEdge { body_id: x0, prev_key: x1, next_key: x2 }
}

/// A contact edge reads back unchanged from its image.
#[verifier::spinoff_prover]
pub proof fn law_contact_edge_round_trip(v: ContactEdge, d: Seq<u8>, c: int)
    requires
        0 <= c,
        c + 12 <= d.len(),
        d.subrange(c, c + 12) == contact_edge_image(v),
    ensures
        contact_edge_read(d, true, c) == (v, (true, c + 12)),
{
    lemma_split(d, c, i32_bytes(v.body_id) + i32_bytes(v.prev_key), i32_bytes(v.next_key));
    lemma_split(d, c, i32_bytes(v.body_id), i32_bytes(v.prev_key));
    lemma_i32_read_back(v.body_id, d, c + 0);
    lemma_i32_read_back(v.prev_key, d, c + 4);
    lemma_i32_read_back(v.next_key, d, c + 8);
}

/// A contact between two shapes, as the world's contact table keeps it.
#[derive(Clone, Copy, Debug)]
pub struct Contact {
    pub edges: [ContactEdge; 2],
    pub island_id: i32,
    pub island_index: i32,
    pub set_index: i32,
    pub color_index: i32,
    pub local_index: i32,
    pub shape_id_a: i32,
    pub shape_id_b: i32,
    pub contact_id: i32,
    pub flags: u32,
    pub generation: u32,
}

/// Image form of a contact: its fields in order, 64 bytes.
pub open spec fn contact_image(v: Contact) -> Seq<u8> {
    contact_edge_image(v.edges[0]) + contact_edge_image(v.edges[1]) + i32_bytes(v.island_id) + i32_bytes(v.island_index) + i32_bytes(v.set_index) + i32_bytes(v.color_index) + i32_bytes(v.local_index) + i32_bytes(v.shape_id_a) + i32_bytes(v.shape_id_b) + i32_bytes(v.contact_id) + u32_bytes(v.flags) + u32_bytes(v.generation)
}

/// A contact read at `(ok, c)`, its fields in order.
pub open spec fn contact_read(d: Seq<u8>, ok: bool, c: int) -> (Contact, (bool, int)) {
    let (x0, s1) = contact_edge_read(d, ok, c);
    let (x1, s2) = contact_edge_read(d, s1.0, s1.1);
    let (x2, s3) = i32_read(d, s2.0, s2.1);
    let (x3, s4) = i32_read(d, s3.0, s3.1);
    let (x4, s5) = i32_read(d, s4.0, s4.1);
    let (x5, s6) = i32_read(d, s5.0, s5.1);
    let (x6, s7) = i32_read(d, s6.0, s6.1);
    let (x7, s8) = i32_read(d, s7.0, s7.1);
    let (x8, s9) = i32_read(d, s8.0, s8.1);
    let (x9, s10) = i32_read(d, s9.0, s9.1);
    let (x10, s11) = u32_read(d, s10.0, s10.1);
    let (x11, s12) = u32_read(d, s11.0, s11.1);
    (Contact { edges: [x0, x1], island_id: x2, island_index: x3, set_index: x4, color_index: x5, local_index: x6, shape_id_a: x7, shape_id_b: x8, contact_id: x9, flags: x10, generation: x11 }, s12)
}

/// Append the image of a contact.
pub fn ser_contact(buf: &mut Vec<u8>, v: &Contact)
    ensures
        final(buf)@ == old(buf)@ + contact_image(*v),
{
    ser_contact_into(buf, *v);
}

fn ser_contact_into(buf: &mut Vec<u8>, v: Contact)
    ensures
        final(buf)@ == old(buf)@ + contact_image(v),
{
    ser_contact_edge_into(buf, v.edges[0]);
    ser_contact_edge_into(buf, v.edges[1]);
    rec_w_i32(buf, v.island_id);
    rec_w_i32(buf, v.island_index);
    rec_w_i32(buf, v.set_index);
    rec_w_i32(buf, v.color_index);
    rec_w_i32(buf, v.local_index);
    rec_w_i32(buf, v.shape_id_a);
    rec_w_i32(buf, v.shape_id_b);
    rec_w_i32(buf, v.contact_id);
    rec_w_u32(buf, v.flags);
    rec_w_u32(buf, v.generation);
    assert(buf@ =~= old(buf)@ + contact_image(v));
}

/// Read a contact from its image.
pub fn des_contact(r: &mut SnapReader) -> (v: Contact)
    ensures
        final(r).data@ == old(r).data@,
        (v, (final(r).ok, final(r).cursor as int)) == contact_read(old(r).data@, old(r).ok, old(r).cursor as int),
{
    let x0 = des_contact_edge(r);
    let x1 = des_contact_edge(r);
    let x2 = read_i32(r);
    let x3 = read_i32(r);
    let x4 = read_i32(r);
    let x5 = read_i32(r);
    let x6 = read_i32(r);
    let x7 = read_i32(r);
    let x8 = read_i32(r);
    let x9 = read_i32(r);
    let x10 = read_u32(r);
    let x11 = read_u32(r);
    Contact { edges: [x0, x1], island_id: x2, island_index: x3, set_index: x4, color_index: x5, local_index: x6, shape_id_a: x7, shape_id_b: x8, contact_id: x9, flags: x10, generation: x11 }
}

/// A contact reads back unchanged from its image.
#[verifier::spinoff_prover]
pub proof fn law_contact_round_trip(v: Contact, d: Seq<u8>, c: int)
    requires
        0 <= c,
        c + 64 <= d.len(),
        d.subrange(c, c + 64) == contact_image(v),
    ensures
        contact_read(d, true, c) == (v, (true, c + 64)),
{
    lemma_split(d, c, contact_edge_image(v.edges[0]) + contact_edge_image(v.edges[1]) + i32_bytes(v.island_id) + i32_bytes(v.island_index) + i32_bytes(v.set_index) + i32_bytes(v.color_index) + i32_bytes(v.local_index) + i32_bytes(v.shape_id_a) + i32_bytes(v.shape_id_b) + i32_bytes(v.contact_id) + u32_bytes(v.flags), u32_bytes(v.generation));
    lemma_split(d, c, contact_edge_image(v.edges[0]) + contact_edge_image(v.edges[1]) + i32_bytes(v.island_id) + i32_bytes(v.island_index) + i32_bytes(v.set_index) + i32_bytes(v.color_index) + i32_bytes(v.local_index) + i32_bytes(v.shape_id_a) + i32_bytes(v.shape_id_b) + i32_bytes(v.contact_id), u32_bytes(v.flags));
    lemma_split(d, c, contact_edge_image(v.edges[0]) + contact_edge_image(v.edges[1]) + i32_bytes(v.island_id) + i32_bytes(v.island_index) + i32_bytes(v.set_index) + i32_bytes(v.color_index) + i32_bytes(v.local_index) + i32_bytes(v.shape_id_a) + i32_bytes(v.shape_id_b), i32_bytes(v.contact_id));
    lemma_split(d, c, contact_edge_image(v.edges[0]) + contact_edge_image(v.edges[1]) + i32_bytes(v.island_id) + i32_bytes(v.island_index) + i32_bytes(v.set_index) + i32_bytes(v.color_index) + i32_bytes(v.local_index) + i32_bytes(v.shape_id_a), i32_bytes(v.shape_id_b));
    lemma_split(d, c, contact_edge_image(v.edges[0]) + contact_edge_image(v.edges[1]) + i32_bytes(v.island_id) + i32_bytes(v.island_index) + i32_bytes(v.set_index) + i32_bytes(v.color_index) + i32_bytes(v.local_index), i32_bytes(v.shape_id_a));
    lemma_split(d, c, contact_edge_image(v.edges[0]) + contact_edge_image(v.edges[1]) + i32_bytes(v.island_id) + i32_bytes(v.island_index) + i32_bytes(v.set_index) + i32_bytes(v.color_index), i32_bytes(v.local_index));
    lemma_split(d, c, contact_edge_image(v.edges[0]) + contact_edge_image(v.edges[1]) + i32_bytes(v.island_id) + i32_bytes(v.island_index) + i32_bytes(v.set_index), i32_bytes(v.color_index));
    lemma_split(d, c, contact_edge_image(v.edges[0]) + contact_edge_image(v.edges[1]) + i32_bytes(v.island_id) + i32_bytes(v.island_index), i32_bytes(v.set_index));
    lemma_split(d, c, contact_edge_image(v.edges[0]) + contact_edge_image(v.edges[1]) + i32_bytes(v.island_id), i32_bytes(v.island_index));
    lemma_split(d, c, contact_edge_image(v.edges[0]) + contact_edge_image(v.edges[1]), i32_bytes(v.island_id));
    lemma_split(d, c, contact_edge_image(v.edges[0]), contact_edge_image(v.edges[1]));
    law_contact_edge_round_trip(v.edges[0], d, c + 0);
    law_contact_edge_round_trip(v.edges[1], d, c + 12);
    lemma_i32_read_back(v.island_id, d, c + 24);
    lemma_i32_read_back(v.island_index, d, c + 28);
    lemma_i32_read_back(v.set_index, d, c + 32);
    lemma_i32_read_back(v.color_index, d, c + 36);
    lemma_i32_read_back(v.local_index, d, c + 40);
    lemma_i32_read_back(v.shape_id_a, d, c + 44);
    lemma_i32_read_back(v.shape_id_b, d, c + 48);
    lemma_i32_read_back(v.contact_id, d, c + 52);
    lemma_u32_read_back(v.flags, d, c + 56);
    lemma_u32_read_back(v.generation, d, c + 60);
    let q = contact_read(d, true, c).0;
    assert(q.edges =~= v.edges);
}

/// A contact point of a manifold: anchors, separations, impulses, feature id, persistence.
#[derive(Clone, Copy, Debug, PartialEq, Eq, Structural)]
pub struct ManifoldPoint {
    pub anchor_a: Vec2,
    pub anchor_b: Vec2,
    pub separation: u32,
    pub base_separation: u32,
    pub normal_impulse: u32,
    pub tangent_impulse: u32,
    pub total_normal_impulse: u32,
    pub normal_velocity: u32,
    pub id: u16,
    pub persisted: bool,
}

/// Image form of a manifold point: its fields in order, 43 bytes.
pub open spec fn manifold_point_image(v: ManifoldPoint) -> Seq<u8> {
    vec2_bytes(v.anchor_a) + vec2_bytes(v.anchor_b) + u32_bytes(v.separation) + u32_bytes(v.base_separation) + u32_bytes(v.normal_impulse) + u32_bytes(v.tangent_impulse) + u32_bytes(v.total_normal_impulse) + u32_bytes(v.normal_velocity) + u16_bytes(v.id) + seq![bool_byte(v.persisted)]
}

/// A manifold point read at `(ok, c)`, its fields in order.
pub open spec fn manifold_point_read(d: Seq<u8>, ok: bool, c: int) -> (ManifoldPoint, (bool, int)) {
    let (x0, s1) = vec2_read(d, ok, c);
    let (x1, s2) = vec2_read(d, s1.0, s1.1);
    let (x2, s3) = u32_read(d, s2.0, s2.1);
    let (x3, s4) = u32_read(d, s3.0, s3.1);
    let (x4, s5) = u32_read(d, s4.0, s4.1);
    let (x5, s6) = u32_read(d, s5.0, s5.1);
    let (x6, s7) = u32_read(d, s6.0, s6.1);
    let (x7, s8) = u32_read(d, s7.0, s7.1);
    let (x8, s9) = u16_read(d, s8.0, s8.1);
    let (x9, s10) = bool_read(d, s9.0, s9.1);
    (ManifoldPoint { anchor_a: x0, anchor_b: x1, separation: x2, base_separation: x3, normal_impulse: x4, tangent_impulse: x5, total_normal_impulse: x6, normal_velocity: x7, id: x8, persisted: x9 }, s10)
}

/// Append the image of a manifold point.
pub fn ser_manifold_point(buf: &mut Vec<u8>, v: &ManifoldPoint)
    ensures
        final(buf)@ == old(buf)@ + manifold_point_image(*v),
{
    ser_manifold_point_into(buf, *v);
}

fn ser_manifold_point_into(buf: &mut Vec<u8>, v: ManifoldPoint)
    ensures
        final(buf)@ == old(buf)@ + manifold_point_image(v),
{
    rec_w_vec2(buf, v.anchor_a);
    rec_w_vec2(buf, v.anchor_b);
    rec_w_u32(buf, v.separation);
    rec_w_u32(buf, v.base_separation);
    rec_w_u32(buf, v.normal_impulse);
    rec_w_u32(buf, v.tangent_impulse);
    rec_w_u32(buf, v.total_normal_impulse);
    rec_w_u32(buf, v.normal_velocity);
    rec_w_u16(buf, v.id);
    rec_w_bool(buf, v.persisted);
    assert(buf@ =~= old(buf)@ + manifold_point_image(v));
}

/// Read a manifold point from its image.
pub fn des_manifold_point(r: &mut SnapReader) -> (v: ManifoldPoint)
    ensures
        final(r).data@ == old(r).data@,
        (v, (final(r).ok, final(r).cursor as int)) == manifold_point_read(old(r).data@, old(r).ok, old(r).cursor as int),
{
    let x0 = r_vec2(r);
    let x1 = r_vec2(r);
    let x2 = read_u32(r);
    let x3 = read_u32(r);
    let x4 = read_u32(r);
    let x5 = read_u32(r);
    let x6 = read_u32(r);
    let x7 = read_u32(r);
    let x8 = read_u16(r);
    let x9 = read_bool(r);
    ManifoldPoint { anchor_a: x0, anchor_b: x1, separation: x2, base_separation: x3, normal_impulse: x4, tangent_impulse: x5, total_normal_impulse: x6, normal_velocity: x7, id: x8, persisted: x9 }
}

/// A manifold point reads back unchanged from its image.
#[verifier::spinoff_prover]
pub proof fn law_manifold_point_round_trip(v: ManifoldPoint, d: Seq<u8>, c: int)
    requires
        0 <= c,
        c + 43 <= d.len(),
        d.subrange(c, c + 43) == manifold_point_image(v),
    ensures
        manifold_point_read(d, true, c) == (v, (true, c + 43)),
{
    lemma_split(d, c, vec2_bytes(v.anchor_a) + vec2_bytes(v.anchor_b) + u32_bytes(v.separation) + u32_bytes(v.base_separation) + u32_bytes(v.normal_impulse) + u32_bytes(v.tangent_impulse) + u32_bytes(v.total_normal_impulse) + u32_bytes(v.normal_velocity) + u16_bytes(v.id), seq![bool_byte(v.persisted)]);
    lemma_split(d, c, vec2_bytes(v.anchor_a) + vec2_bytes(v.anchor_b) + u32_bytes(v.separation) + u32_bytes(v.base_separation) + u32_bytes(v.normal_impulse) + u32_bytes(v.tangent_impulse) + u32_bytes(v.total_normal_impulse) + u32_bytes(v.normal_velocity), u16_bytes(v.id));
    lemma_split(d, c, vec2_bytes(v.anchor_a) + vec2_bytes(v.anchor_b) + u32_bytes(v.separation) + u32_bytes(v.base_separation) + u32_bytes(v.normal_impulse) + u32_bytes(v.tangent_impulse) + u32_bytes(v.total_normal_impulse), u32_bytes(v.normal_velocity));
    lemma_split(d, c, vec2_bytes(v.anchor_a) + vec2_bytes(v.anchor_b) + u32_bytes(v.separation) + u32_bytes(v.base_separation) + u32_bytes(v.normal_impulse) + u32_bytes(v.tangent_impulse), u32_bytes(v.total_normal_impulse));
    lemma_split(d, c, vec2_bytes(v.anchor_a) + vec2_bytes(v.anchor_b) + u32_bytes(v.separation) + u32_bytes(v.base_separation) + u32_bytes(v.normal_impulse), u32_bytes(v.tangent_impulse));
    lemma_split(d, c, vec2_bytes(v.anchor_a) + vec2_bytes(v.anchor_b) + u32_bytes(v.separation) + u32_bytes(v.base_separation), u32_bytes(v.normal_impulse));
    lemma_split(d, c, vec2_bytes(v.anchor_a) + vec2_bytes(v.anchor_b) + u32_bytes(v.separation), u32_bytes(v.base_separation));
    lemma_split(d, c, vec2_bytes(v.anchor_a) + vec2_bytes(v.anchor_b), u32_bytes(v.separation));
    lemma_split(d, c, vec2_bytes(v.anchor_a), vec2_bytes(v.anchor_b));
    law_vec2_round_trip(v.anchor_a, d, c + 0);
    law_vec2_round_trip(v.anchor_b, d, c + 8);
    lemma_u32_read_back(v.separation, d, c + 16);
    lemma_u32_read_back(v.base_separation, d, c + 20);
    lemma_u32_read_back(v.normal_impulse, d, c + 24);
    lemma_u32_read_back(v.tangent_impulse, d, c + 28);
    lemma_u32_read_back(v.total_normal_impulse, d, c + 32);
    lemma_u32_read_back(v.normal_velocity, d, c + 36);
    lemma_u16_read_back(v.id, d, c + 40);
    lemma_bool_read_back(v.persisted, d, c + 42);
}

/// A contact manifold: normal, rolling impulse, both point slots and the point count.
#[derive(Clone, Copy, Debug)]
pub struct Manifold {
    pub normal: Vec2,
    pub rolling_impulse: u32,
    pub points: [ManifoldPoint; 2],
    pub point_count: i32,
}

/// Image form of a manifold: its fields in order, 102 bytes.
pub open spec fn manifold_image(v: Manifold) -> Seq<u8> {
    vec2_bytes(v.normal) + u32_bytes(v.rolling_impulse) + manifold_point_image(v.points[0]) + manifold_point_image(v.points[1]) + i32_bytes(v.point_count)
}

/// A manifold read at `(ok, c)`, its fields in order.
pub open spec fn manifold_read(d: Seq<u8>, ok: bool, c: int) -> (Manifold, (bool, int)) {
    let (x0, s1) = vec2_read(d, ok, c);
    let (x1, s2) = u32_read(d, s1.0, s1.1);
    let (x2, s3) = manifold_point_read(d, s2.0, s2.1);
    let (x3, s4) = manifold_point_read(d, s3.0, s3.1);
    let (x4, s5) = i32_read(d, s4.0, s4.1);
    (Manifold { normal: x0, rolling_impulse: x1, points: [x2, x3], point_count: x4 }, s5)
}

/// Append the image of a manifold.
pub fn ser_manifold(buf: &mut Vec<u8>, v: &Manifold)
    ensures
        final(buf)@ == old(buf)@ + manifold_image(*v),
{
    ser_manifold_into(buf, *v);
}

fn ser_manifold_into(buf: &mut Vec<u8>, v: Manifold)
    ensures
        final(buf)@ == old(buf)@ + manifold_image(v),
{
    rec_w_vec2(buf, v.normal);
    rec_w_u32(buf, v.rolling_impulse);
    ser_manifold_point_into(buf, v.points[0]);
    ser_manifold_point_into(buf, v.points[1]);
    rec_w_i32(buf, v.point_count);
    assert(buf@ =~= old(buf)@ + manifold_image(v));
}

/// Read a manifold from its image.
pub fn des_manifold(r: &mut SnapReader) -> (v: Manifold)
    ensures
        final(r).data@ == old(r).data@,
        (v, (final(r).ok, final(r).cursor as int)) == manifold_read(old(r).data@, old(r).ok, old(r).cursor as int),
{
    let x0 = r_vec2(r);
    let x1 = read_u32(r);
    let x2 = des_manifold_point(r);
    let x3 = des_manifold_point(r);
    let x4 = read_i32(r);
    Manifold { normal: x0, rolling_impulse: x1, points: [x2, x3], point_count: x4 }
}

/// A manifold reads back unchanged from its image.
#[verifier::spinoff_prover]
pub proof fn law_manifold_round_trip(v: Manifold, d: Seq<u8>, c: int)
    requires
        0 <= c,
        c + 102 <= d.len(),
        d.subrange(c, c + 102) == manifold_image(v),
    ensures
        manifold_read(d, true, c) == (v, (true, c + 102)),
{
    lemma_split(d, c, vec2_bytes(v.normal) + u32_bytes(v.rolling_impulse) + manifold_point_image(v.points[0]) + manifold_point_image(v.points[1]), i32_bytes(v.point_count));
    lemma_split(d, c, vec2_bytes(v.normal) + u32_bytes(v.rolling_impulse) + manifold_point_image(v.points[0]), manifold_point_image(v.points[1]));
    lemma_split(d, c, vec2_bytes(v.normal) + u32_bytes(v.rolling_impulse), manifold_point_image(v.points[0]));
    lemma_split(d, c, vec2_bytes(v.normal), u32_bytes(v.rolling_impulse));
    law_vec2_round_trip(v.normal, d, c + 0);
    lemma_u32_read_back(v.rolling_impulse, d, c + 8);
    law_manifold_point_round_trip(v.points[0], d, c + 12);
    law_manifold_point_round_trip(v.points[1], d, c + 55);
    lemma_i32_read_back(v.point_count, d, c + 98);
    let q = manifold_read(d, true, c).0;
    assert(q.points =~= v.points);
}

/// The cached simplex of a distance query: its vertex count and vertex indices.
#[derive(Clone, Copy, Debug)]
pub struct SimplexCache {
    pub count: u16,
    pub index_a: [u8; 3],
    pub index_b: [u8; 3],
}

/// Image form of a simplex cache: its fields in order, 8 bytes.
pub open spec fn simplex_cache_image(v: SimplexCache) -> Seq<u8> {
    u16_bytes(v.count) + seq![v.index_a[0]] + seq![v.index_a[1]] + seq![v.index_a[2]] + seq![v.index_b[0]] + seq![v.index_b[1]] + seq![v.index_b[2]]
}

/// A simplex cache read at `(ok, c)`, its fields in order.
pub open spec fn simplex_cache_read(d: Seq<u8>, ok: bool, c: int) -> (SimplexCache, (bool, int)) {
    let (x0, s1) = u16_read(d, ok, c);
    let (x1, s2) = u8_read(d, s1.0, s1.1);
    let (x2, s3) = u8_read(d, s2.0, s2.1);
    let (x3, s4) = u8_read(d, s3.0, s3.1);
    let (x4, s5) = u8_read(d, s4.0, s4.1);
    let (x5, s6) = u8_read(d, s5.0, s5.1);
    let (x6, s7) = u8_read(d, s6.0, s6.1);
    (SimplexCache { count: x0, index_a: [x1, x2, x3], index_b: [x4, x5, x6] }, s7)
}

/// Append the image of a simplex cache.
pub fn ser_simplex_cache(buf: &mut Vec<u8>, v: &SimplexCache)
    ensures
        final(buf)@ == old(buf)@ + simplex_cache_image(*v),
{
    ser_simplex_cache_into(buf, *v);
}

fn ser_simplex_cache_into(buf: &mut Vec<u8>, v: SimplexCache)
    ensures
        final(buf)@ == old(buf)@ + simplex_cache_image(v),
{
    rec_w_u16(buf, v.count);
    rec_w_u8(buf, v.index_a[0]);
    rec_w_u8(buf, v.index_a[1]);
    rec_w_u8(buf, v.index_a[2]);
    rec_w_u8(buf, v.index_b[0]);
    rec_w_u8(buf, v.index_b[1]);
    rec_w_u8(buf, v.index_b[2]);
    assert(buf@ =~= old(buf)@ + simplex_cache_image(v));
}

/// Read a simplex cache from its image.
pub fn des_simplex_cache(r: &mut SnapReader) -> (v: SimplexCache)
    ensures
        final(r).data@ == old(r).data@,
        (v, (final(r).ok, final(r).cursor as int)) == simplex_cache_read(old(r).data@, old(r).ok, old(r).cursor as int),
{
    let x0 = read_u16(r);
    let x1 = read_u8(r);
    let x2 = read_u8(r);
    let x3 = read_u8(r);
    let x4 = read_u8(r);
    let x5 = read_u8(r);
    let x6 = read_u8(r);
    SimplexCache { count: x0, index_a: [x1, x2, x3], index_b: [x4, x5, x6] }
}

/// A simplex cache reads back unchanged from its image.
#[verifier::spinoff_prover]
pub proof fn law_simplex_cache_round_trip(v: SimplexCache, d: Seq<u8>, c: int)
    requires
        0 <= c,
        c + 8 <= d.len(),
        d.subrange(c, c + 8) == simplex_cache_image(v),
    ensures
        simplex_cache_read(d, true, c) == (v, (true, c + 8)),
{
    lemma_split(d, c, u16_bytes(v.count) + seq![v.index_a[0]] + seq![v.index_a[1]] + seq![v.index_a[2]] + seq![v.index_b[0]] + seq![v.index_b[1]], seq![v.index_b[2]]);
    lemma_split(d, c, u16_bytes(v.count) + seq![v.index_a[0]] + seq![v.index_a[1]] + seq![v.index_a[2]] + seq![v.index_b[0]], seq![v.index_b[1]]);
    lemma_split(d, c, u16_bytes(v.count) + seq![v.index_a[0]] + seq![v.index_a[1]] + seq![v.index_a[2]], seq![v.index_b[0]]);
    lemma_split(d, c, u16_bytes(v.count) + seq![v.index_a[0]] + seq![v.index_a[1]], seq![v.index_a[2]]);
    lemma_split(d, c, u16_bytes(v.count) + seq![v.index_a[0]], seq![v.index_a[1]]);
    lemma_split(d, c, u16_bytes(v.count), seq![v.index_a[0]]);
    lemma_u16_read_back(v.count, d, c + 0);
    lemma_u8_read_back(v.index_a[0], d, c + 2);
    lemma_u8_read_back(v.index_a[1], d, c + 3);
    lemma_u8_read_back(v.index_a[2], d, c + 4);
    lemma_u8_read_back(v.index_b[0], d, c + 5);
    lemma_u8_read_back(v.index_b[1], d, c + 6);
    lemma_u8_read_back(v.index_b[2], d, c + 7);
    let q = simplex_cache_read(d, true, c).0;
    assert(q.index_a =~= v.index_a);
    assert(q.index_b =~= v.index_b);
}

/// The solver state of a contact: bodies, cached poses, mass, manifold, material, flags and simplex cache.
#[derive(Clone, Copy, Debug)]
pub struct ContactSim {
    pub contact_id: i32,
    pub cached_rotation_a: Rot,
    pub cached_rotation_b: Rot,
    pub cached_relative_pose: Transform,
    pub body_id_a: i32,
    pub body_id_b: i32,
    pub body_sim_index_a: i32,
    pub body_sim_index_b: i32,
    pub shape_id_a: i32,
    pub shape_id_b: i32,
    pub inv_mass_a: u32,
    pub inv_i_a: u32,
    pub inv_mass_b: u32,
    pub inv_i_b: u32,
    pub manifold: Manifold,
    pub friction: u32,
    pub restitution: u32,
    pub rolling_resistance: u32,
    pub tangent_speed: u32,
    pub sim_flags: u32,
    pub cache: SimplexCache,
}

/// Image form of a contact sim: its fields in order, 206 bytes.
pub open spec fn contact_sim_image(v: ContactSim) -> Seq<u8> {
    i32_bytes(v.contact_id) + rot_bytes(v.cached_rotation_a) + rot_bytes(v.cached_rotation_b) + xf_bytes(v.cached_relative_pose) + i32_bytes(v.body_id_a) + i32_bytes(v.body_id_b) + i32_bytes(v.body_sim_index_a) + i32_bytes(v.body_sim_index_b) + i32_bytes(v.shape_id_a) + i32_bytes(v.shape_id_b) + u32_bytes(v.inv_mass_a) + u32_bytes(v.inv_i_a) + u32_bytes(v.inv_mass_b) + u32_bytes(v.inv_i_b) + manifold_image(v.manifold) + u32_bytes(v.friction) + u32_bytes(v.restitution) + u32_bytes(v.rolling_resistance) + u32_bytes(v.tangent_speed) + u32_bytes(v.sim_flags) + simplex_cache_image(v.cache)
}

/// A contact sim read at `(ok, c)`, its fields in order.
pub open spec fn contact_sim_read(d: Seq<u8>, ok: bool, c: int) -> (ContactSim, (bool, int)) {
    let (x0, s1) = i32_read(d, ok, c);
    let (x1, s2) = rot_read(d, s1.0, s1.1);
    let (x2, s3) = rot_read(d, s2.0, s2.1);
    let (x3, s4) = xf_read(d, s3.0, s3.1);
    let (x4, s5) = i32_read(d, s4.0, s4.1);
    let (x5, s6) = i32_read(d, s5.0, s5.1);
    let (x6, s7) = i32_read(d, s6.0, s6.1);
    let (x7, s8) = i32_read(d, s7.0, s7.1);
    let (x8, s9) = i32_read(d, s8.0, s8.1);
    let (x9, s10) = i32_read(d, s9.0, s9.1);
    let (x10, s11) = u32_read(d, s10.0, s10.1);
    let (x11, s12) = u32_read(d, s11.0, s11.1);
    let (x12, s13) = u32_read(d, s12.0, s12.1);
    let (x13, s14) = u32_read(d, s13.0, s13.1);
    let (x14, s15) = manifold_read(d, s14.0, s14.1);
    let (x15, s16) = u32_read(d, s15.0, s15.1);
    let (x16, s17) = u32_read(d, s16.0, s16.1);
    let (x17, s18) = u32_read(d, s17.0, s17.1);
    let (x18, s19) = u32_read(d, s18.0, s18.1);
    let (x19, s20) = u32_read(d, s19.0, s19.1);
    let (x20, s21) = simplex_cache_read(d, s20.0, s20.1);
    (ContactSim { contact_id: x0, cached_rotation_a: x1, cached_rotation_b: x2, cached_relative_pose: x3, body_id_a: x4, body_id_b: x5, body_sim_index_a: x6, body_sim_index_b: x7, shape_id_a: x8, shape_id_b: x9, inv_mass_a: x10, inv_i_a: x11, inv_mass_b: x12, inv_i_b: x13, manifold: x14, friction: x15, restitution: x16, rolling_resistance: x17, tangent_speed: x18, sim_flags: x19, cache: x20 }, s21)
}

/// Append the image of a contact sim.
pub fn ser_contact_sim(buf: &mut Vec<u8>, v: &ContactSim)
    ensures
        final(buf)@ == old(buf)@ + contact_sim_image(*v),
{
    ser_contact_sim_into(buf, *v);
}

fn ser_contact_sim_into(buf: &mut Vec<u8>, v: ContactSim)
    ensures
        final(buf)@ == old(buf)@ + contact_sim_image(v),
{
    rec_w_i32(buf, v.contact_id);
    rec_w_rot(buf, v.cached_rotation_a);
    rec_w_rot(buf, v.cached_rotation_b);
    rec_w_xf(buf, v.cached_relative_pose);
    rec_w_i32(buf, v.body_id_a);
    rec_w_i32(buf, v.body_id_b);
    rec_w_i32(buf, v.body_sim_index_a);
    rec_w_i32(buf, v.body_sim_index_b);
    rec_w_i32(buf, v.shape_id_a);
    rec_w_i32(buf, v.shape_id_b);
    rec_w_u32(buf, v.inv_mass_a);
    rec_w_u32(buf, v.inv_i_a);
    rec_w_u32(buf, v.inv_mass_b);
    rec_w_u32(buf, v.inv_i_b);
    ser_manifold_into(buf, v.manifold);
    rec_w_u32(buf, v.friction);
    rec_w_u32(buf, v.restitution);
    rec_w_u32(buf, v.rolling_resistance);
    rec_w_u32(buf, v.tangent_speed);
    rec_w_u32(buf, v.sim_flags);
    ser_simplex_cache_into(buf, v.cache);
    assert(buf@ =~= old(buf)@ + contact_sim_image(v));
}

/// Read a contact sim from its image.
pub fn des_contact_sim(r: &mut SnapReader) -> (v: ContactSim)
    ensures
        final(r).data@ == old(r).data@,
        (v, (final(r).ok, final(r).cursor as int)) == contact_sim_read(old(r).data@, old(r).ok, old(r).cursor as int),
{
    let x0 = read_i32(r);
    let x1 = r_rot(r);
    let x2 = r_rot(r);
    let x3 = r_xf(r);
    let x4 = read_i32(r);
    let x5 = read_i32(r);
    let x6 = read_i32(r);
    let x7 = read_i32(r);
    let x8 = read_i32(r);
    let x9 = read_i32(r);
    let x10 = read_u32(r);
    let x11 = read_u32(r);
    let x12 = read_u32(r);
    let x13 = read_u32(r);
    let x14 = des_manifold(r);
    let x15 = read_u32(r);
    let x16 = read_u32(r);
    let x17 = read_u32(r);
    let x18 = read_u32(r);
    let x19 = read_u32(r);
    let x20 = des_simplex_cache(r);
    ContactSim { contact_id: x0, cached_rotation_a: x1, cached_rotation_b: x2, cached_relative_pose: x3, body_id_a: x4, body_id_b: x5, body_sim_index_a: x6, body_sim_index_b: x7, shape_id_a: x8, shape_id_b: x9, inv_mass_a: x10, inv_i_a: x11, inv_mass_b: x12, inv_i_b: x13, manifold: x14, friction: x15, restitution: x16, rolling_resistance: x17, tangent_speed: x18, sim_flags: x19, cache: x20 }
}

/// A contact sim reads back unchanged from its image.
#[verifier::spinoff_prover]
pub proof fn law_contact_sim_round_trip(v: ContactSim, d: Seq<u8>, c: int)
    requires
        0 <= c,
        c + 206 <= d.len(),
        d.subrange(c, c + 206) == contact_sim_image(v),
    ensures
        contact_sim_read(d, true, c) == (v, (true, c + 206)),
{
    lemma_split(d, c, i32_bytes(v.contact_id) + rot_bytes(v.cached_rotation_a) + rot_bytes(v.cached_rotation_b) + xf_bytes(v.cached_relative_pose) + i32_bytes(v.body_id_a) + i32_bytes(v.body_id_b) + i32_bytes(v.body_sim_index_a) + i32_bytes(v.body_sim_index_b) + i32_bytes(v.shape_id_a) + i32_bytes(v.shape_id_b) + u32_bytes(v.inv_mass_a) + u32_bytes(v.inv_i_a) + u32_bytes(v.inv_mass_b) + u32_bytes(v.inv_i_b) + manifold_image(v.manifold) + u32_bytes(v.friction) + u32_bytes(v.restitution) + u32_bytes(v.rolling_resistance) + u32_bytes(v.tangent_speed) + u32_bytes(v.sim_flags), simplex_cache_image(v.cache));
    lemma_split(d, c, i32_bytes(v.contact_id) + rot_bytes(v.cached_rotation_a) + rot_bytes(v.cached_rotation_b) + xf_bytes(v.cached_relative_pose) + i32_bytes(v.body_id_a) + i32_bytes(v.body_id_b) + i32_bytes(v.body_sim_index_a) + i32_bytes(v.body_sim_index_b) + i32_bytes(v.shape_id_a) + i32_bytes(v.shape_id_b) + u32_bytes(v.inv_mass_a) + u32_bytes(v.inv_i_a) + u32_bytes(v.inv_mass_b) + u32_bytes(v.inv_i_b) + manifold_image(v.manifold) + u32_bytes(v.friction) + u32_bytes(v.restitution) + u32_bytes(v.rolling_resistance) + u32_bytes(v.tangent_speed), u32_bytes(v.sim_flags));
    lemma_split(d, c, i32_bytes(v.contact_id) + rot_bytes(v.cached_rotation_a) + rot_bytes(v.cached_rotation_b) + xf_bytes(v.cached_relative_pose) + i32_bytes(v.body_id_a) + i32_bytes(v.body_id_b) + i32_bytes(v.body_sim_index_a) + i32_bytes(v.body_sim_index_b) + i32_bytes(v.shape_id_a) + i32_bytes(v.shape_id_b) + u32_bytes(v.inv_mass_a) + u32_bytes(v.inv_i_a) + u32_bytes(v.inv_mass_b) + u32_bytes(v.inv_i_b) + manifold_image(v.manifold) + u32_bytes(v.friction) + u32_bytes(v.restitution) + u32_bytes(v.rolling_resistance), u32_bytes(v.tangent_speed));
    lemma_split(d, c, i32_bytes(v.contact_id) + rot_bytes(v.cached_rotation_a) + rot_bytes(v.cached_rotation_b) + xf_bytes(v.cached_relative_pose) + i32_bytes(v.body_id_a) + i32_bytes(v.body_id_b) + i32_bytes(v.body_sim_index_a) + i32_bytes(v.body_sim_index_b) + i32_bytes(v.shape_id_a) + i32_bytes(v.shape_id_b) + u32_bytes(v.inv_mass_a) + u32_bytes(v.inv_i_a) + u32_bytes(v.inv_mass_b) + u32_bytes(v.inv_i_b) + manifold_image(v.manifold) + u32_bytes(v.friction) + u32_bytes(v.restitution), u32_bytes(v.rolling_resistance));
    lemma_split(d, c, i32_bytes(v.contact_id) + rot_bytes(v.cached_rotation_a) + rot_bytes(v.cached_rotation_b) + xf_bytes(v.cached_relative_pose) + i32_bytes(v.body_id_a) + i32_bytes(v.body_id_b) + i32_bytes(v.body_sim_index_a) + i32_bytes(v.body_sim_index_b) + i32_bytes(v.shape_id_a) + i32_bytes(v.shape_id_b) + u32_bytes(v.inv_mass_a) + u32_bytes(v.inv_i_a) + u32_bytes(v.inv_mass_b) + u32_bytes(v.inv_i_b) + manifold_image(v.manifold) + u32_bytes(v.friction), u32_bytes(v.restitution));
    lemma_split(d, c, i32_bytes(v.contact_id) + rot_bytes(v.cached_rotation_a) + rot_bytes(v.cached_rotation_b) + xf_bytes(v.cached_relative_pose) + i32_bytes(v.body_id_a) + i32_bytes(v.body_id_b) + i32_bytes(v.body_sim_index_a) + i32_bytes(v.body_sim_index_b) + i32_bytes(v.shape_id_a) + i32_bytes(v.shape_id_b) + u32_bytes(v.inv_mass_a) + u32_bytes(v.inv_i_a) + u32_bytes(v.inv_mass_b) + u32_bytes(v.inv_i_b) + manifold_image(v.manifold), u32_bytes(v.friction));
    lemma_split(d, c, i32_bytes(v.contact_id) + rot_bytes(v.cached_rotation_a) + rot_bytes(v.cached_rotation_b) + xf_bytes(v.cached_relative_pose) + i32_bytes(v.body_id_a) + i32_bytes(v.body_id_b) + i32_bytes(v.body_sim_index_a) + i32_bytes(v.body_sim_index_b) + i32_bytes(v.shape_id_a) + i32_bytes(v.shape_id_b) + u32_bytes(v.inv_mass_a) + u32_bytes(v.inv_i_a) + u32_bytes(v.inv_mass_b) + u32_bytes(v.inv_i_b), manifold_image(v.manifold));
    lemma_split(d, c, i32_bytes(v.contact_id) + rot_bytes(v.cached_rotation_a) + rot_bytes(v.cached_rotation_b) + xf_bytes(v.cached_relative_pose) + i32_bytes(v.body_id_a) + i32_bytes(v.body_id_b) + i32_bytes(v.body_sim_index_a) + i32_bytes(v.body_sim_index_b) + i32_bytes(v.shape_id_a) + i32_bytes(v.shape_id_b) + u32_bytes(v.inv_mass_a) + u32_bytes(v.inv_i_a) + u32_bytes(v.inv_mass_b), u32_bytes(v.inv_i_b));
    lemma_split(d, c, i32_bytes(v.contact_id) + rot_bytes(v.cached_rotation_a) + rot_bytes(v.cached_rotation_b) + xf_bytes(v.cached_relative_pose) + i32_bytes(v.body_id_a) + i32_bytes(v.body_id_b) + i32_bytes(v.body_sim_index_a) + i32_bytes(v.body_sim_index_b) + i32_bytes(v.shape_id_a) + i32_bytes(v.shape_id_b) + u32_bytes(v.inv_mass_a) + u32_bytes(v.inv_i_a), u32_bytes(v.inv_mass_b));
    lemma_split(d, c, i32_bytes(v.contact_id) + rot_bytes(v.cached_rotation_a) + rot_bytes(v.cached_rotation_b) + xf_bytes(v.cached_relative_pose) + i32_bytes(v.body_id_a) + i32_bytes(v.body_id_b) + i32_bytes(v.body_sim_index_a) + i32_bytes(v.body_sim_index_b) + i32_bytes(v.shape_id_a) + i32_bytes(v.shape_id_b) + u32_bytes(v.inv_mass_a), u32_bytes(v.inv_i_a));
    lemma_split(d, c, i32_bytes(v.contact_id) + rot_bytes(v.cached_rotation_a) + rot_bytes(v.cached_rotation_b) + xf_bytes(v.cached_relative_pose) + i32_bytes(v.body_id_a) + i32_bytes(v.body_id_b) + i32_bytes(v.body_sim_index_a) + i32_bytes(v.body_sim_index_b) + i32_bytes(v.shape_id_a) + i32_bytes(v.shape_id_b), u32_bytes(v.inv_mass_a));
    lemma_split(d, c, i32_bytes(v.contact_id) + rot_bytes(v.cached_rotation_a) + rot_bytes(v.cached_rotation_b) + xf_bytes(v.cached_relative_pose) + i32_bytes(v.body_id_a) + i32_bytes(v.body_id_b) + i32_bytes(v.body_sim_index_a) + i32_bytes(v.body_sim_index_b) + i32_bytes(v.shape_id_a), i32_bytes(v.shape_id_b));
    lemma_split(d, c, i32_bytes(v.contact_id) + rot_bytes(v.cached_rotation_a) + rot_bytes(v.cached_rotation_b) + xf_bytes(v.cached_relative_pose) + i32_bytes(v.body_id_a) + i32_bytes(v.body_id_b) + i32_bytes(v.body_sim_index_a) + i32_bytes(v.body_sim_index_b), i32_bytes(v.shape_id_a));
    lemma_split(d, c, i32_bytes(v.contact_id) + rot_bytes(v.cached_rotation_a) + rot_bytes(v.cached_rotation_b) + xf_bytes(v.cached_relative_pose) + i32_bytes(v.body_id_a) + i32_bytes(v.body_id_b) + i32_bytes(v.body_sim_index_a), i32_bytes(v.body_sim_index_b));
    lemma_split(d, c, i32_bytes(v.contact_id) + rot_bytes(v.cached_rotation_a) + rot_bytes(v.cached_rotation_b) + xf_bytes(v.cached_relative_pose) + i32_bytes(v.body_id_a) + i32_bytes(v.body_id_b), i32_bytes(v.body_sim_index_a));
    lemma_split(d, c, i32_bytes(v.contact_id) + rot_bytes(v.cached_rotation_a) + rot_bytes(v.cached_rotation_b) + xf_bytes(v.cached_relative_pose) + i32_bytes(v.body_id_a), i32_bytes(v.body_id_b));
    lemma_split(d, c, i32_bytes(v.contact_id) + rot_bytes(v.cached_rotation_a) + rot_bytes(v.cached_rotation_b) + xf_bytes(v.cached_relative_pose), i32_bytes(v.body_id_a));
    lemma_split(d, c, i32_bytes(v.contact_id) + rot_bytes(v.cached_rotation_a) + rot_bytes(v.cached_rotation_b), xf_bytes(v.cached_relative_pose));
    lemma_split(d, c, i32_bytes(v.contact_id) + rot_bytes(v.cached_rotation_a), rot_bytes(v.cached_rotation_b));
    lemma_split(d, c, i32_bytes(v.contact_id), rot_bytes(v.cached_rotation_a));
    lemma_i32_read_back(v.contact_id, d, c + 0);
    law_rot_round_trip(v.cached_rotation_a, d, c + 4);
    law_rot_round_trip(v.cached_rotation_b, d, c + 12);
    law_xf_round_trip(v.cached_relative_pose, d, c + 20);
    lemma_i32_read_back(v.body_id_a, d, c + 36);
    lemma_i32_read_back(v.body_id_b, d, c + 40);
    lemma_i32_read_back(v.body_sim_index_a, d, c + 44);
    lemma_i32_read_back(v.body_sim_index_b, d, c + 48);
    lemma_i32_read_back(v.shape_id_a, d, c + 52);
    lemma_i32_read_back(v.shape_id_b, d, c + 56);
    lemma_u32_read_back(v.inv_mass_a, d, c + 60);
    lemma_u32_read_back(v.inv_i_a, d, c + 64);
    lemma_u32_read_back(v.inv_mass_b, d, c + 68);
    lemma_u32_read_back(v.inv_i_b, d, c + 72);
    law_manifold_round_trip(v.manifold, d, c + 76);
    lemma_u32_read_back(v.friction, d, c + 178);
    lemma_u32_read_back(v.restitution, d, c + 182);
    lemma_u32_read_back(v.rolling_resistance, d, c + 186);
    lemma_u32_read_back(v.tangent_speed, d, c + 190);
    lemma_u32_read_back(v.sim_flags, d, c + 194);
    law_simplex_cache_round_trip(v.cache, d, c + 198);
}

/// A body as the contracts see it: its name as characters.
pub struct BodyView {
    pub user_data: u64,
    pub set_index: i32,
    pub local_index: i32,
    pub head_contact_key: i32,
    pub contact_count: i32,
    pub head_shape_id: i32,
    pub shape_count: i32,
    pub head_chain_id: i32,
    pub head_joint_key: i32,
    pub joint_count: i32,
    pub island_id: i32,
    pub island_index: i32,
    pub mass: u32,
    pub inertia: u32,
    pub sleep_threshold: u32,
    pub sleep_time: u32,
    pub body_move_index: i32,
    pub id: i32,
    pub flags: u32,
    pub type_: BodyType,
    pub generation: u16,
    pub name: Seq<char>,
}

impl View for Body {
    type V = BodyView;

    open spec fn view(&self) -> BodyView {
        BodyView {
            user_data: self.user_data,
            set_index: self.set_index,
            local_index: self.local_index,
            head_contact_key: self.head_contact_key,
            contact_count: self.contact_count,
            head_shape_id: self.head_shape_id,
            shape_count: self.shape_count,
            head_chain_id: self.head_chain_id,
            head_joint_key: self.head_joint_key,
            joint_count: self.joint_count,
            island_id: self.island_id,
            island_index: self.island_index,
            mass: self.mass,
            inertia: self.inertia,
            sleep_threshold: self.sleep_threshold,
            sleep_time: self.sleep_time,
            body_move_index: self.body_move_index,
            id: self.id,
            flags: self.flags,
            type_: self.type_,
            generation: self.generation,
            name: self.name@,
        }
    }
}

/// Image form of a body: its fields in order, the user data as zero, the
/// type as its number, the name length-prefixed.
pub open spec fn body_image(v: BodyView) -> Seq<u8> {
    u64_bytes(0) + i32_bytes(v.set_index) + i32_bytes(v.local_index) + i32_bytes(v.head_contact_key) + i32_bytes(v.contact_count) + i32_bytes(v.head_shape_id) + i32_bytes(v.shape_count) + i32_bytes(v.head_chain_id) + i32_bytes(v.head_joint_key) + i32_bytes(v.joint_count) + i32_bytes(v.island_id) + i32_bytes(v.island_index) + u32_bytes(v.mass) + u32_bytes(v.inertia) + u32_bytes(v.sleep_threshold) + u32_bytes(v.sleep_time) + i32_bytes(v.body_move_index) + i32_bytes(v.id) + u32_bytes(v.flags) + i32_bytes(body_type_code(v.type_)) + u16_bytes(v.generation) + str_bytes(encode_utf8(v.name))
}

/// A body read at `(ok, c)`, its fields in order; the type number 0 is
/// static, 1 kinematic, any other dynamic.
pub open spec fn body_read(d: Seq<u8>, ok: bool, c: int) -> (BodyView, (bool, int)) {
    let (x0, s1) = u64_read_at(d, ok, c);
    let (x1, s2) = i32_read(d, s1.0, s1.1);
    let (x2, s3) = i32_read(d, s2.0, s2.1);
    let (x3, s4) = i32_read(d, s3.0, s3.1);
    let (x4, s5) = i32_read(d, s4.0, s4.1);
    let (x5, s6) = i32_read(d, s5.0, s5.1);
    let (x6, s7) = i32_read(d, s6.0, s6.1);
    let (x7, s8) = i32_read(d, s7.0, s7.1);
    let (x8, s9) = i32_read(d, s8.0, s8.1);
    let (x9, s10) = i32_read(d, s9.0, s9.1);
    let (x10, s11) = i32_read(d, s10.0, s10.1);
    let (x11, s12) = i32_read(d, s11.0, s11.1);
    let (x12, s13) = u32_read(d, s12.0, s12.1);
    let (x13, s14) = u32_read(d, s13.0, s13.1);
    let (x14, s15) = u32_read(d, s14.0, s14.1);
    let (x15, s16) = u32_read(d, s15.0, s15.1);
    let (x16, s17) = i32_read(d, s16.0, s16.1);
    let (x17, s18) = i32_read(d, s17.0, s17.1);
    let (x18, s19) = u32_read(d, s18.0, s18.1);
    let (x19, s20) = i32_read(d, s19.0, s19.1);
    let (x20, s21) = u16_read(d, s20.0, s20.1);
    let (x21, s22) = string_read(d, s21.0, s21.1);
    (BodyView { user_data: x0, set_index: x1, local_index: x2, head_contact_key: x3, contact_count: x4, head_shape_id: x5, shape_count: x6, head_chain_id: x7, head_joint_key: x8, joint_count: x9, island_id: x10, island_index: x11, mass: x12, inertia: x13, sleep_threshold: x14, sleep_time: x15, body_move_index: x16, id: x17, flags: x18, type_: body_type_from(x19), generation: x20, name: x21 }, s22)
}

/// Append the image of a body.
pub fn ser_body(buf: &mut Vec<u8>, b: &Body)
    ensures
        final(buf)@ == old(buf)@ + body_image(b@),
{
    rec_w_u64(buf, 0);
    rec_w_i32(buf, b.set_index);
    rec_w_i32(buf, b.local_index);
    rec_w_i32(buf, b.head_contact_key);
    rec_w_i32(buf, b.contact_count);
    rec_w_i32(buf, b.head_shape_id);
    rec_w_i32(buf, b.shape_count);
    rec_w_i32(buf, b.head_chain_id);
    rec_w_i32(buf, b.head_joint_key);
    rec_w_i32(buf, b.joint_count);
    rec_w_i32(buf, b.island_id);
    rec_w_i32(buf, b.island_index);
    rec_w_u32(buf, b.mass);
    rec_w_u32(buf, b.inertia);
    rec_w_u32(buf, b.sleep_threshold);
    rec_w_u32(buf, b.sleep_time);
    rec_w_i32(buf, b.body_move_index);
    rec_w_i32(buf, b.id);
    rec_w_u32(buf, b.flags);
    rec_w_i32(buf, b.type_.code());
    rec_w_u16(buf, b.generation);
    rec_w_str(buf, b.name.as_str());
    assert(buf@ =~= old(buf)@ + body_image(b@));
}

/// Read a body from its image.
pub fn des_body(r: &mut SnapReader) -> (b: Body)
    ensures
        final(r).data@ == old(r).data@,
        (b@, (final(r).ok, final(r).cursor as int)) == body_read(old(r).data@, old(r).ok, old(r).cursor as int),
{
    let x0 = read_u64(r);
    let x1 = read_i32(r);
    let x2 = read_i32(r);
    let x3 = read_i32(r);
    let x4 = read_i32(r);
    let x5 = read_i32(r);
    let x6 = read_i32(r);
    let x7 = read_i32(r);
    let x8 = read_i32(r);
    let x9 = read_i32(r);
    let x10 = read_i32(r);
    let x11 = read_i32(r);
    let x12 = read_u32(r);
    let x13 = read_u32(r);
    let x14 = read_u32(r);
    let x15 = read_u32(r);
    let x16 = read_i32(r);
    let x17 = read_i32(r);
    let x18 = read_u32(r);
    let x19 = read_i32(r);
    let x20 = read_u16(r);
    let x21 = r_string(r);
    let type_ = if x19 == 0 {
        BodyType::Static
    } else if x19 == 1 {
        BodyType::Kinematic
    } else {
        BodyType::Dynamic
    };
    Body { user_data: x0, set_index: x1, local_index: x2, head_contact_key: x3, contact_count: x4, head_shape_id: x5, shape_count: x6, head_chain_id: x7, head_joint_key: x8, joint_count: x9, island_id: x10, island_index: x11, mass: x12, inertia: x13, sleep_threshold: x14, sleep_time: x15, body_move_index: x16, id: x17, flags: x18, type_: type_, generation: x20, name: x21 }
}

/// A body reads back from its image, its user data as zero, when its name
/// is ASCII and no longer than a record keeps.
#[verifier::spinoff_prover]
#[verifier::rlimit(30)]
pub proof fn law_body_round_trip(v: BodyView, d: Seq<u8>, c: int)
    requires
        is_ascii_chars(v.name),
        v.name.len() <= REC_MAX_STR_LEN,
        0 <= c,
        c + 86 + 2 + v.name.len() <= d.len(),
        d.subrange(c, c + 86 + 2 + v.name.len()) == body_image(v),
    ensures
        body_read(d, true, c) == (BodyView { user_data: 0, ..v }, (true, c + 86 + 2 + v.name.len())),
{
    vstd::utf8::is_ascii_chars_encode_utf8(v.name);
    assert(str_bytes(encode_utf8(v.name)).len() == 2 + v.name.len());
    lemma_split(d, c, u64_bytes(0) + i32_bytes(v.set_index) + i32_bytes(v.local_index) + i32_bytes(v.head_contact_key) + i32_bytes(v.contact_count) + i32_bytes(v.head_shape_id) + i32_bytes(v.shape_count) + i32_bytes(v.head_chain_id) + i32_bytes(v.head_joint_key) + i32_bytes(v.joint_count) + i32_bytes(v.island_id) + i32_bytes(v.island_index) + u32_bytes(v.mass) + u32_bytes(v.inertia) + u32_bytes(v.sleep_threshold) + u32_bytes(v.sleep_time) + i32_bytes(v.body_move_index) + i32_bytes(v.id) + u32_bytes(v.flags) + i32_bytes(body_type_code(v.type_)) + u16_bytes(v.generation), str_bytes(encode_utf8(v.name)));
    lemma_split(d, c, u64_bytes(0) + i32_bytes(v.set_index) + i32_bytes(v.local_index) + i32_bytes(v.head_contact_key) + i32_bytes(v.contact_count) + i32_bytes(v.head_shape_id) + i32_bytes(v.shape_count) + i32_bytes(v.head_chain_id) + i32_bytes(v.head_joint_key) + i32_bytes(v.joint_count) + i32_bytes(v.island_id) + i32_bytes(v.island_index) + u32_bytes(v.mass) + u32_bytes(v.inertia) + u32_bytes(v.sleep_threshold) + u32_bytes(v.sleep_time) + i32_bytes(v.body_move_index) + i32_bytes(v.id) + u32_bytes(v.flags) + i32_bytes(body_type_code(v.type_)), u16_bytes(v.generation));
    lemma_split(d, c, u64_bytes(0) + i32_bytes(v.set_index) + i32_bytes(v.local_index) + i32_bytes(v.head_contact_key) + i32_bytes(v.contact_count) + i32_bytes(v.head_shape_id) + i32_bytes(v.shape_count) + i32_bytes(v.head_chain_id) + i32_bytes(v.head_joint_key) + i32_bytes(v.joint_count) + i32_bytes(v.island_id) + i32_bytes(v.island_index) + u32_bytes(v.mass) + u32_bytes(v.inertia) + u32_bytes(v.sleep_threshold) + u32_bytes(v.sleep_time) + i32_bytes(v.body_move_index) + i32_bytes(v.id) + u32_bytes(v.flags), i32_bytes(body_type_code(v.type_)));
    lemma_split(d, c, u64_bytes(0) + i32_bytes(v.set_index) + i32_bytes(v.local_index) + i32_bytes(v.head_contact_key) + i32_bytes(v.contact_count) + i32_bytes(v.head_shape_id) + i32_bytes(v.shape_count) + i32_bytes(v.head_chain_id) + i32_bytes(v.head_joint_key) + i32_bytes(v.joint_count) + i32_bytes(v.island_id) + i32_bytes(v.island_index) + u32_bytes(v.mass) + u32_bytes(v.inertia) + u32_bytes(v.sleep_threshold) + u32_bytes(v.sleep_time) + i32_bytes(v.body_move_index) + i32_bytes(v.id), u32_bytes(v.flags));
    lemma_split(d, c, u64_bytes(0) + i32_bytes(v.set_index) + i32_bytes(v.local_index) + i32_bytes(v.head_contact_key) + i32_bytes(v.contact_count) + i32_bytes(v.head_shape_id) + i32_bytes(v.shape_count) + i32_bytes(v.head_chain_id) + i32_bytes(v.head_joint_key) + i32_bytes(v.joint_count) + i32_bytes(v.island_id) + i32_bytes(v.island_index) + u32_bytes(v.mass) + u32_bytes(v.inertia) + u32_bytes(v.sleep_threshold) + u32_bytes(v.sleep_time) + i32_bytes(v.body_move_index), i32_bytes(v.id));
    lemma_split(d, c, u64_bytes(0) + i32_bytes(v.set_index) + i32_bytes(v.local_index) + i32_bytes(v.head_contact_key) + i32_bytes(v.contact_count) + i32_bytes(v.head_shape_id) + i32_bytes(v.shape_count) + i32_bytes(v.head_chain_id) + i32_bytes(v.head_joint_key) + i32_bytes(v.joint_count) + i32_bytes(v.island_id) + i32_bytes(v.island_index) + u32_bytes(v.mass) + u32_bytes(v.inertia) + u32_bytes(v.sleep_threshold) + u32_bytes(v.sleep_time), i32_bytes(v.body_move_index));
    lemma_split(d, c, u64_bytes(0) + i32_bytes(v.set_index) + i32_bytes(v.local_index) + i32_bytes(v.head_contact_key) + i32_bytes(v.contact_count) + i32_bytes(v.head_shape_id) + i32_bytes(v.shape_count) + i32_bytes(v.head_chain_id) + i32_bytes(v.head_joint_key) + i32_bytes(v.joint_count) + i32_bytes(v.island_id) + i32_bytes(v.island_index) + u32_bytes(v.mass) + u32_bytes(v.inertia) + u32_bytes(v.sleep_threshold), u32_bytes(v.sleep_time));
    lemma_split(d, c, u64_bytes(0) + i32_bytes(v.set_index) + i32_bytes(v.local_index) + i32_bytes(v.head_contact_key) + i32_bytes(v.contact_count) + i32_bytes(v.head_shape_id) + i32_bytes(v.shape_count) + i32_bytes(v.head_chain_id) + i32_bytes(v.head_joint_key) + i32_bytes(v.joint_count) + i32_bytes(v.island_id) + i32_bytes(v.island_index) + u32_bytes(v.mass) + u32_bytes(v.inertia), u32_bytes(v.sleep_threshold));
    lemma_split(d, c, u64_bytes(0) + i32_bytes(v.set_index) + i32_bytes(v.local_index) + i32_bytes(v.head_contact_key) + i32_bytes(v.contact_count) + i32_bytes(v.head_shape_id) + i32_bytes(v.shape_count) + i32_bytes(v.head_chain_id) + i32_bytes(v.head_joint_key) + i32_bytes(v.joint_count) + i32_bytes(v.island_id) + i32_bytes(v.island_index) + u32_bytes(v.mass), u32_bytes(v.inertia));
    lemma_split(d, c, u64_bytes(0) + i32_bytes(v.set_index) + i32_bytes(v.local_index) + i32_bytes(v.head_contact_key) + i32_bytes(v.contact_count) + i32_bytes(v.head_shape_id) + i32_bytes(v.shape_count) + i32_bytes(v.head_chain_id) + i32_bytes(v.head_joint_key) + i32_bytes(v.joint_count) + i32_bytes(v.island_id) + i32_bytes(v.island_index), u32_bytes(v.mass));
    lemma_split(d, c, u64_bytes(0) + i32_bytes(v.set_index) + i32_bytes(v.local_index) + i32_bytes(v.head_contact_key) + i32_bytes(v.contact_count) + i32_bytes(v.head_shape_id) + i32_bytes(v.shape_count) + i32_bytes(v.head_chain_id) + i32_bytes(v.head_joint_key) + i32_bytes(v.joint_count) + i32_bytes(v.island_id), i32_bytes(v.island_index));
    lemma_split(d, c, u64_bytes(0) + i32_bytes(v.set_index) + i32_bytes(v.local_index) + i32_bytes(v.head_contact_key) + i32_bytes(v.contact_count) + i32_bytes(v.head_shape_id) + i32_bytes(v.shape_count) + i32_bytes(v.head_chain_id) + i32_bytes(v.head_joint_key) + i32_bytes(v.joint_count), i32_bytes(v.island_id));
    lemma_split(d, c, u64_bytes(0) + i32_bytes(v.set_index) + i32_bytes(v.local_index) + i32_bytes(v.head_contact_key) + i32_bytes(v.contact_count) + i32_bytes(v.head_shape_id) + i32_bytes(v.shape_count) + i32_bytes(v.head_chain_id) + i32_bytes(v.head_joint_key), i32_bytes(v.joint_count));
    lemma_split(d, c, u64_bytes(0) + i32_bytes(v.set_index) + i32_bytes(v.local_index) + i32_bytes(v.head_contact_key) + i32_bytes(v.contact_count) + i32_bytes(v.head_shape_id) + i32_bytes(v.shape_count) + i32_bytes(v.head_chain_id), i32_bytes(v.head_joint_key));
    lemma_split(d, c, u64_bytes(0) + i32_bytes(v.set_index) + i32_bytes(v.local_index) + i32_bytes(v.head_contact_key) + i32_bytes(v.contact_count) + i32_bytes(v.head_shape_id) + i32_bytes(v.shape_count), i32_bytes(v.head_chain_id));
    lemma_split(d, c, u64_bytes(0) + i32_bytes(v.set_index) + i32_bytes(v.local_index) + i32_bytes(v.head_contact_key) + i32_bytes(v.contact_count) + i32_bytes(v.head_shape_id), i32_bytes(v.shape_count));
    lemma_split(d, c, u64_bytes(0) + i32_bytes(v.set_index) + i32_bytes(v.local_index) + i32_bytes(v.head_contact_key) + i32_bytes(v.contact_count), i32_bytes(v.head_shape_id));
    lemma_split(d, c, u64_bytes(0) + i32_bytes(v.set_index) + i32_bytes(v.local_index) + i32_bytes(v.head_contact_key), i32_bytes(v.contact_count));
    lemma_split(d, c, u64_bytes(0) + i32_bytes(v.set_index) + i32_bytes(v.local_index), i32_bytes(v.head_contact_key));
    lemma_split(d, c, u64_bytes(0) + i32_bytes(v.set_index), i32_bytes(v.local_index));
    lemma_split(d, c, u64_bytes(0), i32_bytes(v.set_index));
    lemma_u64_read_back(0, d, c + 0);
    lemma_i32_read_back(v.set_index, d, c + 8);
    lemma_i32_read_back(v.local_index, d, c + 12);
    lemma_i32_read_back(v.head_contact_key, d, c + 16);
    lemma_i32_read_back(v.contact_count, d, c + 20);
    lemma_i32_read_back(v.head_shape_id, d, c + 24);
    lemma_i32_read_back(v.shape_count, d, c + 28);
    lemma_i32_read_back(v.head_chain_id, d, c + 32);
    lemma_i32_read_back(v.head_joint_key, d, c + 36);
    lemma_i32_read_back(v.joint_count, d, c + 40);
    lemma_i32_read_back(v.island_id, d, c + 44);
    lemma_i32_read_back(v.island_index, d, c + 48);
    lemma_u32_read_back(v.mass, d, c + 52);
    lemma_u32_read_back(v.inertia, d, c + 56);
    lemma_u32_read_back(v.sleep_threshold, d, c + 60);
    lemma_u32_read_back(v.sleep_time, d, c + 64);
    lemma_i32_read_back(v.body_move_index, d, c + 68);
    lemma_i32_read_back(v.id, d, c + 72);
    lemma_u32_read_back(v.flags, d, c + 76);
    lemma_i32_read_back(body_type_code(v.type_), d, c + 80);
    lemma_u16_read_back(v.generation, d, c + 84);
    law_string_round_trip(v.name, d, c + 86);
    assert(body_type_from(body_type_code(v.type_)) == v.type_);
}

} // verus!
