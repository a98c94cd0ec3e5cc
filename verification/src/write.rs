use vstd::prelude::*;
use crate::id::{pack_id64, pack_world_id, BodyId, ChainId, JointId, ShapeId, WorldId};
use vstd::string::StringSliceAdditionalSpecFns;
use crate::geometry::{
    Aabb, Capsule, ChainSegment, Circle, MassData, PlaneResult, Polygon, Pos, RayResult, Rot, Segment, ShapeProxy,
    Transform, Vec2, WorldCastOutput, WorldTransform, MAX_POLYGON_VERTICES,
};
use crate::scalar::clamp_int;
use crate::types::{
    body_type_code, BodyDef, ChainDef, DistanceJointDef, ExplosionDef, Filter, FilterJointDef, JointDef, MotionLocks,
    MotorJointDef, PrismaticJointDef, QueryFilter, RevoluteJointDef, ShapeDef, SurfaceMaterial, TreeStats,
    WeldJointDef, WheelJointDef,
};

verus! {

/// Little-endian encoding of `v` in `n` bytes: the low byte first.
pub open spec fn le_bytes(v: nat, n: nat) -> Seq<u8>
    decreases n,
{
    if n == 0 {
        Seq::empty()
    } else {
        seq![(v % 256) as u8] + le_bytes(v / 256, (n - 1) as nat)
    }
}

/// The number a little-endian byte string stands for.
pub open spec fn le_value(s: Seq<u8>) -> nat
    decreases s.len(),
{
    if s.len() == 0 {
        0
    } else {
        s[0] as nat + 256 * le_value(s.drop_first())
    }
}

/// `256` to the power `n`.
pub open spec fn pow256(n: nat) -> nat
    decreases n,
{
    if n == 0 {
        1
    } else {
        256 * pow256((n - 1) as nat)
    }
}

/// An `n`-byte encoding is `n` bytes long.
pub broadcast proof fn lemma_le_bytes_len(v: nat, n: nat)
    ensures
        #[trigger] le_bytes(v, n).len() == n,
    decreases n,
{
    if n > 0 {
        lemma_le_bytes_len(v / 256, (n - 1) as nat);
    }
}

/// Decoding an encoding gives the value back, when it fits in the width.
pub proof fn lemma_le_round_trip(v: nat, n: nat)
    requires
        v < pow256(n),
    ensures
        le_bytes(v, n).len() == n,
        le_value(le_bytes(v, n)) == v,
    decreases n,
{
    if n > 0 {
        lemma_le_round_trip(v / 256, (n - 1) as nat);
        let s = le_bytes(v, n);
        assert(s.drop_first() =~= le_bytes(v / 256, (n - 1) as nat));
    }
}

/// The bytes `rec_w_u16` appends.
pub open spec fn u16_bytes(v: u16) -> Seq<u8> {
    le_bytes(v as nat, 2)
}

pub open spec fn u32_bytes(v: u32) -> Seq<u8> {
    le_bytes(v as nat, 4)
}

pub open spec fn u64_bytes(v: u64) -> Seq<u8> {
    le_bytes(v as nat, 8)
}

/// A signed 32-bit value travels as its two's-complement bit pattern.
pub open spec fn i32_bytes(v: i32) -> Seq<u8> {
    u32_bytes(v as u32)
}

pub open spec fn bool_byte(v: bool) -> u8 {
    if v { 1 } else { 0 }
}

pub fn rec_w_u8(buf: &mut Vec<u8>, v: u8)
    ensures
        final(buf)@ == old(buf)@.push(v),
{
    buf.push(v);
}

pub fn rec_w_u16(buf: &mut Vec<u8>, v: u16)
    ensures
        final(buf)@ == old(buf)@ + u16_bytes(v),
{
    proof {
        reveal_with_fuel(le_bytes, 3);
    }
    buf.push((v % 256) as u8);
    buf.push((v / 256) as u8);
    assert(buf@ =~= old(buf)@ + u16_bytes(v));
}

pub fn rec_w_u32(buf: &mut Vec<u8>, v: u32)
    ensures
        final(buf)@ == old(buf)@ + u32_bytes(v),
{
    proof {
        reveal_with_fuel(le_bytes, 5);
    }
    buf.push((v % 256) as u8);
    buf.push((v / 256 % 256) as u8);
    buf.push((v / 256 / 256 % 256) as u8);
    buf.push((v / 256 / 256 / 256) as u8);
    assert(buf@ =~= old(buf)@ + u32_bytes(v));
}

pub fn rec_w_u64(buf: &mut Vec<u8>, v: u64)
    ensures
        final(buf)@ == old(buf)@ + u64_bytes(v),
{
    proof {
        reveal_with_fuel(le_bytes, 9);
    }
    let mut x: u64 = v;
    let ghost start = buf@;
    buf.push((x % 256) as u8);
    x = x / 256;
    buf.push((x % 256) as u8);
    x = x / 256;
    buf.push((x % 256) as u8);
    x = x / 256;
    buf.push((x % 256) as u8);
    x = x / 256;
    buf.push((x % 256) as u8);
    x = x / 256;
    buf.push((x % 256) as u8);
    x = x / 256;
    buf.push((x % 256) as u8);
    x = x / 256;
    buf.push((x % 256) as u8);
    assert(buf@ =~= start + u64_bytes(v));
}

pub fn rec_w_i32(buf: &mut Vec<u8>, v: i32)
    ensures
        final(buf)@ == old(buf)@ + i32_bytes(v),
{
    rec_w_u32(buf, v as u32);
}

pub fn rec_w_bool(buf: &mut Vec<u8>, v: bool)
    ensures
        final(buf)@ == old(buf)@.push(bool_byte(v)),
        final(buf)@ == old(buf)@ + seq![bool_byte(v)],
{
    rec_w_u8(buf, if v { 1 } else { 0 });
    assert(buf@ =~= old(buf)@ + seq![bool_byte(v)]);
}

/// Wire form of a world id: its 32-bit packing.
pub open spec fn world_id_bytes(v: WorldId) -> Seq<u8> {
    u32_bytes(pack_world_id(v))
}

/// Wire form of a 64-bit id from its parts.
pub open spec fn id64_bytes(index1: i32, world0: u16, generation: u16) -> Seq<u8> {
    u64_bytes(pack_id64(index1, world0, generation))
}

pub fn rec_w_worldid(buf: &mut Vec<u8>, v: WorldId)
    ensures
        final(buf)@ == old(buf)@ + world_id_bytes(v),
{
    rec_w_u32(buf, v.store());
}

pub fn rec_w_bodyid(buf: &mut Vec<u8>, v: BodyId)
    ensures
        final(buf)@ == old(buf)@ + id64_bytes(v.index1, v.world0, v.generation),
{
    rec_w_u64(buf, v.store());
}

pub fn rec_w_shapeid(buf: &mut Vec<u8>, v: ShapeId)
    ensures
        final(buf)@ == old(buf)@ + id64_bytes(v.index1, v.world0, v.generation),
{
    rec_w_u64(buf, v.store());
}

pub fn rec_w_chainid(buf: &mut Vec<u8>, v: ChainId)
    ensures
        final(buf)@ == old(buf)@ + id64_bytes(v.index1, v.world0, v.generation),
{
    rec_w_u64(buf, v.store());
}

pub fn rec_w_jointid(buf: &mut Vec<u8>, v: JointId)
    ensures
        final(buf)@ == old(buf)@ + id64_bytes(v.index1, v.world0, v.generation),
{
    rec_w_u64(buf, v.store());
}

/// Wire form of a filter: category, mask, group.
pub open spec fn filter_bytes(v: Filter) -> Seq<u8> {
    u64_bytes(v.category_bits) + u64_bytes(v.mask_bits) + i32_bytes(v.group_index)
}

pub fn rec_w_filter(buf: &mut Vec<u8>, v: Filter)
    ensures
        final(buf)@ == old(buf)@ + filter_bytes(v),
{
    rec_w_u64(buf, v.category_bits);
    rec_w_u64(buf, v.mask_bits);
    rec_w_i32(buf, v.group_index);
    assert(buf@ =~= old(buf)@ + filter_bytes(v));
}

/// Wire form of a surface material: the four coefficients' bit patterns,
/// the user material id and the custom color.
pub open spec fn material_bytes(v: SurfaceMaterial) -> Seq<u8> {
    u32_bytes(v.friction) + u32_bytes(v.restitution) + u32_bytes(v.rolling_resistance)
        + u32_bytes(v.tangent_speed) + u64_bytes(v.user_material_id) + u32_bytes(v.custom_color)
}

pub fn rec_w_material(buf: &mut Vec<u8>, v: SurfaceMaterial)
    ensures
        final(buf)@ == old(buf)@ + material_bytes(v),
{
    rec_w_u32(buf, v.friction);
    rec_w_u32(buf, v.restitution);
    rec_w_u32(buf, v.rolling_resistance);
    rec_w_u32(buf, v.tangent_speed);
    rec_w_u64(buf, v.user_material_id);
    rec_w_u32(buf, v.custom_color);
    assert(buf@ =~= old(buf)@ + material_bytes(v));
}

/// Wire form of motion locks: one byte per lock.
pub open spec fn locks_bytes(v: MotionLocks) -> Seq<u8> {
    seq![bool_byte(v.linear_x), bool_byte(v.linear_y), bool_byte(v.angular_z)]
}

pub fn rec_w_locks(buf: &mut Vec<u8>, v: MotionLocks)
    ensures
        final(buf)@ == old(buf)@ + locks_bytes(v),
{
    rec_w_bool(buf, v.linear_x);
    rec_w_bool(buf, v.linear_y);
    rec_w_bool(buf, v.angular_z);
    assert(buf@ =~= old(buf)@ + locks_bytes(v));
}

/// Longest string payload; the length `0xFFFF` is kept for a null string.
pub const REC_MAX_STR_LEN: usize = 65534;

/// Wire form of a string: a 16-bit length, then that many of its UTF-8
/// bytes, cut at `REC_MAX_STR_LEN`.
pub open spec fn str_bytes(bytes: Seq<u8>) -> Seq<u8> {
    let len = if bytes.len() < REC_MAX_STR_LEN { bytes.len() } else { REC_MAX_STR_LEN as nat };
    u16_bytes(len as u16) + bytes.take(len as int)
}

/// Length-prefixed string.
pub fn rec_w_str(buf: &mut Vec<u8>, s: &str)
    ensures
        final(buf)@ == old(buf)@ + str_bytes(s.spec_bytes()),
{
    let bytes = s.as_bytes();
    let len: usize = if bytes.len() < REC_MAX_STR_LEN { bytes.len() } else { REC_MAX_STR_LEN };
    rec_w_u16(buf, len as u16);
    let ghost mid = buf@;
    let mut i: usize = 0;
    while i < len
        invariant
            len <= bytes@.len(),
            0 <= i <= len,
            buf@ == mid + bytes@.take(i as int),
        decreases len - i,
    {
        buf.push(bytes[i]);
        i = i + 1;
        assert(buf@ =~= mid + bytes@.take(i as int));
    }
    assert(buf@ =~= old(buf)@ + str_bytes(s.spec_bytes()));
}

/// Wire form of a query filter.
pub open spec fn query_filter_bytes(v: QueryFilter) -> Seq<u8> {
    u64_bytes(v.category_bits) + u64_bytes(v.mask_bits)
}

pub fn rec_w_queryfilter(buf: &mut Vec<u8>, v: QueryFilter)
    ensures
        final(buf)@ == old(buf)@ + query_filter_bytes(v),
{
    rec_w_u64(buf, v.category_bits);
    rec_w_u64(buf, v.mask_bits);
    assert(buf@ =~= old(buf)@ + query_filter_bytes(v));
}

/// Wire form of tree statistics.
pub open spec fn tree_stats_bytes(v: TreeStats) -> Seq<u8> {
    i32_bytes(v.node_visits) + i32_bytes(v.leaf_visits)
}

pub fn rec_w_treestats(buf: &mut Vec<u8>, v: TreeStats)
    ensures
        final(buf)@ == old(buf)@ + tree_stats_bytes(v),
{
    rec_w_i32(buf, v.node_visits);
    rec_w_i32(buf, v.leaf_visits);
    assert(buf@ =~= old(buf)@ + tree_stats_bytes(v));
}

/// Concatenated wire forms of materials.
pub open spec fn materials_bytes(s: Seq<SurfaceMaterial>) -> Seq<u8>
    decreases s.len(),
{
    if s.len() == 0 {
        Seq::empty()
    } else {
        materials_bytes(s.drop_last()) + material_bytes(s.last())
    }
}

/// Each material takes 28 bytes on the wire.
pub proof fn lemma_materials_len(s: Seq<SurfaceMaterial>)
    ensures
        materials_bytes(s).len() == 28 * s.len(),
    decreases s.len(),
{
    broadcast use lemma_le_bytes_len;
    if s.len() > 0 {
        lemma_materials_len(s.drop_last());
    }
}

/// Wire form of a vector: the bit patterns of x, then y.
pub open spec fn vec2_bytes(v: Vec2) -> Seq<u8> {
    u32_bytes(v.x) + u32_bytes(v.y)
}

/// Concatenated wire forms of vectors.
pub open spec fn vec2s_bytes(s: Seq<Vec2>) -> Seq<u8>
    decreases s.len(),
{
    if s.len() == 0 {
        Seq::empty()
    } else {
        vec2s_bytes(s.drop_last()) + vec2_bytes(s.last())
    }
}

/// Each vector takes eight bytes.
pub proof fn lemma_vec2s_len(s: Seq<Vec2>)
    ensures
        vec2s_bytes(s).len() == 8 * s.len(),
    decreases s.len(),
{
    broadcast use lemma_le_bytes_len;
    if s.len() > 0 {
        lemma_vec2s_len(s.drop_last());
    }
}

/// Wire form of a rotation: cosine, then sine.
pub open spec fn rot_bytes(v: Rot) -> Seq<u8> {
    u32_bytes(v.c) + u32_bytes(v.s)
}

/// Wire form of a transform: translation, then rotation.
pub open spec fn xf_bytes(v: Transform) -> Seq<u8> {
    vec2_bytes(v.p) + rot_bytes(v.q)
}

pub fn rec_w_vec2(buf: &mut Vec<u8>, v: Vec2)
    ensures
        final(buf)@ == old(buf)@ + vec2_bytes(v),
{
    rec_w_u32(buf, v.x);
    rec_w_u32(buf, v.y);
    assert(buf@ =~= old(buf)@ + vec2_bytes(v));
}

pub fn rec_w_rot(buf: &mut Vec<u8>, v: Rot)
    ensures
        final(buf)@ == old(buf)@ + rot_bytes(v),
{
    rec_w_u32(buf, v.c);
    rec_w_u32(buf, v.s);
    assert(buf@ =~= old(buf)@ + rot_bytes(v));
}

pub fn rec_w_xf(buf: &mut Vec<u8>, v: Transform)
    ensures
        final(buf)@ == old(buf)@ + xf_bytes(v),
{
    rec_w_vec2(buf, v.p);
    rec_w_rot(buf, v.q);
    assert(buf@ =~= old(buf)@ + xf_bytes(v));
}

/// A world position; two single precision values in this build.
pub fn rec_w_position(buf: &mut Vec<u8>, v: Pos)
    ensures
        final(buf)@ == old(buf)@ + vec2_bytes(v),
{
    rec_w_vec2(buf, v);
}

pub fn rec_w_worldxf(buf: &mut Vec<u8>, v: WorldTransform)
    ensures
        final(buf)@ == old(buf)@ + xf_bytes(v),
{
    rec_w_xf(buf, v);
}

/// Wire form of a circle.
pub open spec fn circle_bytes(v: Circle) -> Seq<u8> {
    vec2_bytes(v.center) + u32_bytes(v.radius)
}

pub fn rec_w_circle(buf: &mut Vec<u8>, v: Circle)
    ensures
        final(buf)@ == old(buf)@ + circle_bytes(v),
{
    rec_w_vec2(buf, v.center);
    rec_w_u32(buf, v.radius);
    assert(buf@ =~= old(buf)@ + circle_bytes(v));
}

/// Wire form of a capsule.
pub open spec fn capsule_bytes(v: Capsule) -> Seq<u8> {
    vec2_bytes(v.center1) + vec2_bytes(v.center2) + u32_bytes(v.radius)
}

pub fn rec_w_capsule(buf: &mut Vec<u8>, v: Capsule)
    ensures
        final(buf)@ == old(buf)@ + capsule_bytes(v),
{
    rec_w_vec2(buf, v.center1);
    rec_w_vec2(buf, v.center2);
    rec_w_u32(buf, v.radius);
    assert(buf@ =~= old(buf)@ + capsule_bytes(v));
}

/// Wire form of a segment.
pub open spec fn segment_bytes(v: Segment) -> Seq<u8> {
    vec2_bytes(v.point1) + vec2_bytes(v.point2)
}

pub fn rec_w_segment(buf: &mut Vec<u8>, v: Segment)
    ensures
        final(buf)@ == old(buf)@ + segment_bytes(v),
{
    rec_w_vec2(buf, v.point1);
    rec_w_vec2(buf, v.point2);
    assert(buf@ =~= old(buf)@ + segment_bytes(v));
}

/// Append every vector of a run in order.
fn w_vec2s(buf: &mut Vec<u8>, s: &[Vec2])
    ensures
        final(buf)@ == old(buf)@ + vec2s_bytes(s@),
{
    let mut i: usize = 0;
    while i < s.len()
        invariant
            0 <= i <= s@.len(),
            buf@ == old(buf)@ + vec2s_bytes(s@.take(i as int)),
        decreases s@.len() - i,
    {
        rec_w_vec2(buf, s[i]);
        i = i + 1;
        assert(s@.take(i as int).drop_last() =~= s@.take(i - 1));
        assert(buf@ =~= old(buf)@ + vec2s_bytes(s@.take(i as int)));
    }
    assert(s@.take(s@.len() as int) =~= s@);
}

/// Wire form of a polygon: every vertex slot, every normal slot, the
/// centroid, the radius and the count. All slots travel, used or not.
pub open spec fn polygon_bytes(v: Polygon) -> Seq<u8> {
    vec2s_bytes(v.vertices@) + vec2s_bytes(v.normals@) + vec2_bytes(v.centroid) + u32_bytes(v.radius)
        + i32_bytes(v.count)
}

pub fn rec_w_polygon(buf: &mut Vec<u8>, v: &Polygon)
    ensures
        final(buf)@ == old(buf)@ + polygon_bytes(*v),
{
    w_vec2s(buf, v.vertices.as_slice());
    w_vec2s(buf, v.normals.as_slice());
    rec_w_vec2(buf, v.centroid);
    rec_w_u32(buf, v.radius);
    rec_w_i32(buf, v.count);
    assert(buf@ =~= old(buf)@ + polygon_bytes(*v));
}

/// Wire form of a chain segment.
pub open spec fn chain_segment_bytes(v: ChainSegment) -> Seq<u8> {
    vec2_bytes(v.ghost1) + segment_bytes(v.segment) + vec2_bytes(v.ghost2) + i32_bytes(v.chain_id)
}

pub fn rec_w_chainseg(buf: &mut Vec<u8>, v: ChainSegment)
    ensures
        final(buf)@ == old(buf)@ + chain_segment_bytes(v),
{
    rec_w_vec2(buf, v.ghost1);
    rec_w_segment(buf, v.segment);
    rec_w_vec2(buf, v.ghost2);
    rec_w_i32(buf, v.chain_id);
    assert(buf@ =~= old(buf)@ + chain_segment_bytes(v));
}

/// Wire form of mass data.
pub open spec fn mass_data_bytes(v: MassData) -> Seq<u8> {
    u32_bytes(v.mass) + vec2_bytes(v.center) + u32_bytes(v.rotational_inertia)
}

pub fn rec_w_massdata(buf: &mut Vec<u8>, v: MassData)
    ensures
        final(buf)@ == old(buf)@ + mass_data_bytes(v),
{
    rec_w_u32(buf, v.mass);
    rec_w_vec2(buf, v.center);
    rec_w_u32(buf, v.rotational_inertia);
    assert(buf@ =~= old(buf)@ + mass_data_bytes(v));
}

/// Wire form of an explosion definition.
pub open spec fn explosion_def_bytes(v: ExplosionDef) -> Seq<u8> {
    u64_bytes(v.mask_bits) + vec2_bytes(v.position) + u32_bytes(v.radius) + u32_bytes(v.falloff)
        + u32_bytes(v.impulse_per_length)
}

pub fn rec_w_explosiondef(buf: &mut Vec<u8>, v: &ExplosionDef)
    ensures
        final(buf)@ == old(buf)@ + explosion_def_bytes(*v),
{
    rec_w_u64(buf, v.mask_bits);
    rec_w_position(buf, v.position);
    rec_w_u32(buf, v.radius);
    rec_w_u32(buf, v.falloff);
    rec_w_u32(buf, v.impulse_per_length);
    assert(buf@ =~= old(buf)@ + explosion_def_bytes(*v));
}

/// Appending one byte to a concatenation appends it to its second part.
proof fn lemma_concat_push(a: Seq<u8>, b: Seq<u8>, x: u8)
    ensures
        (a + b).push(x) == a + b.push(x),
{
    assert((a + b).push(x) =~= a + b.push(x));
}

/// Wire form of a body definition. The user data travels as zero.
pub open spec fn body_def_bytes(v: BodyDef) -> Seq<u8> {
    body_def_motion_bytes(v) + (str_bytes(vstd::utf8::encode_utf8(v.name@)) + u64_bytes(0)
        + locks_bytes(v.motion_locks)) + body_def_flag_bytes(v)
}

/// The motion part of a body definition's wire form: type, placement,
/// velocities, damping, gravity scale and sleep threshold.
pub open spec fn body_def_motion_bytes(v: BodyDef) -> Seq<u8> {
    i32_bytes(body_type_code(v.type_)) + vec2_bytes(v.position) + rot_bytes(v.rotation) + vec2_bytes(v.linear_velocity)
        + u32_bytes(v.angular_velocity) + u32_bytes(v.linear_damping) + u32_bytes(v.angular_damping)
        + u32_bytes(v.gravity_scale) + u32_bytes(v.sleep_threshold)
}

/// The switches that end a body definition's wire form, a byte each.
pub open spec fn body_def_flag_bytes(v: BodyDef) -> Seq<u8> {
    seq![bool_byte(v.enable_sleep)].push(bool_byte(v.is_awake)).push(bool_byte(v.is_bullet))
        .push(bool_byte(v.is_enabled)).push(bool_byte(v.allow_fast_rotation))
        .push(bool_byte(v.enable_contact_recycling))
}

pub fn rec_w_bodydef(buf: &mut Vec<u8>, v: &BodyDef)
    ensures
        final(buf)@ == old(buf)@ + body_def_bytes(*v),
{
    rec_w_i32(buf, v.type_.code());
    rec_w_position(buf, v.position);
    rec_w_rot(buf, v.rotation);
    rec_w_vec2(buf, v.linear_velocity);
    rec_w_u32(buf, v.angular_velocity);
    rec_w_u32(buf, v.linear_damping);
    rec_w_u32(buf, v.angular_damping);
    rec_w_u32(buf, v.gravity_scale);
    rec_w_u32(buf, v.sleep_threshold);
    assert(buf@ =~= old(buf)@ + body_def_motion_bytes(*v));
    let ghost b1 = buf@;
    rec_w_str(buf, v.name.as_str());
    rec_w_u64(buf, 0);
    rec_w_locks(buf, v.motion_locks);
    let ghost mid = str_bytes(vstd::utf8::encode_utf8(v.name@)) + u64_bytes(0) + locks_bytes(v.motion_locks);
    assert(buf@ =~= b1 + mid);
    let ghost b2 = buf@;
    rec_w_bool(buf, v.enable_sleep);
    assert(buf@ =~= b2 + seq![bool_byte(v.enable_sleep)]);
    rec_w_bool(buf, v.is_awake);
    proof {
        lemma_concat_push(b2, seq![bool_byte(v.enable_sleep)], bool_byte(v.is_awake));
    }
    rec_w_bool(buf, v.is_bullet);
    proof {
        lemma_concat_push(b2, seq![bool_byte(v.enable_sleep)].push(bool_byte(v.is_awake)), bool_byte(v.is_bullet));
    }
    rec_w_bool(buf, v.is_enabled);
    proof {
        lemma_concat_push(b2, seq![bool_byte(v.enable_sleep)].push(bool_byte(v.is_awake)).push(bool_byte(v.is_bullet)), bool_byte(v.is_enabled));
    }
    rec_w_bool(buf, v.allow_fast_rotation);
    proof {
        lemma_concat_push(b2, seq![bool_byte(v.enable_sleep)].push(bool_byte(v.is_awake)).push(bool_byte(v.is_bullet)).push(bool_byte(v.is_enabled)), bool_byte(v.allow_fast_rotation));
    }
    rec_w_bool(buf, v.enable_contact_recycling);
    proof {
        lemma_concat_push(b2, seq![bool_byte(v.enable_sleep)].push(bool_byte(v.is_awake)).push(bool_byte(v.is_bullet)).push(bool_byte(v.is_enabled)).push(bool_byte(v.allow_fast_rotation)), bool_byte(v.enable_contact_recycling));
    }
    proof {
        vstd::seq_lib::lemma_concat_associative(old(buf)@, body_def_motion_bytes(*v), mid);
        vstd::seq_lib::lemma_concat_associative(old(buf)@, body_def_motion_bytes(*v) + mid, body_def_flag_bytes(*v));
    }
}

/// Wire form of a shape definition. The user data travels as zero.
pub open spec fn shape_def_bytes(v: ShapeDef) -> Seq<u8> {
    u64_bytes(0) + material_bytes(v.material) + u32_bytes(v.density) + filter_bytes(v.filter)
        + shape_def_flag_bytes(v)
}

/// The switches that end a shape definition's wire form, a byte each.
pub open spec fn shape_def_flag_bytes(v: ShapeDef) -> Seq<u8> {
    seq![bool_byte(v.enable_custom_filtering)].push(bool_byte(v.is_sensor)).push(bool_byte(v.enable_sensor_events))
        .push(bool_byte(v.enable_contact_events)).push(bool_byte(v.enable_hit_events))
        .push(bool_byte(v.enable_pre_solve_events)).push(bool_byte(v.invoke_contact_creation))
        .push(bool_byte(v.update_body_mass))
}

pub fn rec_w_shapedef(buf: &mut Vec<u8>, v: &ShapeDef)
    ensures
        final(buf)@ == old(buf)@ + shape_def_bytes(*v),
{
    rec_w_u64(buf, 0);
    rec_w_material(buf, v.material);
    rec_w_u32(buf, v.density);
    rec_w_filter(buf, v.filter);
    let ghost head = u64_bytes(0) + material_bytes(v.material) + u32_bytes(v.density) + filter_bytes(v.filter);
    assert(buf@ =~= old(buf)@ + head);
    let ghost b1 = buf@;
    rec_w_bool(buf, v.enable_custom_filtering);
    assert(buf@ =~= b1 + seq![bool_byte(v.enable_custom_filtering)]);
    rec_w_bool(buf, v.is_sensor);
    proof {
        lemma_concat_push(b1, seq![bool_byte(v.enable_custom_filtering)], bool_byte(v.is_sensor));
    }
    rec_w_bool(buf, v.enable_sensor_events);
    proof {
        lemma_concat_push(b1, seq![bool_byte(v.enable_custom_filtering)].push(bool_byte(v.is_sensor)), bool_byte(v.enable_sensor_events));
    }
    rec_w_bool(buf, v.enable_contact_events);
    proof {
        lemma_concat_push(b1, seq![bool_byte(v.enable_custom_filtering)].push(bool_byte(v.is_sensor)).push(bool_byte(v.enable_sensor_events)), bool_byte(v.enable_contact_events));
    }
    rec_w_bool(buf, v.enable_hit_events);
    proof {
        lemma_concat_push(b1, seq![bool_byte(v.enable_custom_filtering)].push(bool_byte(v.is_sensor)).push(bool_byte(v.enable_sensor_events)).push(bool_byte(v.enable_contact_events)), bool_byte(v.enable_hit_events));
    }
    rec_w_bool(buf, v.enable_pre_solve_events);
    proof {
        lemma_concat_push(b1, seq![bool_byte(v.enable_custom_filtering)].push(bool_byte(v.is_sensor)).push(bool_byte(v.enable_sensor_events)).push(bool_byte(v.enable_contact_events)).push(bool_byte(v.enable_hit_events)), bool_byte(v.enable_pre_solve_events));
    }
    rec_w_bool(buf, v.invoke_contact_creation);
    proof {
        lemma_concat_push(b1, seq![bool_byte(v.enable_custom_filtering)].push(bool_byte(v.is_sensor)).push(bool_byte(v.enable_sensor_events)).push(bool_byte(v.enable_contact_events)).push(bool_byte(v.enable_hit_events)).push(bool_byte(v.enable_pre_solve_events)), bool_byte(v.invoke_contact_creation));
    }
    rec_w_bool(buf, v.update_body_mass);
    proof {
        lemma_concat_push(b1, seq![bool_byte(v.enable_custom_filtering)].push(bool_byte(v.is_sensor)).push(bool_byte(v.enable_sensor_events)).push(bool_byte(v.enable_contact_events)).push(bool_byte(v.enable_hit_events)).push(bool_byte(v.enable_pre_solve_events)).push(bool_byte(v.invoke_contact_creation)), bool_byte(v.update_body_mass));
    }
    assert(buf@ =~= b1 + shape_def_flag_bytes(*v));
    proof {
        vstd::seq_lib::lemma_concat_associative(old(buf)@, head, shape_def_flag_bytes(*v));
    }
}

/// Wire form of a chain definition: the user data as zero, the points and
/// the materials each led by their count, then filter and switches.
pub open spec fn chain_def_bytes(v: ChainDef) -> Seq<u8> {
    u64_bytes(0) + i32_bytes(v.points@.len() as i32) + vec2s_bytes(v.points@)
        + i32_bytes(v.materials@.len() as i32) + materials_bytes(v.materials@) + filter_bytes(v.filter)
        + seq![bool_byte(v.is_loop), bool_byte(v.enable_sensor_events)]
}

/// Variable-length def: point and material arrays are length-prefixed and
/// inlined.
pub fn rec_w_chaindef(buf: &mut Vec<u8>, v: &ChainDef)
    ensures
        final(buf)@ == old(buf)@ + chain_def_bytes(*v),
{
    rec_w_u64(buf, 0);
    rec_w_i32(buf, v.points.len() as i32);
    w_vec2s(buf, v.points.as_slice());
    rec_w_i32(buf, v.materials.len() as i32);
    let ghost start = buf@;
    let mut i: usize = 0;
    while i < v.materials.len()
        invariant
            0 <= i <= v.materials@.len(),
            buf@ == start + materials_bytes(v.materials@.take(i as int)),
        decreases v.materials@.len() - i,
    {
        rec_w_material(buf, v.materials[i]);
        i = i + 1;
        assert(v.materials@.take(i as int).drop_last() =~= v.materials@.take(i - 1));
        assert(buf@ =~= start + materials_bytes(v.materials@.take(i as int)));
    }
    assert(v.materials@.take(v.materials@.len() as int) =~= v.materials@);
    rec_w_filter(buf, v.filter);
    rec_w_bool(buf, v.is_loop);
    rec_w_bool(buf, v.enable_sensor_events);
    assert(buf@ =~= old(buf)@ + chain_def_bytes(*v));
}

/// Wire form of the part every joint definition shares. The user data
/// travels as zero; body ids travel as ids.
pub open spec fn joint_base_bytes(v: JointDef) -> Seq<u8> {
    u64_bytes(0) + id64_bytes(v.body_id_a.index1, v.body_id_a.world0, v.body_id_a.generation)
        + id64_bytes(v.body_id_b.index1, v.body_id_b.world0, v.body_id_b.generation)
        + xf_bytes(v.local_frame_a) + xf_bytes(v.local_frame_b) + u32_bytes(v.force_threshold)
        + u32_bytes(v.torque_threshold) + u32_bytes(v.constraint_hertz) + u32_bytes(v.constraint_damping_ratio)
        + u32_bytes(v.draw_scale) + seq![bool_byte(v.collide_connected)]
}

/// Joint defs share a base.
fn rec_w_joint_base(buf: &mut Vec<u8>, base: &JointDef)
    ensures
        final(buf)@ == old(buf)@ + joint_base_bytes(*base),
{
    rec_w_u64(buf, 0);
    rec_w_bodyid(buf, base.body_id_a);
    rec_w_bodyid(buf, base.body_id_b);
    rec_w_xf(buf, base.local_frame_a);
    rec_w_xf(buf, base.local_frame_b);
    rec_w_u32(buf, base.force_threshold);
    rec_w_u32(buf, base.torque_threshold);
    rec_w_u32(buf, base.constraint_hertz);
    rec_w_u32(buf, base.constraint_damping_ratio);
    rec_w_u32(buf, base.draw_scale);
    rec_w_bool(buf, base.collide_connected);
    assert(buf@ =~= old(buf)@ + joint_base_bytes(*base));
}

/// Wire form of a distance joint definition.
pub open spec fn distance_joint_def_bytes(v: DistanceJointDef) -> Seq<u8> {
    joint_base_bytes(v.base) + distance_joint_field_bytes(v)
}

/// The fields after the shared part, in order.
pub open spec fn distance_joint_field_bytes(v: DistanceJointDef) -> Seq<u8> {
    u32_bytes(v.length) + seq![bool_byte(v.enable_spring)]
        + u32_bytes(v.lower_spring_force) + u32_bytes(v.upper_spring_force) + u32_bytes(v.hertz)
        + u32_bytes(v.damping_ratio) + seq![bool_byte(v.enable_limit)] + u32_bytes(v.min_length)
        + u32_bytes(v.max_length) + seq![bool_byte(v.enable_motor)] + u32_bytes(v.max_motor_force)
        + u32_bytes(v.motor_speed)
}

pub fn rec_w_distancejointdef(buf: &mut Vec<u8>, v: &DistanceJointDef)
    ensures
        final(buf)@ == old(buf)@ + distance_joint_def_bytes(*v),
{
    rec_w_joint_base(buf, &v.base);
    let ghost b1 = buf@;
    rec_w_u32(buf, v.length);
    rec_w_bool(buf, v.enable_spring);
    rec_w_u32(buf, v.lower_spring_force);
    rec_w_u32(buf, v.upper_spring_force);
    rec_w_u32(buf, v.hertz);
    rec_w_u32(buf, v.damping_ratio);
    rec_w_bool(buf, v.enable_limit);
    rec_w_u32(buf, v.min_length);
    rec_w_u32(buf, v.max_length);
    rec_w_bool(buf, v.enable_motor);
    rec_w_u32(buf, v.max_motor_force);
    rec_w_u32(buf, v.motor_speed);
    assert(buf@ =~= b1 + distance_joint_field_bytes(*v));
    proof {
        vstd::seq_lib::lemma_concat_associative(old(buf)@, joint_base_bytes(v.base), distance_joint_field_bytes(*v));
    }
}

/// Wire form of a motor joint definition.
pub open spec fn motor_joint_def_bytes(v: MotorJointDef) -> Seq<u8> {
    joint_base_bytes(v.base) + motor_joint_field_bytes(v)
}

/// The fields after the shared part, in order.
pub open spec fn motor_joint_field_bytes(v: MotorJointDef) -> Seq<u8> {
    vec2_bytes(v.linear_velocity) + u32_bytes(v.max_velocity_force)
        + u32_bytes(v.angular_velocity) + u32_bytes(v.max_velocity_torque) + u32_bytes(v.linear_hertz)
        + u32_bytes(v.linear_damping_ratio) + u32_bytes(v.max_spring_force) + u32_bytes(v.angular_hertz)
        + u32_bytes(v.angular_damping_ratio) + u32_bytes(v.max_spring_torque)
}

pub fn rec_w_motorjointdef(buf: &mut Vec<u8>, v: &MotorJointDef)
    ensures
        final(buf)@ == old(buf)@ + motor_joint_def_bytes(*v),
{
    rec_w_joint_base(buf, &v.base);
    let ghost b1 = buf@;
    rec_w_vec2(buf, v.linear_velocity);
    rec_w_u32(buf, v.max_velocity_force);
    rec_w_u32(buf, v.angular_velocity);
    rec_w_u32(buf, v.max_velocity_torque);
    rec_w_u32(buf, v.linear_hertz);
    rec_w_u32(buf, v.linear_damping_ratio);
    rec_w_u32(buf, v.max_spring_force);
    rec_w_u32(buf, v.angular_hertz);
    rec_w_u32(buf, v.angular_damping_ratio);
    rec_w_u32(buf, v.max_spring_torque);
    assert(buf@ =~= b1 + motor_joint_field_bytes(*v));
    proof {
        vstd::seq_lib::lemma_concat_associative(old(buf)@, joint_base_bytes(v.base), motor_joint_field_bytes(*v));
    }
}

pub fn rec_w_filterjointdef(buf: &mut Vec<u8>, v: &FilterJointDef)
    ensures
        final(buf)@ == old(buf)@ + joint_base_bytes(v.base),
{
    rec_w_joint_base(buf, &v.base);
}

/// Wire form of a prismatic joint definition.
pub open spec fn prismatic_joint_def_bytes(v: PrismaticJointDef) -> Seq<u8> {
    joint_base_bytes(v.base) + prismatic_joint_field_bytes(v)
}

/// The fields after the shared part, in order.
pub open spec fn prismatic_joint_field_bytes(v: PrismaticJointDef) -> Seq<u8> {
    seq![bool_byte(v.enable_spring)] + u32_bytes(v.hertz) + u32_bytes(v.damping_ratio)
        + u32_bytes(v.target_translation) + seq![bool_byte(v.enable_limit)] + u32_bytes(v.lower_translation)
        + u32_bytes(v.upper_translation) + seq![bool_byte(v.enable_motor)] + u32_bytes(v.max_motor_force)
        + u32_bytes(v.motor_speed)
}

pub fn rec_w_prismaticjointdef(buf: &mut Vec<u8>, v: &PrismaticJointDef)
    ensures
        final(buf)@ == old(buf)@ + prismatic_joint_def_bytes(*v),
{
    rec_w_joint_base(buf, &v.base);
    let ghost b1 = buf@;
    rec_w_bool(buf, v.enable_spring);
    rec_w_u32(buf, v.hertz);
    rec_w_u32(buf, v.damping_ratio);
    rec_w_u32(buf, v.target_translation);
    rec_w_bool(buf, v.enable_limit);
    rec_w_u32(buf, v.lower_translation);
    rec_w_u32(buf, v.upper_translation);
    rec_w_bool(buf, v.enable_motor);
    rec_w_u32(buf, v.max_motor_force);
    rec_w_u32(buf, v.motor_speed);
    assert(buf@ =~= b1 + prismatic_joint_field_bytes(*v));
    proof {
        vstd::seq_lib::lemma_concat_associative(old(buf)@, joint_base_bytes(v.base), prismatic_joint_field_bytes(*v));
    }
}

/// Wire form of a revolute joint definition.
pub open spec fn revolute_joint_def_bytes(v: RevoluteJointDef) -> Seq<u8> {
    joint_base_bytes(v.base) + revolute_joint_field_bytes(v)
}

/// The fields after the shared part, in order.
pub open spec fn revolute_joint_field_bytes(v: RevoluteJointDef) -> Seq<u8> {
    u32_bytes(v.target_angle) + seq![bool_byte(v.enable_spring)] + u32_bytes(v.hertz)
        + u32_bytes(v.damping_ratio) + seq![bool_byte(v.enable_limit)] + u32_bytes(v.lower_angle)
        + u32_bytes(v.upper_angle) + seq![bool_byte(v.enable_motor)] + u32_bytes(v.max_motor_torque)
        + u32_bytes(v.motor_speed)
}

pub fn rec_w_revolutejointdef(buf: &mut Vec<u8>, v: &RevoluteJointDef)
    ensures
        final(buf)@ == old(buf)@ + revolute_joint_def_bytes(*v),
{
    rec_w_joint_base(buf, &v.base);
    let ghost b1 = buf@;
    rec_w_u32(buf, v.target_angle);
    rec_w_bool(buf, v.enable_spring);
    rec_w_u32(buf, v.hertz);
    rec_w_u32(buf, v.damping_ratio);
    rec_w_bool(buf, v.enable_limit);
    rec_w_u32(buf, v.lower_angle);
    rec_w_u32(buf, v.upper_angle);
    rec_w_bool(buf, v.enable_motor);
    rec_w_u32(buf, v.max_motor_torque);
    rec_w_u32(buf, v.motor_speed);
    assert(buf@ =~= b1 + revolute_joint_field_bytes(*v));
    proof {
        vstd::seq_lib::lemma_concat_associative(old(buf)@, joint_base_bytes(v.base), revolute_joint_field_bytes(*v));
    }
}

/// Wire form of a weld joint definition.
pub open spec fn weld_joint_def_bytes(v: WeldJointDef) -> Seq<u8> {
    joint_base_bytes(v.base) + weld_joint_field_bytes(v)
}

/// The fields after the shared part, in order.
pub open spec fn weld_joint_field_bytes(v: WeldJointDef) -> Seq<u8> {
    u32_bytes(v.linear_hertz) + u32_bytes(v.angular_hertz)
        + u32_bytes(v.linear_damping_ratio) + u32_bytes(v.angular_damping_ratio)
}

pub fn rec_w_weldjointdef(buf: &mut Vec<u8>, v: &WeldJointDef)
    ensures
        final(buf)@ == old(buf)@ + weld_joint_def_bytes(*v),
{
    rec_w_joint_base(buf, &v.base);
    let ghost b1 = buf@;
    rec_w_u32(buf, v.linear_hertz);
    rec_w_u32(buf, v.angular_hertz);
    rec_w_u32(buf, v.linear_damping_ratio);
    rec_w_u32(buf, v.angular_damping_ratio);
    assert(buf@ =~= b1 + weld_joint_field_bytes(*v));
    proof {
        vstd::seq_lib::lemma_concat_associative(old(buf)@, joint_base_bytes(v.base), weld_joint_field_bytes(*v));
    }
}

/// Wire form of a wheel joint definition.
pub open spec fn wheel_joint_def_bytes(v: WheelJointDef) -> Seq<u8> {
    joint_base_bytes(v.base) + wheel_joint_field_bytes(v)
}

/// The fields after the shared part, in order.
pub open spec fn wheel_joint_field_bytes(v: WheelJointDef) -> Seq<u8> {
    seq![bool_byte(v.enable_spring)] + u32_bytes(v.hertz) + u32_bytes(v.damping_ratio)
        + seq![bool_byte(v.enable_limit)] + u32_bytes(v.lower_translation) + u32_bytes(v.upper_translation)
        + seq![bool_byte(v.enable_motor)] + u32_bytes(v.max_motor_torque) + u32_bytes(v.motor_speed)
}

pub fn rec_w_wheeljointdef(buf: &mut Vec<u8>, v: &WheelJointDef)
    ensures
        final(buf)@ == old(buf)@ + wheel_joint_def_bytes(*v),
{
    rec_w_joint_base(buf, &v.base);
    let ghost b1 = buf@;
    rec_w_bool(buf, v.enable_spring);
    rec_w_u32(buf, v.hertz);
    rec_w_u32(buf, v.damping_ratio);
    rec_w_bool(buf, v.enable_limit);
    rec_w_u32(buf, v.lower_translation);
    rec_w_u32(buf, v.upper_translation);
    rec_w_bool(buf, v.enable_motor);
    rec_w_u32(buf, v.max_motor_torque);
    rec_w_u32(buf, v.motor_speed);
    assert(buf@ =~= b1 + wheel_joint_field_bytes(*v));
    proof {
        vstd::seq_lib::lemma_concat_associative(old(buf)@, joint_base_bytes(v.base), wheel_joint_field_bytes(*v));
    }
}

/// Wire form of a bounding box: lower bound, then upper bound.
pub open spec fn aabb_bytes(v: Aabb) -> Seq<u8> {
    vec2_bytes(v.lower_bound) + vec2_bytes(v.upper_bound)
}

pub fn rec_w_aabb(buf: &mut Vec<u8>, v: Aabb)
    ensures
        final(buf)@ == old(buf)@ + aabb_bytes(v),
{
    rec_w_vec2(buf, v.lower_bound);
    rec_w_vec2(buf, v.upper_bound);
    assert(buf@ =~= old(buf)@ + aabb_bytes(v));
}

/// How many points of a proxy travel: its count, clamped to the point
/// slots.
pub open spec fn proxy_count(v: ShapeProxy) -> int {
    if v.count < 0 { 0 } else if v.count > MAX_POLYGON_VERTICES { MAX_POLYGON_VERTICES as int } else { v.count as int }
}

/// Wire form of a shape proxy: the clamped count, that many points, the
/// radius.
pub open spec fn shape_proxy_bytes(v: ShapeProxy) -> Seq<u8> {
    i32_bytes(proxy_count(v) as i32) + vec2s_bytes(v.points@.take(proxy_count(v))) + u32_bytes(v.radius)
}

pub fn rec_w_shapeproxy(buf: &mut Vec<u8>, v: &ShapeProxy)
    ensures
        final(buf)@ == old(buf)@ + shape_proxy_bytes(*v),
{
    let count = clamp_int(v.count, 0, 8);
    rec_w_i32(buf, count);
    let ghost start = buf@;
    let mut i: usize = 0;
    while i < count as usize
        invariant
            0 <= count <= 8,
            v.points@.len() == 8,
            0 <= i <= count,
            buf@ == start + vec2s_bytes(v.points@.take(i as int)),
        decreases count - i,
    {
        rec_w_vec2(buf, v.points[i]);
        i = i + 1;
        assert(v.points@.take(i as int).drop_last() =~= v.points@.take(i - 1));
        assert(buf@ =~= start + vec2s_bytes(v.points@.take(i as int)));
    }
    rec_w_u32(buf, v.radius);
    assert(buf@ =~= old(buf)@ + shape_proxy_bytes(*v));
}

/// Wire form of a world cast output.
pub open spec fn world_cast_output_bytes(v: WorldCastOutput) -> Seq<u8> {
    vec2_bytes(v.normal) + vec2_bytes(v.point) + u32_bytes(v.fraction) + i32_bytes(v.iterations)
        + seq![bool_byte(v.hit)]
}

pub fn rec_w_worldcastoutput(buf: &mut Vec<u8>, v: WorldCastOutput)
    ensures
        final(buf)@ == old(buf)@ + world_cast_output_bytes(v),
{
    rec_w_vec2(buf, v.normal);
    rec_w_position(buf, v.point);
    rec_w_u32(buf, v.fraction);
    rec_w_i32(buf, v.iterations);
    rec_w_bool(buf, v.hit);
    assert(buf@ =~= old(buf)@ + world_cast_output_bytes(v));
}

/// Wire form of a ray result.
pub open spec fn ray_result_bytes(v: RayResult) -> Seq<u8> {
    id64_bytes(v.shape_id.index1, v.shape_id.world0, v.shape_id.generation) + vec2_bytes(v.point)
        + vec2_bytes(v.normal) + u32_bytes(v.fraction) + i32_bytes(v.node_visits) + i32_bytes(v.leaf_visits)
        + seq![bool_byte(v.hit)]
}

pub fn rec_w_rayresult(buf: &mut Vec<u8>, v: &RayResult)
    ensures
        final(buf)@ == old(buf)@ + ray_result_bytes(*v),
{
    rec_w_shapeid(buf, v.shape_id);
    rec_w_position(buf, v.point);
    rec_w_vec2(buf, v.normal);
    rec_w_u32(buf, v.fraction);
    rec_w_i32(buf, v.node_visits);
    rec_w_i32(buf, v.leaf_visits);
    rec_w_bool(buf, v.hit);
    assert(buf@ =~= old(buf)@ + ray_result_bytes(*v));
}

/// Wire form of a plane result.
pub open spec fn plane_result_bytes(v: PlaneResult) -> Seq<u8> {
    vec2_bytes(v.plane.normal) + u32_bytes(v.plane.offset) + vec2_bytes(v.point) + seq![bool_byte(v.hit)]
}

pub fn rec_w_planeresult(buf: &mut Vec<u8>, v: &PlaneResult)
    ensures
        final(buf)@ == old(buf)@ + plane_result_bytes(*v),
{
    rec_w_vec2(buf, v.plane.normal);
    rec_w_u32(buf, v.plane.offset);
    rec_w_vec2(buf, v.point);
    rec_w_bool(buf, v.hit);
    assert(buf@ =~= old(buf)@ + plane_result_bytes(*v));
}

} // verus!
