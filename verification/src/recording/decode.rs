use vstd::prelude::*;
use crate::containers::lemma_i32_bits;
use crate::geometry::{
    Aabb, Capsule, ChainSegment, Circle, Polygon, Pos, RayResult, Rot, Segment, ShapeProxy, Transform, Vec2,
    WorldCastOutput, WorldTransform,
};
use crate::id::{pack_id64, BodyId, ShapeId};
use crate::recording::read::{body_id_from, shape_id_from};
use crate::scalar::clamp_int;
use vstd::utf8::{encode_utf8, is_ascii_chars, is_ascii_chars_encode_utf8};
use crate::recording::read::r_filter;
use crate::snapshot_structs::r_material;
use crate::types::{body_type_code, BodyDef, BodyDefView, BodyType, Filter, JointDef, MotionLocks, ShapeDef, SurfaceMaterial};
use crate::snapshot::{after, lemma_u32_round_trip, value_at, SnapReader};
use crate::write::{
    aabb_bytes, capsule_bytes, chain_segment_bytes, circle_bytes, i32_bytes, id64_bytes, le_value,
    lemma_le_round_trip, lemma_vec2s_len, polygon_bytes, pow256, ray_result_bytes, rot_bytes, segment_bytes,
    u32_bytes, u64_bytes, vec2_bytes, vec2s_bytes, world_cast_output_bytes, xf_bytes, bool_byte, proxy_count,
    shape_proxy_bytes, filter_bytes, material_bytes, shape_def_bytes, shape_def_flag_bytes,
    joint_base_bytes, str_bytes, u16_bytes, REC_MAX_STR_LEN, body_def_bytes, body_def_motion_bytes,
    body_def_flag_bytes, locks_bytes,
};

verus! {

broadcast use crate::write::lemma_le_bytes_len;

// Each reader is specified by a function from the input and the reader
// state `(ok, cursor)` to the value read and the state after it. Values are
// read in wire order; a read that runs past the end gives zero and leaves the
// reader bad, and every read after it does the same.

/// A 4-byte word read at `(ok, c)`, and the state after it.
pub open spec fn u32_read(d: Seq<u8>, ok: bool, c: int) -> (u32, (bool, int)) {
    (value_at(d, ok, c, 4) as u32, after(d, ok, c, 4))
}

/// A signed 4-byte word read at `(ok, c)`: the word's two's complement.
pub open spec fn i32_read(d: Seq<u8>, ok: bool, c: int) -> (i32, (bool, int)) {
    (value_at(d, ok, c, 4) as u32 as i32, after(d, ok, c, 4))
}

/// An 8-byte word read at `(ok, c)`.
pub open spec fn u64_read_at(d: Seq<u8>, ok: bool, c: int) -> (u64, (bool, int)) {
    (value_at(d, ok, c, 8) as u64, after(d, ok, c, 8))
}

/// A one-byte flag read at `(ok, c)`: any non-zero byte is true.
pub open spec fn bool_read(d: Seq<u8>, ok: bool, c: int) -> (bool, (bool, int)) {
    (ok && 0 <= c && c + 1 <= d.len() && d[c] != 0, after(d, ok, c, 1))
}

/// Where `a + b` sits at `c`, `a` sits at `c` and `b` right after it.
pub proof fn lemma_split(d: Seq<u8>, c: int, a: Seq<u8>, b: Seq<u8>)
    requires
        0 <= c,
        c + a.len() + b.len() <= d.len(),
        d.subrange(c, c + a.len() + b.len()) == a + b,
    ensures
        d.subrange(c, c + a.len()) == a,
        d.subrange(c + a.len(), c + a.len() + b.len()) == b,
{
    assert(d.subrange(c, c + a.len()) =~= (a + b).subrange(0, a.len() as int));
    assert(d.subrange(c + a.len(), c + a.len() + b.len()) =~= (a + b).subrange(a.len() as int, (a.len() + b.len()) as int));
}

/// A word reads back from its encoding.
pub proof fn lemma_u32_read_back(v: u32, d: Seq<u8>, c: int)
    requires
        0 <= c,
        c + 4 <= d.len(),
        d.subrange(c, c + 4) == u32_bytes(v),
    ensures
        u32_read(d, true, c) == (v, (true, c + 4)),
{
    lemma_u32_round_trip(v);
}

/// A signed word reads back from its encoding.
pub proof fn lemma_i32_read_back(v: i32, d: Seq<u8>, c: int)
    requires
        0 <= c,
        c + 4 <= d.len(),
        d.subrange(c, c + 4) == i32_bytes(v),
    ensures
        i32_read(d, true, c) == (v, (true, c + 4)),
{
    lemma_u32_round_trip(v as u32);
    lemma_i32_bits(v);
}

/// An 8-byte word reads back from its encoding.
pub proof fn lemma_u64_read_back(v: u64, d: Seq<u8>, c: int)
    requires
        0 <= c,
        c + 8 <= d.len(),
        d.subrange(c, c + 8) == u64_bytes(v),
    ensures
        u64_read_at(d, true, c) == (v, (true, c + 8)),
{
    reveal_with_fuel(pow256, 9);
    lemma_le_round_trip(v as nat, 8);
}

/// A flag reads back from its byte.
pub proof fn lemma_bool_read_back(v: bool, d: Seq<u8>, c: int)
    requires
        0 <= c,
        c + 1 <= d.len(),
        d.subrange(c, c + 1) == seq![bool_byte(v)],
    ensures
        bool_read(d, true, c) == (v, (true, c + 1)),
{
    assert(d[c] == d.subrange(c, c + 1)[0]);
}

/// Read a word. (as `r_u32`, in the reader-state form)
pub(crate) fn read_u32(r: &mut SnapReader) -> (v: u32)
    ensures
        final(r).data@ == old(r).data@,
        (v, (final(r).ok, final(r).cursor as int)) == u32_read(old(r).data@, old(r).ok, old(r).cursor as int),
{
    r.r_u32()
}

/// Read a signed word.
pub(crate) fn read_i32(r: &mut SnapReader) -> (v: i32)
    ensures
        final(r).data@ == old(r).data@,
        (v, (final(r).ok, final(r).cursor as int)) == i32_read(old(r).data@, old(r).ok, old(r).cursor as int),
{
    r.r_i32()
}

/// Read an 8-byte word.
pub(crate) fn read_u64(r: &mut SnapReader) -> (v: u64)
    ensures
        final(r).data@ == old(r).data@,
        (v, (final(r).ok, final(r).cursor as int)) == u64_read_at(old(r).data@, old(r).ok, old(r).cursor as int),
{
    r.r_u64()
}

/// Read a flag.
pub(crate) fn read_bool(r: &mut SnapReader) -> (v: bool)
    ensures
        final(r).data@ == old(r).data@,
        (v, (final(r).ok, final(r).cursor as int)) == bool_read(old(r).data@, old(r).ok, old(r).cursor as int),
{
    r.r_bool()
}

/// A vector read at `(ok, c)`: x, then y.
pub open spec fn vec2_read(d: Seq<u8>, ok: bool, c: int) -> (Vec2, (bool, int)) {
    let (x, s1) = u32_read(d, ok, c);
    let (y, s2) = u32_read(d, s1.0, s1.1);
    (Vec2 { x, y }, s2)
}

/// Read a vector: x, then y.
pub fn r_vec2(r: &mut SnapReader) -> (v: Vec2)
    ensures
        final(r).data@ == old(r).data@,
        (v, (final(r).ok, final(r).cursor as int)) == vec2_read(old(r).data@, old(r).ok, old(r).cursor as int),
{
    let x = read_u32(r);
    let y = read_u32(r);
    Vec2 { x, y }
}

/// A vector reads back from its encoding.
pub proof fn law_vec2_round_trip(v: Vec2, d: Seq<u8>, c: int)
    requires
        0 <= c,
        c + 8 <= d.len(),
        d.subrange(c, c + 8) == vec2_bytes(v),
    ensures
        vec2_read(d, true, c) == (v, (true, c + 8)),
{
    lemma_split(d, c, u32_bytes(v.x), u32_bytes(v.y));
    lemma_u32_read_back(v.x, d, c);
    lemma_u32_read_back(v.y, d, c + 4);
}

/// A rotation read at `(ok, c)`: cosine, then sine.
pub open spec fn rot_read(d: Seq<u8>, ok: bool, c: int) -> (Rot, (bool, int)) {
    let (v, s) = vec2_read(d, ok, c);
    (Rot { c: v.x, s: v.y }, s)
}

/// Read a rotation: cosine, then sine.
pub fn r_rot(r: &mut SnapReader) -> (q: Rot)
    ensures
        final(r).data@ == old(r).data@,
        (q, (final(r).ok, final(r).cursor as int)) == rot_read(old(r).data@, old(r).ok, old(r).cursor as int),
{
    let c = read_u32(r);
    let s = read_u32(r);
    Rot { c, s }
}

/// A rotation reads back from its encoding.
pub proof fn law_rot_round_trip(q: Rot, d: Seq<u8>, c: int)
    requires
        0 <= c,
        c + 8 <= d.len(),
        d.subrange(c, c + 8) == rot_bytes(q),
    ensures
        rot_read(d, true, c) == (q, (true, c + 8)),
{
    law_vec2_round_trip(Vec2 { x: q.c, y: q.s }, d, c);
}

/// A transform read at `(ok, c)`: translation, then rotation.
pub open spec fn xf_read(d: Seq<u8>, ok: bool, c: int) -> (Transform, (bool, int)) {
    let (p, s1) = vec2_read(d, ok, c);
    let (q, s2) = rot_read(d, s1.0, s1.1);
    (Transform { p, q }, s2)
}

/// Read a transform: translation, then rotation.
pub fn r_xf(r: &mut SnapReader) -> (xf: Transform)
    ensures
        final(r).data@ == old(r).data@,
        (xf, (final(r).ok, final(r).cursor as int)) == xf_read(old(r).data@, old(r).ok, old(r).cursor as int),
{
    let p = r_vec2(r);
    let q = r_rot(r);
    Transform { p, q }
}

/// A transform reads back from its encoding.
pub proof fn law_xf_round_trip(xf: Transform, d: Seq<u8>, c: int)
    requires
        0 <= c,
        c + 16 <= d.len(),
        d.subrange(c, c + 16) == xf_bytes(xf),
    ensures
        xf_read(d, true, c) == (xf, (true, c + 16)),
{
    lemma_split(d, c, vec2_bytes(xf.p), rot_bytes(xf.q));
    law_vec2_round_trip(xf.p, d, c);
    law_rot_round_trip(xf.q, d, c + 8);
}

/// A world position; two single precision values in this build.
/// Read a world position: a vector in this build.
pub fn r_position(r: &mut SnapReader) -> (p: Pos)
    ensures
        final(r).data@ == old(r).data@,
        (p, (final(r).ok, final(r).cursor as int)) == vec2_read(old(r).data@, old(r).ok, old(r).cursor as int),
{
    r_vec2(r)
}

/// A world transform; the same as a transform in this build.
/// Read a world transform: a transform in this build.
pub fn r_worldxf(r: &mut SnapReader) -> (xf: WorldTransform)
    ensures
        final(r).data@ == old(r).data@,
        (xf, (final(r).ok, final(r).cursor as int)) == xf_read(old(r).data@, old(r).ok, old(r).cursor as int),
{
    r_xf(r)
}

/// A circle read at `(ok, c)`: center, then radius.
pub open spec fn circle_read(d: Seq<u8>, ok: bool, c: int) -> (Circle, (bool, int)) {
    let (center, s1) = vec2_read(d, ok, c);
    let (radius, s2) = u32_read(d, s1.0, s1.1);
    (Circle { center, radius }, s2)
}

/// Read a circle: center, then radius.
pub fn r_circle(r: &mut SnapReader) -> (v: Circle)
    ensures
        final(r).data@ == old(r).data@,
        (v, (final(r).ok, final(r).cursor as int)) == circle_read(old(r).data@, old(r).ok, old(r).cursor as int),
{
    let center = r_vec2(r);
    let radius = read_u32(r);
    Circle { center, radius }
}

/// A circle reads back from its encoding.
pub proof fn law_circle_round_trip(v: Circle, d: Seq<u8>, c: int)
    requires
        0 <= c,
        c + 12 <= d.len(),
        d.subrange(c, c + 12) == circle_bytes(v),
    ensures
        circle_read(d, true, c) == (v, (true, c + 12)),
{
    lemma_split(d, c, vec2_bytes(v.center), u32_bytes(v.radius));
    law_vec2_round_trip(v.center, d, c);
    lemma_u32_read_back(v.radius, d, c + 8);
}

/// A capsule read at `(ok, c)`: both centers, then radius.
pub open spec fn capsule_read(d: Seq<u8>, ok: bool, c: int) -> (Capsule, (bool, int)) {
    let (center1, s1) = vec2_read(d, ok, c);
    let (center2, s2) = vec2_read(d, s1.0, s1.1);
    let (radius, s3) = u32_read(d, s2.0, s2.1);
    (Capsule { center1, center2, radius }, s3)
}

/// Read a capsule: the two centers, then the radius.
pub fn r_capsule(r: &mut SnapReader) -> (v: Capsule)
    ensures
        final(r).data@ == old(r).data@,
        (v, (final(r).ok, final(r).cursor as int)) == capsule_read(old(r).data@, old(r).ok, old(r).cursor as int),
{
    let center1 = r_vec2(r);
    let center2 = r_vec2(r);
    let radius = read_u32(r);
    Capsule { center1, center2, radius }
}

/// A capsule reads back from its encoding.
pub proof fn law_capsule_round_trip(v: Capsule, d: Seq<u8>, c: int)
    requires
        0 <= c,
        c + 20 <= d.len(),
        d.subrange(c, c + 20) == capsule_bytes(v),
    ensures
        capsule_read(d, true, c) == (v, (true, c + 20)),
{
    lemma_split(d, c, vec2_bytes(v.center1) + vec2_bytes(v.center2), u32_bytes(v.radius));
    lemma_split(d, c, vec2_bytes(v.center1), vec2_bytes(v.center2));
    law_vec2_round_trip(v.center1, d, c);
    law_vec2_round_trip(v.center2, d, c + 8);
    lemma_u32_read_back(v.radius, d, c + 16);
}

/// A segment read at `(ok, c)`: both points.
pub open spec fn segment_read(d: Seq<u8>, ok: bool, c: int) -> (Segment, (bool, int)) {
    let (point1, s1) = vec2_read(d, ok, c);
    let (point2, s2) = vec2_read(d, s1.0, s1.1);
    (Segment { point1, point2 }, s2)
}

/// Read a segment: its two points.
pub fn r_segment(r: &mut SnapReader) -> (v: Segment)
    ensures
        final(r).data@ == old(r).data@,
        (v, (final(r).ok, final(r).cursor as int)) == segment_read(old(r).data@, old(r).ok, old(r).cursor as int),
{
    let point1 = r_vec2(r);
    let point2 = r_vec2(r);
    Segment { point1, point2 }
}

/// A segment reads back from its encoding.
pub proof fn law_segment_round_trip(v: Segment, d: Seq<u8>, c: int)
    requires
        0 <= c,
        c + 16 <= d.len(),
        d.subrange(c, c + 16) == segment_bytes(v),
    ensures
        segment_read(d, true, c) == (v, (true, c + 16)),
{
    lemma_split(d, c, vec2_bytes(v.point1), vec2_bytes(v.point2));
    law_vec2_round_trip(v.point1, d, c);
    law_vec2_round_trip(v.point2, d, c + 8);
}

/// A chain segment read at `(ok, c)`: first ghost, segment, second ghost,
/// owning chain.
pub open spec fn chain_segment_read(d: Seq<u8>, ok: bool, c: int) -> (ChainSegment, (bool, int)) {
    let (ghost1, s1) = vec2_read(d, ok, c);
    let (segment, s2) = segment_read(d, s1.0, s1.1);
    let (ghost2, s3) = vec2_read(d, s2.0, s2.1);
    let (chain_id, s4) = i32_read(d, s3.0, s3.1);
    (ChainSegment { ghost1, segment, ghost2, chain_id }, s4)
}

/// Read a chain segment: ghost, segment, ghost, chain id.
pub fn r_chain_segment(r: &mut SnapReader) -> (v: ChainSegment)
    ensures
        final(r).data@ == old(r).data@,
        (v, (final(r).ok, final(r).cursor as int)) == chain_segment_read(old(r).data@, old(r).ok, old(r).cursor as int),
{
    let ghost1 = r_vec2(r);
    let segment = r_segment(r);
    let ghost2 = r_vec2(r);
    let chain_id = read_i32(r);
    ChainSegment { ghost1, segment, ghost2, chain_id }
}

/// A chain segment reads back from its encoding.
pub proof fn law_chain_segment_round_trip(v: ChainSegment, d: Seq<u8>, c: int)
    requires
        0 <= c,
        c + 36 <= d.len(),
        d.subrange(c, c + 36) == chain_segment_bytes(v),
    ensures
        chain_segment_read(d, true, c) == (v, (true, c + 36)),
{
    let a = vec2_bytes(v.ghost1);
    let b = segment_bytes(v.segment);
    let e = vec2_bytes(v.ghost2);
    lemma_split(d, c, a + b + e, i32_bytes(v.chain_id));
    lemma_split(d, c, a + b, e);
    lemma_split(d, c, a, b);
    law_vec2_round_trip(v.ghost1, d, c);
    law_segment_round_trip(v.segment, d, c + 8);
    law_vec2_round_trip(v.ghost2, d, c + 24);
    lemma_i32_read_back(v.chain_id, d, c + 32);
}

/// A bounding box read at `(ok, c)`: lower bound, then upper bound.
pub open spec fn aabb_read(d: Seq<u8>, ok: bool, c: int) -> (Aabb, (bool, int)) {
    let (lower_bound, s1) = vec2_read(d, ok, c);
    let (upper_bound, s2) = vec2_read(d, s1.0, s1.1);
    (Aabb { lower_bound, upper_bound }, s2)
}

/// Read a bounding box: lower bound, then upper bound.
pub fn r_aabb(r: &mut SnapReader) -> (v: Aabb)
    ensures
        final(r).data@ == old(r).data@,
        (v, (final(r).ok, final(r).cursor as int)) == aabb_read(old(r).data@, old(r).ok, old(r).cursor as int),
{
    let lower_bound = r_vec2(r);
    let upper_bound = r_vec2(r);
    Aabb { lower_bound, upper_bound }
}

/// A bounding box reads back from its encoding.
pub proof fn law_aabb_round_trip(v: Aabb, d: Seq<u8>, c: int)
    requires
        0 <= c,
        c + 16 <= d.len(),
        d.subrange(c, c + 16) == aabb_bytes(v),
    ensures
        aabb_read(d, true, c) == (v, (true, c + 16)),
{
    lemma_split(d, c, vec2_bytes(v.lower_bound), vec2_bytes(v.upper_bound));
    law_vec2_round_trip(v.lower_bound, d, c);
    law_vec2_round_trip(v.upper_bound, d, c + 8);
}

/// A shape id read at `(ok, c)`: its packed 64-bit form.
pub open spec fn shape_id_read(d: Seq<u8>, ok: bool, c: int) -> (ShapeId, (bool, int)) {
    let (x, s) = u64_read_at(d, ok, c);
    (shape_id_from(x), s)
}

/// Read a shape id in its packed 64-bit form.
pub fn r_shape_id(r: &mut SnapReader) -> (id: ShapeId)
    ensures
        final(r).data@ == old(r).data@,
        (id, (final(r).ok, final(r).cursor as int)) == shape_id_read(old(r).data@, old(r).ok, old(r).cursor as int),
{
    ShapeId::load(read_u64(r))
}

/// A shape id reads back from its encoding.
pub proof fn law_shape_id_round_trip(id: ShapeId, d: Seq<u8>, c: int)
    requires
        0 <= c,
        c + 8 <= d.len(),
        d.subrange(c, c + 8) == id64_bytes(id.index1, id.world0, id.generation),
    ensures
        shape_id_read(d, true, c) == (id, (true, c + 8)),
{
    lemma_u64_read_back(pack_id64(id.index1, id.world0, id.generation), d, c);
    crate::id::lemma_id64_round_trip(id.index1, id.world0, id.generation);
}

/// `n` vectors read in turn from `(ok, c)`.
pub open spec fn vec2s_read(d: Seq<u8>, ok: bool, c: int, n: nat) -> (Seq<Vec2>, (bool, int))
    decreases n,
{
    if n == 0 {
        (Seq::empty(), (ok, c))
    } else {
        let (prev, s) = vec2s_read(d, ok, c, (n - 1) as nat);
        let (v, s2) = vec2_read(d, s.0, s.1);
        (prev.push(v), s2)
    }
}

/// A run of `n` vector reads gives `n` vectors.
pub proof fn lemma_vec2s_read_len(d: Seq<u8>, ok: bool, c: int, n: nat)
    ensures
        vec2s_read(d, ok, c, n).0.len() == n,
    decreases n,
{
    if n > 0 {
        lemma_vec2s_read_len(d, ok, c, (n - 1) as nat);
    }
}

/// Read `n` vectors in turn.
pub(crate) fn read_vec2s(r: &mut SnapReader, n: usize) -> (vs: Vec<Vec2>)
    ensures
        final(r).data@ == old(r).data@,
        (vs@, (final(r).ok, final(r).cursor as int)) == vec2s_read(old(r).data@, old(r).ok, old(r).cursor as int, n as nat),
{
    let ghost d = old(r).data@;
    let ghost s0 = (old(r).ok, old(r).cursor as int);
    let mut vs: Vec<Vec2> = Vec::new();
    let mut i: usize = 0;
    while i < n
        invariant
            0 <= i <= n,
            r.data@ == d,
            (vs@, (r.ok, r.cursor as int)) == vec2s_read(d, s0.0, s0.1, i as nat),
        decreases n - i,
    {
        let v = r_vec2(r);
        vs.push(v);
        i = i + 1;
    }
    vs
}

/// A run of vectors reads back from its encoding.
pub proof fn law_vec2s_round_trip(s: Seq<Vec2>, d: Seq<u8>, c: int)
    requires
        0 <= c,
        c + 8 * s.len() <= d.len(),
        d.subrange(c, c + 8 * s.len()) == vec2s_bytes(s),
    ensures
        vec2s_read(d, true, c, s.len()) == (s, (true, c + 8 * s.len())),
    decreases s.len(),
{
    if s.len() > 0 {
        let prev = s.drop_last();
        lemma_vec2s_len(prev);
        lemma_split(d, c, vec2s_bytes(prev), vec2_bytes(s.last()));
        law_vec2s_round_trip(prev, d, c);
        law_vec2_round_trip(s.last(), d, c + 8 * prev.len());
        assert(prev.push(s.last()) =~= s);
    }
}

/// A polygon read at `(ok, c)`: every vertex slot, every normal slot, the
/// centroid, the radius and the count.
pub open spec fn polygon_read(d: Seq<u8>, ok: bool, c: int) -> (Polygon, (bool, int)) {
    let (vs, s1) = vec2s_read(d, ok, c, 8);
    let (ns, s2) = vec2s_read(d, s1.0, s1.1, 8);
    let (centroid, s3) = vec2_read(d, s2.0, s2.1);
    let (radius, s4) = u32_read(d, s3.0, s3.1);
    let (count, s5) = i32_read(d, s4.0, s4.1);
    (Polygon {
        vertices: [vs[0], vs[1], vs[2], vs[3], vs[4], vs[5], vs[6], vs[7]],
        normals: [ns[0], ns[1], ns[2], ns[3], ns[4], ns[5], ns[6], ns[7]],
        centroid,
        radius,
        count,
    }, s5)
}

/// Read a polygon, every vertex and normal slot included.
pub fn r_polygon(r: &mut SnapReader) -> (p: Polygon)
    ensures
        final(r).data@ == old(r).data@,
        (p, (final(r).ok, final(r).cursor as int)) == polygon_read(old(r).data@, old(r).ok, old(r).cursor as int),
{
    let vs = read_vec2s(r, 8);
    let ns = read_vec2s(r, 8);
    let centroid = r_vec2(r);
    let radius = read_u32(r);
    let count = read_i32(r);
    proof {
        lemma_vec2s_read_len(old(r).data@, old(r).ok, old(r).cursor as int, 8);
        lemma_vec2s_read_len(old(r).data@, vec2s_read(old(r).data@, old(r).ok, old(r).cursor as int, 8).1.0,
            vec2s_read(old(r).data@, old(r).ok, old(r).cursor as int, 8).1.1, 8);
    }
    Polygon {
        vertices: [vs[0], vs[1], vs[2], vs[3], vs[4], vs[5], vs[6], vs[7]],
        normals: [ns[0], ns[1], ns[2], ns[3], ns[4], ns[5], ns[6], ns[7]],
        centroid,
        radius,
        count,
    }
}

/// A polygon reads back from its encoding, every slot included.
pub proof fn law_polygon_round_trip(p: Polygon, d: Seq<u8>, c: int)
    requires
        0 <= c,
        c + 144 <= d.len(),
        d.subrange(c, c + 144) == polygon_bytes(p),
    ensures
        polygon_read(d, true, c) == (p, (true, c + 144)),
{
    let vb = vec2s_bytes(p.vertices@);
    let nb = vec2s_bytes(p.normals@);
    lemma_vec2s_len(p.vertices@);
    lemma_vec2s_len(p.normals@);
    lemma_split(d, c, vb + nb + vec2_bytes(p.centroid) + u32_bytes(p.radius), i32_bytes(p.count));
    lemma_split(d, c, vb + nb + vec2_bytes(p.centroid), u32_bytes(p.radius));
    lemma_split(d, c, vb + nb, vec2_bytes(p.centroid));
    lemma_split(d, c, vb, nb);
    law_vec2s_round_trip(p.vertices@, d, c);
    law_vec2s_round_trip(p.normals@, d, c + 64);
    law_vec2_round_trip(p.centroid, d, c + 128);
    lemma_u32_read_back(p.radius, d, c + 136);
    lemma_i32_read_back(p.count, d, c + 140);
    let q = polygon_read(d, true, c).0;
    assert(q.vertices =~= p.vertices);
    assert(q.normals =~= p.normals);
}

/// A ray result read at `(ok, c)`: shape id, point, normal, fraction, node
/// and leaf visits, hit flag.
pub open spec fn ray_result_read(d: Seq<u8>, ok: bool, c: int) -> (RayResult, (bool, int)) {
    let (shape_id, s1) = shape_id_read(d, ok, c);
    let (point, s2) = vec2_read(d, s1.0, s1.1);
    let (normal, s3) = vec2_read(d, s2.0, s2.1);
    let (fraction, s4) = u32_read(d, s3.0, s3.1);
    let (node_visits, s5) = i32_read(d, s4.0, s4.1);
    let (leaf_visits, s6) = i32_read(d, s5.0, s5.1);
    let (hit, s7) = bool_read(d, s6.0, s6.1);
    (RayResult { shape_id, point, normal, fraction, node_visits, leaf_visits, hit }, s7)
}

/// Read a ray result.
pub fn r_ray_result(r: &mut SnapReader) -> (v: RayResult)
    ensures
        final(r).data@ == old(r).data@,
        (v, (final(r).ok, final(r).cursor as int)) == ray_result_read(old(r).data@, old(r).ok, old(r).cursor as int),
{
    let shape_id = r_shape_id(r);
    let point = r_position(r);
    let normal = r_vec2(r);
    let fraction = read_u32(r);
    let node_visits = read_i32(r);
    let leaf_visits = read_i32(r);
    let hit = read_bool(r);
    RayResult { shape_id, point, normal, fraction, node_visits, leaf_visits, hit }
}

/// A ray result reads back from its encoding.
pub proof fn law_ray_result_round_trip(v: RayResult, d: Seq<u8>, c: int)
    requires
        0 <= c,
        c + 37 <= d.len(),
        d.subrange(c, c + 37) == ray_result_bytes(v),
    ensures
        ray_result_read(d, true, c) == (v, (true, c + 37)),
{
    let a = id64_bytes(v.shape_id.index1, v.shape_id.world0, v.shape_id.generation);
    let b = vec2_bytes(v.point);
    let e = vec2_bytes(v.normal);
    let f = u32_bytes(v.fraction);
    let g = i32_bytes(v.node_visits);
    let h = i32_bytes(v.leaf_visits);
    lemma_split(d, c, a + b + e + f + g + h, seq![bool_byte(v.hit)]);
    lemma_split(d, c, a + b + e + f + g, h);
    lemma_split(d, c, a + b + e + f, g);
    lemma_split(d, c, a + b + e, f);
    lemma_split(d, c, a + b, e);
    lemma_split(d, c, a, b);
    law_shape_id_round_trip(v.shape_id, d, c);
    law_vec2_round_trip(v.point, d, c + 8);
    law_vec2_round_trip(v.normal, d, c + 16);
    lemma_u32_read_back(v.fraction, d, c + 24);
    lemma_i32_read_back(v.node_visits, d, c + 28);
    lemma_i32_read_back(v.leaf_visits, d, c + 32);
    lemma_bool_read_back(v.hit, d, c + 36);
}

/// A world cast output read at `(ok, c)`: normal, point, fraction,
/// iterations, hit flag.
pub open spec fn world_cast_output_read(d: Seq<u8>, ok: bool, c: int) -> (WorldCastOutput, (bool, int)) {
    let (normal, s1) = vec2_read(d, ok, c);
    let (point, s2) = vec2_read(d, s1.0, s1.1);
    let (fraction, s3) = u32_read(d, s2.0, s2.1);
    let (iterations, s4) = i32_read(d, s3.0, s3.1);
    let (hit, s5) = bool_read(d, s4.0, s4.1);
    (WorldCastOutput { normal, point, fraction, iterations, hit }, s5)
}

/// Read a world cast output.
pub fn r_world_cast_output(r: &mut SnapReader) -> (v: WorldCastOutput)
    ensures
        final(r).data@ == old(r).data@,
        (v, (final(r).ok, final(r).cursor as int)) == world_cast_output_read(old(r).data@, old(r).ok, old(r).cursor as int),
{
    let normal = r_vec2(r);
    let point = r_position(r);
    let fraction = read_u32(r);
    let iterations = read_i32(r);
    let hit = read_bool(r);
    WorldCastOutput { normal, point, fraction, iterations, hit }
}

/// A world cast output reads back from its encoding.
pub proof fn law_world_cast_output_round_trip(v: WorldCastOutput, d: Seq<u8>, c: int)
    requires
        0 <= c,
        c + 25 <= d.len(),
        d.subrange(c, c + 25) == world_cast_output_bytes(v),
    ensures
        world_cast_output_read(d, true, c) == (v, (true, c + 25)),
{
    let a = vec2_bytes(v.normal);
    let b = vec2_bytes(v.point);
    let e = u32_bytes(v.fraction);
    let f = i32_bytes(v.iterations);
    lemma_split(d, c, a + b + e + f, seq![bool_byte(v.hit)]);
    lemma_split(d, c, a + b + e, f);
    lemma_split(d, c, a + b, e);
    lemma_split(d, c, a, b);
    law_vec2_round_trip(v.normal, d, c);
    law_vec2_round_trip(v.point, d, c + 8);
    lemma_u32_read_back(v.fraction, d, c + 16);
    lemma_i32_read_back(v.iterations, d, c + 20);
    lemma_bool_read_back(v.hit, d, c + 24);
}

/// The `i`-th of the vectors read, or the zero vector past them.
pub open spec fn point_or_zero(ps: Seq<Vec2>, i: int) -> Vec2 {
    if 0 <= i < ps.len() {
        ps[i]
    } else {
        Vec2 { x: 0, y: 0 }
    }
}

/// A shape proxy read at `(ok, c)`: a count clamped to the point slots,
/// that many points (the rest zero), the radius.
pub open spec fn proxy_read(d: Seq<u8>, ok: bool, c: int) -> (ShapeProxy, (bool, int)) {
    let (n, s1) = i32_read(d, ok, c);
    let count: i32 = if n < 0 { 0 } else if n > 8 { 8 } else { n };
    let (ps, s2) = vec2s_read(d, s1.0, s1.1, count as nat);
    let (radius, s3) = u32_read(d, s2.0, s2.1);
    (ShapeProxy { points: [point_or_zero(ps, 0), point_or_zero(ps, 1), point_or_zero(ps, 2), point_or_zero(ps, 3), point_or_zero(ps, 4), point_or_zero(ps, 5), point_or_zero(ps, 6), point_or_zero(ps, 7)], count, radius }, s3)
}

/// Read a shape proxy, its count clamped to the point slots.
pub fn r_proxy(r: &mut SnapReader) -> (v: ShapeProxy)
    ensures
        final(r).data@ == old(r).data@,
        (v, (final(r).ok, final(r).cursor as int)) == proxy_read(old(r).data@, old(r).ok, old(r).cursor as int),
{
    let count = clamp_int(read_i32(r), 0, 8);
    let ghost s1 = (r.ok, r.cursor as int);
    let ps = read_vec2s(r, count as usize);
    proof {
        lemma_vec2s_read_len(old(r).data@, s1.0, s1.1, count as nat);
    }
    let radius = read_u32(r);
    let zero = Vec2 { x: 0, y: 0 };
    let points = [if 0 < ps.len() { ps[0] } else { zero }, if 1 < ps.len() { ps[1] } else { zero }, if 2 < ps.len() { ps[2] } else { zero }, if 3 < ps.len() { ps[3] } else { zero }, if 4 < ps.len() { ps[4] } else { zero }, if 5 < ps.len() { ps[5] } else { zero }, if 6 < ps.len() { ps[6] } else { zero }, if 7 < ps.len() { ps[7] } else { zero }];
    let v = ShapeProxy { points, count, radius };
    assert(v.points =~= proxy_read(old(r).data@, old(r).ok, old(r).cursor as int).0.points);
    v
}

/// A shape proxy reads back from its encoding with its count clamped to
/// the point slots, the points it uses, zero in the slots it does not use,
/// and its radius.
pub proof fn law_proxy_round_trip(v: ShapeProxy, d: Seq<u8>, c: int)
    requires
        0 <= c,
        c + 8 + 8 * proxy_count(v) <= d.len(),
        d.subrange(c, c + 8 + 8 * proxy_count(v)) == shape_proxy_bytes(v),
    ensures
        proxy_read(d, true, c).1 == (true, c + 8 + 8 * proxy_count(v)),
        proxy_read(d, true, c).0.count == proxy_count(v),
        proxy_read(d, true, c).0.radius == v.radius,
        forall|i: int| 0 <= i < 8 ==> #[trigger] proxy_read(d, true, c).0.points@[i] == if i < proxy_count(v) {
            v.points@[i]
        } else {
            Vec2 { x: 0, y: 0 }
        },
{
    let n = proxy_count(v);
    let used = v.points@.take(n);
    let a = i32_bytes(n as i32);
    let b = vec2s_bytes(used);
    lemma_vec2s_len(used);
    lemma_split(d, c, a + b, u32_bytes(v.radius));
    lemma_split(d, c, a, b);
    lemma_i32_read_back(n as i32, d, c);
    law_vec2s_round_trip(used, d, c + 4);
    lemma_u32_read_back(v.radius, d, c + 4 + 8 * n);
}

/// The byte at `c + k` of `d`, where `s` sits at `c`.
pub proof fn lemma_byte_at(d: Seq<u8>, c: int, s: Seq<u8>, k: int)
    requires
        0 <= c,
        c + s.len() <= d.len(),
        d.subrange(c, c + s.len()) == s,
        0 <= k < s.len(),
    ensures
        d[c + k] == s[k],
{
    assert(d[c + k] == d.subrange(c, c + s.len())[k]);
}

/// A filter read at `(ok, c)`: category, mask, group.
pub open spec fn filter_read(d: Seq<u8>, ok: bool, c: int) -> (Filter, (bool, int)) {
    let (category_bits, s1) = u64_read_at(d, ok, c);
    let (mask_bits, s2) = u64_read_at(d, s1.0, s1.1);
    let (group_index, s3) = i32_read(d, s2.0, s2.1);
    (Filter { category_bits, mask_bits, group_index }, s3)
}

/// A filter reads back from its encoding.
pub proof fn law_filter_round_trip(f: Filter, d: Seq<u8>, c: int)
    requires
        0 <= c,
        c + 20 <= d.len(),
        d.subrange(c, c + 20) == filter_bytes(f),
    ensures
        filter_read(d, true, c) == (f, (true, c + 20)),
{
    lemma_split(d, c, u64_bytes(f.category_bits) + u64_bytes(f.mask_bits), i32_bytes(f.group_index));
    lemma_split(d, c, u64_bytes(f.category_bits), u64_bytes(f.mask_bits));
    lemma_u64_read_back(f.category_bits, d, c);
    lemma_u64_read_back(f.mask_bits, d, c + 8);
    lemma_i32_read_back(f.group_index, d, c + 16);
}

/// A surface material read at `(ok, c)`: the four coefficients, the user
/// material id, the custom color.
pub open spec fn material_read(d: Seq<u8>, ok: bool, c: int) -> (SurfaceMaterial, (bool, int)) {
    let (friction, s1) = u32_read(d, ok, c);
    let (restitution, s2) = u32_read(d, s1.0, s1.1);
    let (rolling_resistance, s3) = u32_read(d, s2.0, s2.1);
    let (tangent_speed, s4) = u32_read(d, s3.0, s3.1);
    let (user_material_id, s5) = u64_read_at(d, s4.0, s4.1);
    let (custom_color, s6) = u32_read(d, s5.0, s5.1);
    (SurfaceMaterial { friction, restitution, rolling_resistance, tangent_speed, user_material_id, custom_color }, s6)
}

/// Read a surface material, in the reader-state form.
pub(crate) fn read_material(r: &mut SnapReader) -> (m: SurfaceMaterial)
    ensures
        final(r).data@ == old(r).data@,
        (m, (final(r).ok, final(r).cursor as int)) == material_read(old(r).data@, old(r).ok, old(r).cursor as int),
{
    r_material(r)
}

/// A surface material reads back from its encoding.
pub proof fn law_material_round_trip(m: SurfaceMaterial, d: Seq<u8>, c: int)
    requires
        0 <= c,
        c + 28 <= d.len(),
        d.subrange(c, c + 28) == material_bytes(m),
    ensures
        material_read(d, true, c) == (m, (true, c + 28)),
{
    let a = u32_bytes(m.friction);
    let b = u32_bytes(m.restitution);
    let e = u32_bytes(m.rolling_resistance);
    let f = u32_bytes(m.tangent_speed);
    let g = u64_bytes(m.user_material_id);
    lemma_split(d, c, a + b + e + f + g, u32_bytes(m.custom_color));
    lemma_split(d, c, a + b + e + f, g);
    lemma_split(d, c, a + b + e, f);
    lemma_split(d, c, a + b, e);
    lemma_split(d, c, a, b);
    lemma_u32_read_back(m.friction, d, c);
    lemma_u32_read_back(m.restitution, d, c + 4);
    lemma_u32_read_back(m.rolling_resistance, d, c + 8);
    lemma_u32_read_back(m.tangent_speed, d, c + 12);
    lemma_u64_read_back(m.user_material_id, d, c + 16);
    lemma_u32_read_back(m.custom_color, d, c + 24);
}

/// A shape definition read at `(ok, c)`: user data, material, density,
/// filter, then its eight switches.
pub open spec fn shape_def_read(d: Seq<u8>, ok: bool, c: int) -> (ShapeDef, (bool, int)) {
    let (user_data, s1) = u64_read_at(d, ok, c);
    let (material, s2) = material_read(d, s1.0, s1.1);
    let (density, s3) = u32_read(d, s2.0, s2.1);
    let (filter, s4) = filter_read(d, s3.0, s3.1);
    let (enable_custom_filtering, s5) = bool_read(d, s4.0, s4.1);
    let (is_sensor, s6) = bool_read(d, s5.0, s5.1);
    let (enable_sensor_events, s7) = bool_read(d, s6.0, s6.1);
    let (enable_contact_events, s8) = bool_read(d, s7.0, s7.1);
    let (enable_hit_events, s9) = bool_read(d, s8.0, s8.1);
    let (enable_pre_solve_events, s10) = bool_read(d, s9.0, s9.1);
    let (invoke_contact_creation, s11) = bool_read(d, s10.0, s10.1);
    let (update_body_mass, s12) = bool_read(d, s11.0, s11.1);
    (ShapeDef {
        user_data,
        material,
        density,
        filter,
        enable_custom_filtering,
        is_sensor,
        enable_sensor_events,
        enable_contact_events,
        enable_hit_events,
        enable_pre_solve_events,
        invoke_contact_creation,
        update_body_mass,
    }, s12)
}

/// Read a shape definition, every field in wire order.
pub fn r_shape_def(r: &mut SnapReader) -> (def: ShapeDef)
    ensures
        final(r).data@ == old(r).data@,
        (def, (final(r).ok, final(r).cursor as int)) == shape_def_read(old(r).data@, old(r).ok, old(r).cursor as int),
{
    let user_data = read_u64(r);
    let material = read_material(r);
    let density = read_u32(r);
    let filter = r_filter(r);
    let enable_custom_filtering = read_bool(r);
    let is_sensor = read_bool(r);
    let enable_sensor_events = read_bool(r);
    let enable_contact_events = read_bool(r);
    let enable_hit_events = read_bool(r);
    let enable_pre_solve_events = read_bool(r);
    let invoke_contact_creation = read_bool(r);
    let update_body_mass = read_bool(r);
    ShapeDef {
        user_data,
        material,
        density,
        filter,
        enable_custom_filtering,
        is_sensor,
        enable_sensor_events,
        enable_contact_events,
        enable_hit_events,
        enable_pre_solve_events,
        invoke_contact_creation,
        update_body_mass,
    }
}

/// Eight switches sitting at `c` read back in turn.
proof fn lemma_flags_read_back(d: Seq<u8>, c: int, f: Seq<bool>)
    requires
        0 <= c,
        c + 8 <= d.len(),
        f.len() == 8,
        forall|k: int| 0 <= k < 8 ==> d[c + k] == bool_byte(#[trigger] f[k]),
    ensures
        forall|k: int| 0 <= k < 8 ==> #[trigger] bool_read(d, true, c + k) == (f[k], (true, c + k + 1)),
{
    assert forall|k: int| 0 <= k < 8 implies #[trigger] bool_read(d, true, c + k) == (f[k], (true, c + k + 1)) by {
        assert(d[c + k] == bool_byte(f[k]));
    }
}

/// A shape definition reads back from its encoding, its user data as zero.
pub proof fn law_shape_def_round_trip(v: ShapeDef, d: Seq<u8>, c: int)
    requires
        0 <= c,
        c + 68 <= d.len(),
        d.subrange(c, c + 68) == shape_def_bytes(v),
    ensures
        shape_def_read(d, true, c) == (ShapeDef { user_data: 0, ..v }, (true, c + 68)),
{
    let a = u64_bytes(0);
    let b = material_bytes(v.material);
    let e = u32_bytes(v.density);
    let f = filter_bytes(v.filter);
    let g = shape_def_flag_bytes(v);
    lemma_split(d, c, a + b + e + f, g);
    lemma_split(d, c, a + b + e, f);
    lemma_split(d, c, a + b, e);
    lemma_split(d, c, a, b);
    lemma_u64_read_back(0, d, c);
    law_material_round_trip(v.material, d, c + 8);
    lemma_u32_read_back(v.density, d, c + 36);
    law_filter_round_trip(v.filter, d, c + 40);
    let flags = seq![v.enable_custom_filtering, v.is_sensor, v.enable_sensor_events, v.enable_contact_events,
        v.enable_hit_events, v.enable_pre_solve_events, v.invoke_contact_creation, v.update_body_mass];
    assert forall|k: int| 0 <= k < 8 implies d[c + 60 + k] == bool_byte(#[trigger] flags[k]) by {
        lemma_byte_at(d, c + 60, g, k);
    }
    lemma_flags_read_back(d, c + 60, flags);
    assert(bool_read(d, true, c + 60 + 0) == (flags[0], (true, c + 60 + 0 + 1)));
    assert(bool_read(d, true, c + 60 + 1) == (flags[1], (true, c + 60 + 1 + 1)));
    assert(bool_read(d, true, c + 60 + 2) == (flags[2], (true, c + 60 + 2 + 1)));
    assert(bool_read(d, true, c + 60 + 3) == (flags[3], (true, c + 60 + 3 + 1)));
    assert(bool_read(d, true, c + 60 + 4) == (flags[4], (true, c + 60 + 4 + 1)));
    assert(bool_read(d, true, c + 60 + 5) == (flags[5], (true, c + 60 + 5 + 1)));
    assert(bool_read(d, true, c + 60 + 6) == (flags[6], (true, c + 60 + 6 + 1)));
    assert(bool_read(d, true, c + 60 + 7) == (flags[7], (true, c + 60 + 7 + 1)));
}

/// A body id read at `(ok, c)`: its packed 64-bit form.
pub open spec fn body_id_read(d: Seq<u8>, ok: bool, c: int) -> (BodyId, (bool, int)) {
    let (x, s) = u64_read_at(d, ok, c);
    (body_id_from(x), s)
}

/// A body id reads back from its encoding.
pub proof fn law_body_id_round_trip(id: BodyId, d: Seq<u8>, c: int)
    requires
        0 <= c,
        c + 8 <= d.len(),
        d.subrange(c, c + 8) == id64_bytes(id.index1, id.world0, id.generation),
    ensures
        body_id_read(d, true, c) == (id, (true, c + 8)),
{
    lemma_u64_read_back(pack_id64(id.index1, id.world0, id.generation), d, c);
    crate::id::lemma_id64_round_trip(id.index1, id.world0, id.generation);
}

/// The shared part of a joint definition read at `(ok, c)`: user data, the
/// two body ids, the two local frames, the five real parameters, the
/// collide-connected switch.
pub open spec fn joint_base_read(d: Seq<u8>, ok: bool, c: int) -> (JointDef, (bool, int)) {
    let (user_data, s1) = u64_read_at(d, ok, c);
    let (body_id_a, s2) = body_id_read(d, s1.0, s1.1);
    let (body_id_b, s3) = body_id_read(d, s2.0, s2.1);
    let (local_frame_a, s4) = xf_read(d, s3.0, s3.1);
    let (local_frame_b, s5) = xf_read(d, s4.0, s4.1);
    let (force_threshold, s6) = u32_read(d, s5.0, s5.1);
    let (torque_threshold, s7) = u32_read(d, s6.0, s6.1);
    let (constraint_hertz, s8) = u32_read(d, s7.0, s7.1);
    let (constraint_damping_ratio, s9) = u32_read(d, s8.0, s8.1);
    let (draw_scale, s10) = u32_read(d, s9.0, s9.1);
    let (collide_connected, s11) = bool_read(d, s10.0, s10.1);
    (JointDef {
        user_data,
        body_id_a,
        body_id_b,
        local_frame_a,
        local_frame_b,
        force_threshold,
        torque_threshold,
        constraint_hertz,
        constraint_damping_ratio,
        draw_scale,
        collide_connected,
    }, s11)
}

/// Read the part every joint definition shares.
pub fn r_joint_base(r: &mut SnapReader) -> (base: JointDef)
    ensures
        final(r).data@ == old(r).data@,
        (base, (final(r).ok, final(r).cursor as int)) == joint_base_read(old(r).data@, old(r).ok, old(r).cursor as int),
{
    let user_data = read_u64(r);
    let body_id_a = BodyId::load(read_u64(r));
    let body_id_b = BodyId::load(read_u64(r));
    let local_frame_a = r_xf(r);
    let local_frame_b = r_xf(r);
    let force_threshold = read_u32(r);
    let torque_threshold = read_u32(r);
    let constraint_hertz = read_u32(r);
    let constraint_damping_ratio = read_u32(r);
    let draw_scale = read_u32(r);
    let collide_connected = read_bool(r);
    JointDef {
        user_data,
        body_id_a,
        body_id_b,
        local_frame_a,
        local_frame_b,
        force_threshold,
        torque_threshold,
        constraint_hertz,
        constraint_damping_ratio,
        draw_scale,
        collide_connected,
    }
}

/// The shared part of a joint definition reads back from its encoding, its
/// user data as zero.
pub proof fn law_joint_base_round_trip(v: JointDef, d: Seq<u8>, c: int)
    requires
        0 <= c,
        c + 77 <= d.len(),
        d.subrange(c, c + 77) == joint_base_bytes(v),
    ensures
        joint_base_read(d, true, c) == (JointDef { user_data: 0, ..v }, (true, c + 77)),
{
    let a = u64_bytes(0);
    let b = id64_bytes(v.body_id_a.index1, v.body_id_a.world0, v.body_id_a.generation);
    let e = id64_bytes(v.body_id_b.index1, v.body_id_b.world0, v.body_id_b.generation);
    let f = xf_bytes(v.local_frame_a);
    let g = xf_bytes(v.local_frame_b);
    let h = u32_bytes(v.force_threshold);
    let i = u32_bytes(v.torque_threshold);
    let j = u32_bytes(v.constraint_hertz);
    let k = u32_bytes(v.constraint_damping_ratio);
    let l = u32_bytes(v.draw_scale);
    lemma_split(d, c, a + b + e + f + g + h + i + j + k + l, seq![bool_byte(v.collide_connected)]);
    lemma_split(d, c, a + b + e + f + g + h + i + j + k, l);
    lemma_split(d, c, a + b + e + f + g + h + i + j, k);
    lemma_split(d, c, a + b + e + f + g + h + i, j);
    lemma_split(d, c, a + b + e + f + g + h, i);
    lemma_split(d, c, a + b + e + f + g, h);
    lemma_split(d, c, a + b + e + f, g);
    lemma_split(d, c, a + b + e, f);
    lemma_split(d, c, a + b, e);
    lemma_split(d, c, a, b);
    lemma_u64_read_back(0, d, c);
    law_body_id_round_trip(v.body_id_a, d, c + 8);
    law_body_id_round_trip(v.body_id_b, d, c + 16);
    law_xf_round_trip(v.local_frame_a, d, c + 24);
    law_xf_round_trip(v.local_frame_b, d, c + 40);
    lemma_u32_read_back(v.force_threshold, d, c + 56);
    lemma_u32_read_back(v.torque_threshold, d, c + 60);
    lemma_u32_read_back(v.constraint_hertz, d, c + 64);
    lemma_u32_read_back(v.constraint_damping_ratio, d, c + 68);
    lemma_u32_read_back(v.draw_scale, d, c + 72);
    lemma_bool_read_back(v.collide_connected, d, c + 76);
}

/// A 2-byte word read at `(ok, c)`.
pub open spec fn u16_read(d: Seq<u8>, ok: bool, c: int) -> (u16, (bool, int)) {
    (value_at(d, ok, c, 2) as u16, after(d, ok, c, 2))
}

/// A byte read at `(ok, c)`.
pub open spec fn u8_read(d: Seq<u8>, ok: bool, c: int) -> (u8, (bool, int)) {
    (if ok && 0 <= c && c + 1 <= d.len() { d[c] } else { 0 }, after(d, ok, c, 1))
}

/// `n` bytes read one at a time from `(ok, c)`.
pub open spec fn bytes_read(d: Seq<u8>, ok: bool, c: int, n: nat) -> (Seq<u8>, (bool, int))
    decreases n,
{
    if n == 0 {
        (Seq::empty(), (ok, c))
    } else {
        let (prev, s) = bytes_read(d, ok, c, (n - 1) as nat);
        let (b, s2) = u8_read(d, s.0, s.1);
        (prev.push(b), s2)
    }
}

/// Each byte taken as the character of the same number.
pub open spec fn byte_chars(bytes: Seq<u8>) -> Seq<char> {
    bytes.map_values(|b: u8| b as char)
}

/// A string read at `(ok, c)`: a 16-bit length, `0xFFFF` for a null string
/// (read as empty), then that many bytes, each taken as one character.
pub open spec fn string_read(d: Seq<u8>, ok: bool, c: int) -> (Seq<char>, (bool, int)) {
    let (len, s1) = u16_read(d, ok, c);
    if len == 0xFFFF {
        (Seq::empty(), s1)
    } else {
        let (bytes, s2) = bytes_read(d, s1.0, s1.1, len as nat);
        (byte_chars(bytes), s2)
    }
}

/// Append a character to a string: `String::push` of std, which appends
/// the character at the end.
#[verifier::external_body]
fn string_push(s: &mut String, ch: char)
    ensures
        final(s)@ == old(s)@.push(ch),
{
    s.push(ch);
}

/// Read a length-prefixed string, one character per byte.
pub fn r_string(r: &mut SnapReader) -> (s: String)
    ensures
        final(r).data@ == old(r).data@,
        (s@, (final(r).ok, final(r).cursor as int)) == string_read(old(r).data@, old(r).ok, old(r).cursor as int),
{
    let ghost d = old(r).data@;
    let len = r.r_u16();
    if len == 0xFFFF {
        return String::new();
    }
    let ghost s1 = (r.ok, r.cursor as int);
    let mut out = String::new();
    let mut i: u16 = 0;
    while i < len
        invariant
            0 <= i <= len,
            r.data@ == d,
            (out@, (r.ok, r.cursor as int)) == (byte_chars(bytes_read(d, s1.0, s1.1, i as nat).0),
                bytes_read(d, s1.0, s1.1, i as nat).1),
        decreases len - i,
    {
        let ghost prev = bytes_read(d, s1.0, s1.1, i as nat).0;
        let b = r.r_u8();
        string_push(&mut out, b as char);
        i = i + 1;
        proof {
            assert(byte_chars(prev.push(b)) =~= byte_chars(prev).push(b as char));
        }
    }
    out
}

/// Bytes that are all there read back as they are.
proof fn lemma_bytes_read_back(d: Seq<u8>, c: int, n: nat)
    requires
        0 <= c,
        c + n <= d.len(),
    ensures
        bytes_read(d, true, c, n) == (d.subrange(c, c + n), (true, c + n)),
    decreases n,
{
    if n > 0 {
        lemma_bytes_read_back(d, c, (n - 1) as nat);
        assert(d.subrange(c, c + n) =~= d.subrange(c, c + n - 1).push(d[c + n - 1]));
    }
}

/// A name of at most `REC_MAX_STR_LEN` ASCII characters reads back from
/// its encoding. (Other characters travel as UTF-8 and come back one
/// character per byte.)
pub proof fn law_string_round_trip(name: Seq<char>, d: Seq<u8>, c: int)
    requires
        is_ascii_chars(name),
        name.len() <= REC_MAX_STR_LEN,
        0 <= c,
        c + 2 + name.len() <= d.len(),
        d.subrange(c, c + 2 + name.len()) == str_bytes(encode_utf8(name)),
    ensures
        string_read(d, true, c) == (name, (true, c + 2 + name.len())),
{
    let bytes = encode_utf8(name);
    is_ascii_chars_encode_utf8(name);
    let n = name.len();
    assert(bytes.take(n as int) =~= bytes);
    reveal_with_fuel(pow256, 3);
    lemma_le_round_trip(n, 2);
    lemma_split(d, c, u16_bytes(n as u16), bytes);
    lemma_bytes_read_back(d, c + 2, n);
    assert forall|i: int| 0 <= i < n implies #[trigger] byte_chars(bytes)[i] == name[i] by {
        let ch = name[i];
        assert('\0' <= ch <= '\u{7f}');
        assert(bytes[i] == ch as u8);
    }
    assert(byte_chars(bytes) =~= name);
}

/// The body type a recorded number names: 0 static, 1 kinematic, any
/// other dynamic.
pub open spec fn body_type_from(x: i32) -> BodyType {
    if x == 0 {
        BodyType::Static
    } else if x == 1 {
        BodyType::Kinematic
    } else {
        BodyType::Dynamic
    }
}

/// The motion part of a body definition read at `(ok, c)`: type, position,
/// rotation, linear velocity, then five real parameters.
pub open spec fn body_motion_read(d: Seq<u8>, ok: bool, c: int) -> (BodyDefView, (bool, int)) {
    let (t, s1) = i32_read(d, ok, c);
    let (position, s2) = vec2_read(d, s1.0, s1.1);
    let (rotation, s3) = rot_read(d, s2.0, s2.1);
    let (linear_velocity, s4) = vec2_read(d, s3.0, s3.1);
    let (angular_velocity, s5) = u32_read(d, s4.0, s4.1);
    let (linear_damping, s6) = u32_read(d, s5.0, s5.1);
    let (angular_damping, s7) = u32_read(d, s6.0, s6.1);
    let (gravity_scale, s8) = u32_read(d, s7.0, s7.1);
    let (sleep_threshold, s9) = u32_read(d, s8.0, s8.1);
    (BodyDefView {
        type_: body_type_from(t),
        position,
        rotation,
        linear_velocity,
        angular_velocity,
        linear_damping,
        angular_damping,
        gravity_scale,
        sleep_threshold,
        name: Seq::empty(),
        user_data: 0,
        motion_locks: MotionLocks { linear_x: false, linear_y: false, angular_z: false },
        enable_sleep: false,
        is_awake: false,
        is_bullet: false,
        is_enabled: false,
        allow_fast_rotation: false,
        enable_contact_recycling: false,
    }, s9)
}

/// The rest of a body definition read at `(ok, c)`: the name, the user
/// data, the three motion locks and six switches.
pub open spec fn body_tail_read(d: Seq<u8>, ok: bool, c: int) -> (BodyDefView, (bool, int)) {
    let (name, s10) = string_read(d, ok, c);
    let (user_data, s11) = u64_read_at(d, s10.0, s10.1);
    let (linear_x, s12) = bool_read(d, s11.0, s11.1);
    let (linear_y, s13) = bool_read(d, s12.0, s12.1);
    let (angular_z, s14) = bool_read(d, s13.0, s13.1);
    let (enable_sleep, s15) = bool_read(d, s14.0, s14.1);
    let (is_awake, s16) = bool_read(d, s15.0, s15.1);
    let (is_bullet, s17) = bool_read(d, s16.0, s16.1);
    let (is_enabled, s18) = bool_read(d, s17.0, s17.1);
    let (allow_fast_rotation, s19) = bool_read(d, s18.0, s18.1);
    let (enable_contact_recycling, s20) = bool_read(d, s19.0, s19.1);
    (BodyDefView {
        name,
        user_data,
        motion_locks: MotionLocks { linear_x, linear_y, angular_z },
        enable_sleep,
        is_awake,
        is_bullet,
        is_enabled,
        allow_fast_rotation,
        enable_contact_recycling,
        ..body_motion_read(d, false, c).0
    }, s20)
}

/// A body definition read at `(ok, c)`: the motion part, then the rest.
pub open spec fn body_def_read(d: Seq<u8>, ok: bool, c: int) -> (BodyDefView, (bool, int)) {
    let (m, s9) = body_motion_read(d, ok, c);
    let (t, s20) = body_tail_read(d, s9.0, s9.1);
    (BodyDefView {
        name: t.name,
        user_data: t.user_data,
        motion_locks: t.motion_locks,
        enable_sleep: t.enable_sleep,
        is_awake: t.is_awake,
        is_bullet: t.is_bullet,
        is_enabled: t.is_enabled,
        allow_fast_rotation: t.allow_fast_rotation,
        enable_contact_recycling: t.enable_contact_recycling,
        ..m
    }, s20)
}

/// Read a body definition, every field in wire order.
pub fn r_body_def(r: &mut SnapReader) -> (def: BodyDef)
    ensures
        final(r).data@ == old(r).data@,
        (def@, (final(r).ok, final(r).cursor as int)) == body_def_read(old(r).data@, old(r).ok, old(r).cursor as int),
{
    let t = read_i32(r);
    let type_ = if t == 0 {
        BodyType::Static
    } else if t == 1 {
        BodyType::Kinematic
    } else {
        BodyType::Dynamic
    };
    let position = r_position(r);
    let rotation = r_rot(r);
    let linear_velocity = r_vec2(r);
    let angular_velocity = read_u32(r);
    let linear_damping = read_u32(r);
    let angular_damping = read_u32(r);
    let gravity_scale = read_u32(r);
    let sleep_threshold = read_u32(r);
    let name = r_string(r);
    let user_data = read_u64(r);
    let linear_x = read_bool(r);
    let linear_y = read_bool(r);
    let angular_z = read_bool(r);
    let enable_sleep = read_bool(r);
    let is_awake = read_bool(r);
    let is_bullet = read_bool(r);
    let is_enabled = read_bool(r);
    let allow_fast_rotation = read_bool(r);
    let enable_contact_recycling = read_bool(r);
    BodyDef {
        type_,
        position,
        rotation,
        linear_velocity,
        angular_velocity,
        linear_damping,
        angular_damping,
        gravity_scale,
        sleep_threshold,
        name,
        user_data,
        motion_locks: MotionLocks { linear_x, linear_y, angular_z },
        enable_sleep,
        is_awake,
        is_bullet,
        is_enabled,
        allow_fast_rotation,
        enable_contact_recycling,
    }
}

/// The motion part of a body definition reads back from its encoding.
proof fn lemma_body_motion_round_trip(v: BodyDef, d: Seq<u8>, c: int)
    requires
        0 <= c,
        c + 48 <= d.len(),
        d.subrange(c, c + 48) == body_def_motion_bytes(v),
    ensures
        body_motion_read(d, true, c).1 == (true, c + 48),
        ({
            let m = body_motion_read(d, true, c).0;
            &&& m.type_ == v.type_
            &&& m.position == v.position
            &&& m.rotation == v.rotation
            &&& m.linear_velocity == v.linear_velocity
            &&& m.angular_velocity == v.angular_velocity
            &&& m.linear_damping == v.linear_damping
            &&& m.angular_damping == v.angular_damping
            &&& m.gravity_scale == v.gravity_scale
            &&& m.sleep_threshold == v.sleep_threshold
        }),
{
    let a = i32_bytes(body_type_code(v.type_));
    let b = vec2_bytes(v.position);
    let e = rot_bytes(v.rotation);
    let f = vec2_bytes(v.linear_velocity);
    let g = u32_bytes(v.angular_velocity);
    let h = u32_bytes(v.linear_damping);
    let i = u32_bytes(v.angular_damping);
    let j = u32_bytes(v.gravity_scale);
    lemma_split(d, c, a + b + e + f + g + h + i + j, u32_bytes(v.sleep_threshold));
    lemma_split(d, c, a + b + e + f + g + h + i, j);
    lemma_split(d, c, a + b + e + f + g + h, i);
    lemma_split(d, c, a + b + e + f + g, h);
    lemma_split(d, c, a + b + e + f, g);
    lemma_split(d, c, a + b + e, f);
    lemma_split(d, c, a + b, e);
    lemma_split(d, c, a, b);
    lemma_i32_read_back(body_type_code(v.type_), d, c);
    law_vec2_round_trip(v.position, d, c + 4);
    law_rot_round_trip(v.rotation, d, c + 12);
    law_vec2_round_trip(v.linear_velocity, d, c + 20);
    lemma_u32_read_back(v.angular_velocity, d, c + 28);
    lemma_u32_read_back(v.linear_damping, d, c + 32);
    lemma_u32_read_back(v.angular_damping, d, c + 36);
    lemma_u32_read_back(v.gravity_scale, d, c + 40);
    lemma_u32_read_back(v.sleep_threshold, d, c + 44);
}

/// The lock and switch bytes that end a body definition read back.
proof fn lemma_body_flags_read_back(v: BodyDef, d: Seq<u8>, e: int)
    requires
        0 <= e,
        e + 9 <= d.len(),
        d.subrange(e, e + 9) == locks_bytes(v.motion_locks) + body_def_flag_bytes(v),
    ensures
        bool_read(d, true, e) == (v.motion_locks.linear_x, (true, e + 1)),
        bool_read(d, true, e + 1) == (v.motion_locks.linear_y, (true, e + 2)),
        bool_read(d, true, e + 2) == (v.motion_locks.angular_z, (true, e + 3)),
        bool_read(d, true, e + 3) == (v.enable_sleep, (true, e + 4)),
        bool_read(d, true, e + 4) == (v.is_awake, (true, e + 5)),
        bool_read(d, true, e + 5) == (v.is_bullet, (true, e + 6)),
        bool_read(d, true, e + 6) == (v.is_enabled, (true, e + 7)),
        bool_read(d, true, e + 7) == (v.allow_fast_rotation, (true, e + 8)),
        bool_read(d, true, e + 8) == (v.enable_contact_recycling, (true, e + 9)),
{
    let all = locks_bytes(v.motion_locks) + body_def_flag_bytes(v);
    assert(all =~= seq![bool_byte(v.motion_locks.linear_x), bool_byte(v.motion_locks.linear_y),
        bool_byte(v.motion_locks.angular_z), bool_byte(v.enable_sleep), bool_byte(v.is_awake),
        bool_byte(v.is_bullet), bool_byte(v.is_enabled), bool_byte(v.allow_fast_rotation),
        bool_byte(v.enable_contact_recycling)]);
    lemma_byte_at(d, e, all, 0);
    lemma_byte_at(d, e, all, 1);
    lemma_byte_at(d, e, all, 2);
    lemma_byte_at(d, e, all, 3);
    lemma_byte_at(d, e, all, 4);
    lemma_byte_at(d, e, all, 5);
    lemma_byte_at(d, e, all, 6);
    lemma_byte_at(d, e, all, 7);
    lemma_byte_at(d, e, all, 8);
}

/// The rest of a body definition reads back from its encoding.
proof fn lemma_body_tail_round_trip(v: BodyDef, d: Seq<u8>, t: int)
    requires
        is_ascii_chars(v.name@),
        v.name@.len() <= REC_MAX_STR_LEN,
        0 <= t,
        t + 19 + v.name@.len() <= d.len(),
        d.subrange(t, t + 19 + v.name@.len()) == str_bytes(encode_utf8(v.name@)) + u64_bytes(0) + (locks_bytes(
            v.motion_locks,
        ) + body_def_flag_bytes(v)),
    ensures
        body_tail_read(d, true, t).1 == (true, t + 19 + v.name@.len()),
        ({
            let m = body_tail_read(d, true, t).0;
            &&& m.name == v.name@
            &&& m.user_data == 0
            &&& m.motion_locks == v.motion_locks
            &&& m.enable_sleep == v.enable_sleep
            &&& m.is_awake == v.is_awake
            &&& m.is_bullet == v.is_bullet
            &&& m.is_enabled == v.is_enabled
            &&& m.allow_fast_rotation == v.allow_fast_rotation
            &&& m.enable_contact_recycling == v.enable_contact_recycling
        }),
{
    let n = v.name@.len();
    let bytes = encode_utf8(v.name@);
    is_ascii_chars_encode_utf8(v.name@);
    assert(bytes.take(n as int) =~= bytes);
    let sb = str_bytes(bytes);
    let z = u64_bytes(0);
    let fl = locks_bytes(v.motion_locks) + body_def_flag_bytes(v);
    reveal_with_fuel(pow256, 3);
    lemma_le_round_trip(n, 2);
    assert(sb.len() == 2 + n);
    lemma_split(d, t, sb + z, fl);
    lemma_split(d, t, sb, z);
    law_string_round_trip(v.name@, d, t);
    assert(string_read(d, true, t) == (v.name@, (true, t + 2 + n)));
    lemma_u64_read_back(0, d, t + 2 + n);
    lemma_body_flags_read_back(v, d, t + 10 + n);
}

/// A body definition whose name is at most `REC_MAX_STR_LEN` ASCII
/// characters reads back from its encoding, its user data as zero.
pub proof fn law_body_def_round_trip(v: BodyDef, d: Seq<u8>, c: int)
    requires
        is_ascii_chars(v.name@),
        v.name@.len() <= REC_MAX_STR_LEN,
        0 <= c,
        c + 67 + v.name@.len() <= d.len(),
        d.subrange(c, c + 67 + v.name@.len()) == body_def_bytes(v),
    ensures
        body_def_read(d, true, c) == (BodyDefView { user_data: 0, ..v@ }, (true, c + 67 + v.name@.len())),
{
    let n = v.name@.len();
    let m = body_def_motion_bytes(v);
    let tail = str_bytes(encode_utf8(v.name@)) + u64_bytes(0) + (locks_bytes(v.motion_locks) + body_def_flag_bytes(
        v,
    ));
    is_ascii_chars_encode_utf8(v.name@);
    assert(encode_utf8(v.name@).take(n as int) =~= encode_utf8(v.name@));
    assert(body_def_bytes(v) =~= m + tail);
    lemma_split(d, c, m, tail);
    lemma_body_motion_round_trip(v, d, c);
    lemma_body_tail_round_trip(v, d, c + 48);
}

} // verus!
