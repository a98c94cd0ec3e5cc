use vstd::prelude::*;
use crate::id::{unpack_id64, BodyId, ChainId, JointId, ShapeId, WorldId};
use crate::snapshot::{word_at, SnapReader};
use crate::containers::{count_fits, qword_at};
use crate::types::{default_filter, default_query_filter, Filter, QueryFilter, TreeStats};
use crate::world::World;
use crate::recording::decode::{
    filter_read, read_u32, r_position, r_shape_id, r_vec2, shape_id_read, u32_read, vec2_read,
};
use crate::geometry::{Pos, Vec2};
use crate::write::le_value;

verus! {

/// The shape id a packed 64-bit word names.
pub open spec fn shape_id_from(x: u64) -> ShapeId {
    ShapeId { index1: unpack_id64(x).0, world0: unpack_id64(x).1, generation: unpack_id64(x).2 }
}

/// The body id a packed 64-bit word names.
pub open spec fn body_id_from(x: u64) -> BodyId {
    BodyId { index1: unpack_id64(x).0, world0: unpack_id64(x).1, generation: unpack_id64(x).2 }
}

/// The value a 64-bit read at the cursor gives.
pub open spec fn u64_read(r: SnapReader) -> u64 {
    if r.can_take(8) {
        le_value(r.peek(8)) as u64
    } else {
        0
    }
}

/// The id of this world as the API hands it out: one-based index and
/// generation.
pub fn world_id_of(world: &World) -> (id: WorldId)
    requires
        world.world_id < u16::MAX,
    ensures
        id == (WorldId { index1: (world.world_id + 1) as u16, generation: world.generation }),
{
    WorldId { index1: world.world_id + 1, generation: world.generation }
}

/// Read a body id. (its packed 64-bit form)
pub fn r_body_id(r: &mut SnapReader) -> (id: BodyId)
    ensures
        SnapReader::took(*old(r), *final(r), 8),
        id == body_id_from(u64_read(*old(r))),
{
    BodyId::load(r.r_u64())
}

/// Whether a created joint's id matches the recorded one: same index and
/// generation; the world part is not compared.
pub fn ids_match(created: JointId, recorded: JointId) -> (r: bool)
    ensures
        r == (created.index1 == recorded.index1 && created.generation == recorded.generation),
{
    created.index1 == recorded.index1 && created.generation == recorded.generation
}

/// Whether a created body's id matches the recorded one: same index and
/// generation; the world part is not compared.
pub fn body_ids_match(created: BodyId, recorded: BodyId) -> (r: bool)
    ensures
        r == (created.index1 == recorded.index1 && created.generation == recorded.generation),
{
    created.index1 == recorded.index1 && created.generation == recorded.generation
}

/// Whether a created shape's id matches the recorded one: same index and
/// generation; the world part is not compared.
pub fn shape_ids_match(created: ShapeId, recorded: ShapeId) -> (r: bool)
    ensures
        r == (created.index1 == recorded.index1 && created.generation == recorded.generation),
{
    created.index1 == recorded.index1 && created.generation == recorded.generation
}

/// Whether a created chain's id matches the recorded one: same index and
/// generation; the world part is not compared.
pub fn chain_ids_match(created: ChainId, recorded: ChainId) -> (r: bool)
    ensures
        r == (created.index1 == recorded.index1 && created.generation == recorded.generation),
{
    created.index1 == recorded.index1 && created.generation == recorded.generation
}

/// Whether two recorded reals differ bit for bit: a replayed value matches
/// only when it is exactly the recorded one.
pub fn f32_differs(a: u32, b: u32) -> (r: bool)
    ensures
        r == (a != b),
{
    a != b
}

/// Whether two vectors differ bit for bit in either coordinate.
pub fn vec2_differs(a: Vec2, b: Vec2) -> (r: bool)
    ensures
        r == (a.x != b.x || a.y != b.y),
{
    f32_differs(a.x, b.x) || f32_differs(a.y, b.y)
}

/// Whether two shape ids differ in index or generation.
pub fn id_differs(a: ShapeId, b: ShapeId) -> (r: bool)
    ensures
        r == (a.index1 != b.index1 || a.generation != b.generation),
{
    a.index1 != b.index1 || a.generation != b.generation
}

/// Read a shape filter: category, mask, group, over the default filter.
pub fn r_filter(r: &mut SnapReader) -> (f: Filter)
    ensures
        final(r).data@ == old(r).data@,
        (f, (final(r).ok, final(r).cursor as int)) == filter_read(old(r).data@, old(r).ok, old(r).cursor as int),
{
    let mut f = default_filter();
    f.category_bits = r.r_u64();
    f.mask_bits = r.r_u64();
    f.group_index = r.r_i32();
    f
}

/// Read a query filter: category and mask, over the default query filter.
pub fn r_query_filter(r: &mut SnapReader) -> (f: QueryFilter)
    ensures
        final(r).data@ == old(r).data@,
        ({
            let d = old(r).data@;
            let ok0 = old(r).ok;
            let c0 = old(r).cursor as int;
            &&& f.category_bits == qword_at(d, ok0, c0, 0)
            &&& f.mask_bits == qword_at(d, ok0, c0, 1)
            &&& final(r).ok == (ok0 && c0 + 16 <= d.len())
            &&& final(r).ok ==> final(r).cursor == c0 + 16
        }),
{
    let mut filter = default_query_filter();
    filter.category_bits = r.r_u64();
    filter.mask_bits = r.r_u64();
    filter
}

/// Read tree statistics: node visits, leaf visits.
pub fn r_treestats(r: &mut SnapReader) -> (s: TreeStats)
    ensures
        final(r).data@ == old(r).data@,
        s.node_visits == word_at(old(r).data@, old(r).ok, old(r).cursor as int, 0) as i32,
        s.leaf_visits == word_at(old(r).data@, old(r).ok, old(r).cursor as int, 1) as i32,
        final(r).ok == old(r).can_take(8),
        final(r).ok ==> final(r).cursor == old(r).cursor + 8,
{
    TreeStats { node_visits: r.r_i32(), leaf_visits: r.r_i32() }
}

/// One recorded overlap hit: the shape and what the callback returned.
#[derive(Clone, Copy, Debug, PartialEq, Eq, Structural)]
pub struct OverlapHit {
    pub id: ShapeId,
    pub user_return: bool,
}

/// The `k`-th overlap hit of a run read from `base` (nine bytes each), or a
/// zeroed one when the reader is bad.
pub open spec fn overlap_hit_at(d: Seq<u8>, ok: bool, base: int, k: int) -> OverlapHit {
    if ok && base + 9 * (k + 1) <= d.len() {
        OverlapHit {
            id: shape_id_from(le_value(d.subrange(base + 9 * k, base + 9 * k + 8)) as u64),
            user_return: d[base + 9 * k + 8] != 0,
        }
    } else {
        OverlapHit { id: shape_id_from(0), user_return: false }
    }
}

/// The recorded hits of an overlap query read at `(ok, c)`: a count, then
/// that many hits of nine bytes; a count that fails the guard gives none and
/// leaves the reader bad.
pub open spec fn overlap_hits_read(d: Seq<u8>, ok: bool, c: int) -> (Seq<OverlapHit>, (bool, int)) {
    let (w, s1) = u32_read(d, ok, c);
    let n = w as i32;
    if count_fits(d, ok, c, 4, n, 9) {
        (Seq::new(n as nat, |k: int| overlap_hit_at(d, s1.0, s1.1, k)), (s1.0, if s1.0 { s1.1 + 9 * n } else { s1.1 }))
    } else {
        (Seq::empty(), (false, s1.1))
    }
}

/// Read the recorded hits of an overlap query: a count, then that many
/// (shape id, flag) pairs; a count that fails the guard gives none and a
/// bad reader.
pub fn r_overlap_hits(r: &mut SnapReader) -> (hits: Vec<OverlapHit>)
    ensures
        final(r).data@ == old(r).data@,
        (hits@, (final(r).ok, final(r).cursor as int)) == overlap_hits_read(old(r).data@, old(r).ok, old(r).cursor as int),
        ({
            let d = old(r).data@;
            let ok0 = old(r).ok;
            let c0 = old(r).cursor as int;
            let n = word_at(d, ok0, c0, 0) as i32;
            let ok1 = ok0 && c0 + 4 <= d.len();
            let c1 = if ok1 { c0 + 4 } else { c0 };
            if count_fits(d, ok0, c0, 4, n, 9) {
                &&& hits@.len() == n
                &&& forall|k: int| 0 <= k < n ==> hits@[k] == #[trigger] overlap_hit_at(d, ok1, c1, k)
                &&& final(r).ok == ok1
            } else {
                &&& hits@.len() == 0
                &&& !final(r).ok
            }
        }),
{
    let ghost d = old(r).data@;
    let n = r.r_u32() as i32;
    if !r.check_count(n, 9) {
        return Vec::new();
    }
    let ghost ok1 = r.ok;
    let ghost c1 = r.cursor as int;
    let mut hits: Vec<OverlapHit> = Vec::new();
    let mut i: i32 = 0;
    while i < n
        invariant
            0 <= i <= n,
            r.data@ == d,
            r.ok == ok1,
            ok1 ==> c1 + 9 * n <= d.len(),
            ok1 ==> r.cursor == c1 + 9 * i,
            !ok1 ==> r.cursor == c1,
            hits@.len() == i,
            forall|k: int| 0 <= k < i ==> hits@[k] == #[trigger] overlap_hit_at(d, ok1, c1, k),
        decreases n - i,
    {
        let id = ShapeId::load(r.r_u64());
        let user_return = r.r_bool();
        hits.push(OverlapHit { id, user_return });
        i = i + 1;
    }
    assert(hits@ =~= Seq::new(n as nat, |k: int| overlap_hit_at(d, ok1, c1, k)));
    hits
}

/// One recorded cast hit: the shape, the point and normal reported, the
/// fraction, and what the callback returned. Real values are bit patterns.
#[derive(Clone, Copy, Debug, PartialEq, Eq, Structural)]
pub struct CastHit {
    pub id: ShapeId,
    pub point: Pos,
    pub normal: Vec2,
    pub fraction: u32,
    pub user_return: u32,
}

/// A cast hit read at `(ok, c)`: shape id, point, normal, fraction, the
/// callback's return.
pub open spec fn cast_hit_read(d: Seq<u8>, ok: bool, c: int) -> (CastHit, (bool, int)) {
    let (id, s1) = shape_id_read(d, ok, c);
    let (point, s2) = vec2_read(d, s1.0, s1.1);
    let (normal, s3) = vec2_read(d, s2.0, s2.1);
    let (fraction, s4) = u32_read(d, s3.0, s3.1);
    let (user_return, s5) = u32_read(d, s4.0, s4.1);
    (CastHit { id, point, normal, fraction, user_return }, s5)
}

/// The recorded hits of a cast query read at `(ok, c)`: a count, then that
/// many hits of 32 bytes; a count that fails the guard gives none and leaves
/// the reader bad.
pub open spec fn cast_hits_read(d: Seq<u8>, ok: bool, c: int) -> (Seq<CastHit>, (bool, int)) {
    let (w, s1) = u32_read(d, ok, c);
    let n = w as i32;
    if count_fits(d, ok, c, 4, n, 32) {
        (Seq::new(n as nat, |k: int| cast_hit_read(d, s1.0, s1.1 + 32 * k).0), (s1.0, s1.1 + 32 * n))
    } else {
        (Seq::empty(), (false, s1.1))
    }
}

/// Read the recorded hits of a cast query: a count, then that many hits of
/// 32 bytes; a count that fails the guard gives none and a bad reader.
pub fn r_cast_hits(r: &mut SnapReader) -> (hits: Vec<CastHit>)
    ensures
        final(r).data@ == old(r).data@,
        (hits@, (final(r).ok, final(r).cursor as int)) == cast_hits_read(old(r).data@, old(r).ok, old(r).cursor as int),
        ({
            let d = old(r).data@;
            let ok0 = old(r).ok;
            let c0 = old(r).cursor as int;
            let (w, s1) = u32_read(d, ok0, c0);
            let n = w as i32;
            if count_fits(d, ok0, c0, 4, n, 32) {
                &&& hits@.len() == n
                &&& forall|k: int| 0 <= k < n ==> hits@[k] == #[trigger] cast_hit_read(d, s1.0, s1.1 + 32 * k).0
                &&& final(r).ok == s1.0
                &&& final(r).cursor == s1.1 + 32 * n
            } else {
                &&& hits@.len() == 0
                &&& !final(r).ok
            }
        }),
{
    let ghost d = old(r).data@;
    let n = read_u32(r) as i32;
    if !r.check_count(n, 32) {
        return Vec::new();
    }
    let ghost ok1 = r.ok;
    let ghost c1 = r.cursor as int;
    let mut hits: Vec<CastHit> = Vec::new();
    let mut i: i32 = 0;
    while i < n
        invariant
            0 <= i <= n,
            r.data@ == d,
            r.ok == ok1,
            !ok1 ==> n == 0,
            ok1 ==> c1 + 32 * n <= d.len(),
            r.cursor == c1 + 32 * i,
            hits@.len() == i,
            forall|k: int| 0 <= k < i ==> hits@[k] == #[trigger] cast_hit_read(d, ok1, c1 + 32 * k).0,
        decreases n - i,
    {
        let id = r_shape_id(r);
        let point = r_position(r);
        let normal = r_vec2(r);
        let fraction = read_u32(r);
        let user_return = read_u32(r);
        hits.push(CastHit { id, point, normal, fraction, user_return });
        i = i + 1;
    }
    assert(hits@ =~= Seq::new(n as nat, |k: int| cast_hit_read(d, ok1, c1 + 32 * k).0));
    hits
}

} // verus!
