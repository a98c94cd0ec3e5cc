use vstd::prelude::*;
use super::decode::{
    aabb_read, bool_read, capsule_read, proxy_read, r_aabb, r_capsule, r_proxy, r_ray_result, r_shape_id, r_vec2,
    r_world_cast_output, ray_result_read, read_bool, read_u32, read_u64, shape_id_read, u32_read, u64_read_at,
    vec2_read, world_cast_output_read,
};
use super::query::{
    RecQueryType, OP_QUERY_CAST_MOVER, OP_QUERY_CAST_RAY, OP_QUERY_CAST_RAY_CLOSEST, OP_QUERY_CAST_SHAPE,
    OP_QUERY_COLLIDE_MOVER, OP_QUERY_OVERLAP_AABB, OP_QUERY_OVERLAP_SHAPE, OP_SHAPE_RAY_CAST, OP_SHAPE_TEST_POINT,
};
use super::read::{cast_hits_read, overlap_hits_read, r_cast_hits, r_overlap_hits, CastHit, OverlapHit};
use super::stash::{blank_hit, blank_query, cast_stash_hit, cast_stash_hits, overlap_stash_hit, overlap_stash_hits, DrawQuery, QueryStash, RecordedHit};
use crate::containers::count_fits;
use crate::geometry::{Aabb, Capsule, Plane, PlaneResult, Pos, RayResult, ShapeProxy, Vec2, WorldCastOutput};
use crate::id::ShapeId;
use crate::snapshot::SnapReader;
use crate::types::QueryFilter;

verus! {

// Spatial query records read back for replay: each query's arguments and
// what it reported when it was recorded, which the replayed query is held
// to. Real values are IEEE-754 single precision bit patterns.

/// One recorded mover plane: the shape, the plane result, and what the
/// callback returned.
#[derive(Clone, Copy, Debug, PartialEq, Eq, Structural)]
pub struct PlaneHit {
    pub id: ShapeId,
    pub plane: PlaneResult,
    pub user_return: bool,
}

/// A plane hit read at `(ok, c)`: shape id, normal, offset, point, hit
/// flag, the callback's return; 30 bytes.
pub open spec fn plane_hit_read(d: Seq<u8>, ok: bool, c: int) -> (PlaneHit, (bool, int)) {
    let (id, s1) = shape_id_read(d, ok, c);
    let (normal, s2) = vec2_read(d, s1.0, s1.1);
    let (offset, s3) = u32_read(d, s2.0, s2.1);
    let (point, s4) = vec2_read(d, s3.0, s3.1);
    let (hit, s5) = bool_read(d, s4.0, s4.1);
    let (user_return, s6) = bool_read(d, s5.0, s5.1);
    (PlaneHit { id, plane: PlaneResult { plane: Plane { normal, offset }, point, hit }, user_return }, s6)
}

/// The recorded planes of a mover query read at `(ok, c)`: a count, then
/// that many planes of 30 bytes; a count that fails the guard gives none
/// and leaves the reader bad.
pub open spec fn plane_hits_read(d: Seq<u8>, ok: bool, c: int) -> (Seq<PlaneHit>, (bool, int)) {
    let (w, s1) = u32_read(d, ok, c);
    let n = w as i32;
    if count_fits(d, ok, c, 4, n, 30) {
        (Seq::new(n as nat, |k: int| plane_hit_read(d, s1.0, s1.1 + 30 * k).0), (s1.0, s1.1 + 30 * n))
    } else {
        (Seq::empty(), (false, s1.1))
    }
}

/// A plane hit read at `(ok, c)` that stays good ends 30 bytes on; one that
/// starts bad yields zeros and stays where it is.
proof fn lemma_plane_hit_state(d: Seq<u8>, ok: bool, c: int)
    requires
        0 <= c,
    ensures
        ok && c + 30 <= d.len() ==> plane_hit_read(d, ok, c).1 == (true, c + 30),
        !ok ==> plane_hit_read(d, ok, c).1 == (false, c),
{
}

/// Read one plane hit.
fn read_plane_hit(r: &mut SnapReader) -> (h: PlaneHit)
    ensures
        final(r).data@ == old(r).data@,
        (h, (final(r).ok, final(r).cursor as int)) == plane_hit_read(old(r).data@, old(r).ok, old(r).cursor as int),
{
    let id = r_shape_id(r);
    let normal = r_vec2(r);
    let offset = read_u32(r);
    let point = r_vec2(r);
    let hit = read_bool(r);
    let user_return = read_bool(r);
    PlaneHit { id, plane: PlaneResult { plane: Plane { normal, offset }, point, hit }, user_return }
}

/// Read the recorded planes of a mover query: a count, then that many
/// planes; a count that fails the guard gives none and a bad reader.
pub fn r_plane_hits(r: &mut SnapReader) -> (hits: Vec<PlaneHit>)
    ensures
        final(r).data@ == old(r).data@,
        (hits@, (final(r).ok, final(r).cursor as int)) == plane_hits_read(old(r).data@, old(r).ok, old(r).cursor as int),
{
    let ghost d = old(r).data@;
    let n = read_u32(r) as i32;
    if !r.check_count(n, 30) {
        return Vec::new();
    }
    let ghost ok1 = r.ok;
    let ghost c1 = r.cursor as int;
    let mut hits: Vec<PlaneHit> = Vec::new();
    let mut i: i32 = 0;
    while i < n
        invariant
            0 <= i <= n,
            r.data@ == d,
            r.ok == ok1,
            !ok1 ==> n == 0,
            ok1 ==> c1 + 30 * n <= d.len(),
            0 <= c1,
            r.cursor == c1 + 30 * i,
            hits@.len() == i,
            forall|k: int| 0 <= k < i ==> hits@[k] == #[trigger] plane_hit_read(d, ok1, c1 + 30 * k).0,
        decreases n - i,
    {
        proof {
            lemma_plane_hit_state(d, ok1, c1 + 30 * i);
        }
        let h = read_plane_hit(r);
        hits.push(h);
        i = i + 1;
    }
    assert(hits@ =~= Seq::new(n as nat, |k: int| plane_hit_read(d, ok1, c1 + 30 * k).0));
    hits
}

/// A query filter read at `(ok, c)`: category, then mask.
pub open spec fn query_filter_read(d: Seq<u8>, ok: bool, c: int) -> (QueryFilter, (bool, int)) {
    let (category_bits, s1) = u64_read_at(d, ok, c);
    let (mask_bits, s2) = u64_read_at(d, s1.0, s1.1);
    (QueryFilter { category_bits, mask_bits }, s2)
}

fn read_query_filter(r: &mut SnapReader) -> (f: QueryFilter)
    ensures
        final(r).data@ == old(r).data@,
        (f, (final(r).ok, final(r).cursor as int)) == query_filter_read(old(r).data@, old(r).ok, old(r).cursor as int),
{
    let category_bits = read_u64(r);
    let mask_bits = read_u64(r);
    QueryFilter { category_bits, mask_bits }
}

/// The state after the tree statistics a query record ends with: two
/// words, which replay does not use.
pub open spec fn stats_skip(d: Seq<u8>, ok: bool, c: int) -> (bool, int) {
    let (_a, s1) = u32_read(d, ok, c);
    let (_b, s2) = u32_read(d, s1.0, s1.1);
    s2
}

fn skip_stats(r: &mut SnapReader)
    ensures
        final(r).data@ == old(r).data@,
        (final(r).ok, final(r).cursor as int) == stats_skip(old(r).data@, old(r).ok, old(r).cursor as int),
{
    let _node_visits = read_u32(r);
    let _leaf_visits = read_u32(r);
}

/// A spatial query record read back: the query's arguments and what it
/// reported when it was recorded.
#[derive(Debug)]
pub enum QueryRecord {
    OverlapAabb { origin: Pos, aabb: Aabb, filter: QueryFilter, hits: Vec<OverlapHit> },
    OverlapShape { origin: Pos, proxy: ShapeProxy, filter: QueryFilter, hits: Vec<OverlapHit> },
    CastRay { origin: Pos, translation: Vec2, filter: QueryFilter, hits: Vec<CastHit> },
    CastShape { origin: Pos, proxy: ShapeProxy, translation: Vec2, filter: QueryFilter, hits: Vec<CastHit> },
    CollideMover { origin: Pos, mover: Capsule, filter: QueryFilter, hits: Vec<PlaneHit> },
    CastRayClosest { origin: Pos, translation: Vec2, filter: QueryFilter, result: RayResult },
    CastMover { origin: Pos, mover: Capsule, translation: Vec2, filter: QueryFilter, fraction: u32 },
    TestPoint { shape: ShapeId, point: Pos, result: bool },
    ShapeRayCast { shape: ShapeId, origin: Pos, translation: Vec2, result: WorldCastOutput },
}

/// A query record as the contracts see it: its hits as sequences.
pub enum QueryRecordView {
    OverlapAabb { origin: Pos, aabb: Aabb, filter: QueryFilter, hits: Seq<OverlapHit> },
    OverlapShape { origin: Pos, proxy: ShapeProxy, filter: QueryFilter, hits: Seq<OverlapHit> },
    CastRay { origin: Pos, translation: Vec2, filter: QueryFilter, hits: Seq<CastHit> },
    CastShape { origin: Pos, proxy: ShapeProxy, translation: Vec2, filter: QueryFilter, hits: Seq<CastHit> },
    CollideMover { origin: Pos, mover: Capsule, filter: QueryFilter, hits: Seq<PlaneHit> },
    CastRayClosest { origin: Pos, translation: Vec2, filter: QueryFilter, result: RayResult },
    CastMover { origin: Pos, mover: Capsule, translation: Vec2, filter: QueryFilter, fraction: u32 },
    TestPoint { shape: ShapeId, point: Pos, result: bool },
    ShapeRayCast { shape: ShapeId, origin: Pos, translation: Vec2, result: WorldCastOutput },
}

impl View for QueryRecord {
    type V = QueryRecordView;

    open spec fn view(&self) -> QueryRecordView {
        match self {
            QueryRecord::OverlapAabb { origin, aabb, filter, hits } => QueryRecordView::OverlapAabb {
                origin: *origin,
                aabb: *aabb,
                filter: *filter,
                hits: hits@,
            },
            QueryRecord::OverlapShape { origin, proxy, filter, hits } => QueryRecordView::OverlapShape {
                origin: *origin,
                proxy: *proxy,
                filter: *filter,
                hits: hits@,
            },
            QueryRecord::CastRay { origin, translation, filter, hits } => QueryRecordView::CastRay {
                origin: *origin,
                translation: *translation,
                filter: *filter,
                hits: hits@,
            },
            QueryRecord::CastShape { origin, proxy, translation, filter, hits } => QueryRecordView::CastShape {
                origin: *origin,
                proxy: *proxy,
                translation: *translation,
                filter: *filter,
                hits: hits@,
            },
            QueryRecord::CollideMover { origin, mover, filter, hits } => QueryRecordView::CollideMover {
                origin: *origin,
                mover: *mover,
                filter: *filter,
                hits: hits@,
            },
            QueryRecord::CastRayClosest { origin, translation, filter, result } => QueryRecordView::CastRayClosest {
                origin: *origin,
                translation: *translation,
                filter: *filter,
                result: *result,
            },
            QueryRecord::CastMover { origin, mover, translation, filter, fraction } => QueryRecordView::CastMover {
                origin: *origin,
                mover: *mover,
                translation: *translation,
                filter: *filter,
                fraction: *fraction,
            },
            QueryRecord::TestPoint { shape, point, result } => QueryRecordView::TestPoint {
                shape: *shape,
                point: *point,
                result: *result,
            },
            QueryRecord::ShapeRayCast { shape, origin, translation, result } => QueryRecordView::ShapeRayCast {
                shape: *shape,
                origin: *origin,
                translation: *translation,
                result: *result,
            },
        }
    }
}

/// The query record under `opcode` read at `(ok, c)`, or `None` when the
/// opcode is not a query. World queries start with a world word that is not
/// used; the hit runs of the callback queries end with tree statistics,
/// which are skipped.
pub open spec fn query_record_read(opcode: u8, d: Seq<u8>, ok: bool, c: int) -> Option<(QueryRecordView, (bool, int))> {
    if OP_QUERY_OVERLAP_AABB <= opcode <= OP_QUERY_CAST_MOVER {
        let (_w, s0) = u32_read(d, ok, c);
        let (origin, s1) = vec2_read(d, s0.0, s0.1);
        if opcode == OP_QUERY_OVERLAP_AABB {
            let (aabb, s2) = aabb_read(d, s1.0, s1.1);
            let (filter, s3) = query_filter_read(d, s2.0, s2.1);
            let (hits, s4) = overlap_hits_read(d, s3.0, s3.1);
            Some((QueryRecordView::OverlapAabb { origin, aabb, filter, hits }, stats_skip(d, s4.0, s4.1)))
        } else if opcode == OP_QUERY_OVERLAP_SHAPE {
            let (proxy, s2) = proxy_read(d, s1.0, s1.1);
            let (filter, s3) = query_filter_read(d, s2.0, s2.1);
            let (hits, s4) = overlap_hits_read(d, s3.0, s3.1);
            Some((QueryRecordView::OverlapShape { origin, proxy, filter, hits }, stats_skip(d, s4.0, s4.1)))
        } else if opcode == OP_QUERY_CAST_RAY {
            let (translation, s2) = vec2_read(d, s1.0, s1.1);
            let (filter, s3) = query_filter_read(d, s2.0, s2.1);
            let (hits, s4) = cast_hits_read(d, s3.0, s3.1);
            Some((QueryRecordView::CastRay { origin, translation, filter, hits }, stats_skip(d, s4.0, s4.1)))
        } else if opcode == OP_QUERY_CAST_SHAPE {
            let (proxy, s2) = proxy_read(d, s1.0, s1.1);
            let (translation, s3) = vec2_read(d, s2.0, s2.1);
            let (filter, s4) = query_filter_read(d, s3.0, s3.1);
            let (hits, s5) = cast_hits_read(d, s4.0, s4.1);
            Some((QueryRecordView::CastShape { origin, proxy, translation, filter, hits }, stats_skip(d, s5.0, s5.1)))
        } else if opcode == OP_QUERY_COLLIDE_MOVER {
            let (mover, s2) = capsule_read(d, s1.0, s1.1);
            let (filter, s3) = query_filter_read(d, s2.0, s2.1);
            let (hits, s4) = plane_hits_read(d, s3.0, s3.1);
            Some((QueryRecordView::CollideMover { origin, mover, filter, hits }, s4))
        } else if opcode == OP_QUERY_CAST_RAY_CLOSEST {
            let (translation, s2) = vec2_read(d, s1.0, s1.1);
            let (filter, s3) = query_filter_read(d, s2.0, s2.1);
            let (result, s4) = ray_result_read(d, s3.0, s3.1);
            Some((QueryRecordView::CastRayClosest { origin, translation, filter, result }, s4))
        } else {
            let (mover, s2) = capsule_read(d, s1.0, s1.1);
            let (translation, s3) = vec2_read(d, s2.0, s2.1);
            let (filter, s4) = query_filter_read(d, s3.0, s3.1);
            let (fraction, s5) = u32_read(d, s4.0, s4.1);
            Some((QueryRecordView::CastMover { origin, mover, translation, filter, fraction }, s5))
        }
    } else if opcode == OP_SHAPE_TEST_POINT {
        let (shape, s1) = shape_id_read(d, ok, c);
        let (point, s2) = vec2_read(d, s1.0, s1.1);
        let (result, s3) = bool_read(d, s2.0, s2.1);
        Some((QueryRecordView::TestPoint { shape, point, result }, s3))
    } else if opcode == OP_SHAPE_RAY_CAST {
        let (shape, s1) = shape_id_read(d, ok, c);
        let (origin, s2) = vec2_read(d, s1.0, s1.1);
        let (translation, s3) = vec2_read(d, s2.0, s2.1);
        let (result, s4) = world_cast_output_read(d, s3.0, s3.1);
        Some((QueryRecordView::ShapeRayCast { shape, origin, translation, result }, s4))
    } else {
        None
    }
}

/// Read a spatial query record whose opcode was already read: its
/// arguments and what it reported. `None`, with the reader untouched, when
/// the opcode is not a query. A record whose reader ends bad cannot be
/// replayed.
pub fn read_query_record(opcode: u8, r: &mut SnapReader) -> (q: Option<QueryRecord>)
    ensures
        final(r).data@ == old(r).data@,
        match query_record_read(opcode, old(r).data@, old(r).ok, old(r).cursor as int) {
            Some((x, s)) => q is Some && q->0@ == x && (final(r).ok, final(r).cursor as int) == s,
            None => q is None && final(r).ok == old(r).ok && final(r).cursor == old(r).cursor,
        },
{
    if OP_QUERY_OVERLAP_AABB <= opcode && opcode <= OP_QUERY_CAST_MOVER {
        let _world = read_u32(r);
        let origin = r_vec2(r);
        if opcode == OP_QUERY_OVERLAP_AABB {
            let aabb = r_aabb(r);
            let filter = read_query_filter(r);
            let hits = r_overlap_hits(r);
            skip_stats(r);
            Some(QueryRecord::OverlapAabb { origin, aabb, filter, hits })
        } else if opcode == OP_QUERY_OVERLAP_SHAPE {
            let proxy = r_proxy(r);
            let filter = read_query_filter(r);
            let hits = r_overlap_hits(r);
            skip_stats(r);
            Some(QueryRecord::OverlapShape { origin, proxy, filter, hits })
        } else if opcode == OP_QUERY_CAST_RAY {
            let translation = r_vec2(r);
            let filter = read_query_filter(r);
            let hits = r_cast_hits(r);
            skip_stats(r);
            Some(QueryRecord::CastRay { origin, translation, filter, hits })
        } else if opcode == OP_QUERY_CAST_SHAPE {
            let proxy = r_proxy(r);
            let translation = r_vec2(r);
            let filter = read_query_filter(r);
            let hits = r_cast_hits(r);
            skip_stats(r);
            Some(QueryRecord::CastShape { origin, proxy, translation, filter, hits })
        } else if opcode == OP_QUERY_COLLIDE_MOVER {
            let mover = r_capsule(r);
            let filter = read_query_filter(r);
            let hits = r_plane_hits(r);
            Some(QueryRecord::CollideMover { origin, mover, filter, hits })
        } else if opcode == OP_QUERY_CAST_RAY_CLOSEST {
            let translation = r_vec2(r);
            let filter = read_query_filter(r);
            let result = r_ray_result(r);
            Some(QueryRecord::CastRayClosest { origin, translation, filter, result })
        } else {
            let mover = r_capsule(r);
            let translation = r_vec2(r);
            let filter = read_query_filter(r);
            let fraction = read_u32(r);
            Some(QueryRecord::CastMover { origin, mover, translation, filter, fraction })
        }
    } else if opcode == OP_SHAPE_TEST_POINT {
        let shape = r_shape_id(r);
        let point = r_vec2(r);
        let result = read_bool(r);
        Some(QueryRecord::TestPoint { shape, point, result })
    } else if opcode == OP_SHAPE_RAY_CAST {
        let shape = r_shape_id(r);
        let origin = r_vec2(r);
        let translation = r_vec2(r);
        let result = r_world_cast_output(r);
        Some(QueryRecord::ShapeRayCast { shape, origin, translation, result })
    } else {
        None
    }
}

/// The store form of a recorded mover plane: its shape, plane and flag.
pub open spec fn plane_stash_hit(h: PlaneHit) -> RecordedHit {
    RecordedHit { id: h.id, plane: h.plane, user_return_b: h.user_return, ..blank_hit() }
}

/// The store form of a closest-hit ray result: one hit with its shape,
/// point, normal and fraction when it hit, none otherwise.
pub open spec fn closest_stash_hits(r: RayResult) -> Seq<RecordedHit> {
    if r.hit {
        seq![RecordedHit { id: r.shape_id, point: r.point, normal: r.normal, fraction: r.fraction, ..blank_hit() }]
    } else {
        Seq::empty()
    }
}

/// The hits a replayed query record leaves in the per-frame store.
pub open spec fn stash_hits_of(q: QueryRecordView) -> Seq<RecordedHit> {
    match q {
        QueryRecordView::OverlapAabb { hits, .. } => hits.map_values(|h: OverlapHit| overlap_stash_hit(h)),
        QueryRecordView::OverlapShape { hits, .. } => hits.map_values(|h: OverlapHit| overlap_stash_hit(h)),
        QueryRecordView::CastRay { hits, .. } => hits.map_values(|h: CastHit| cast_stash_hit(h)),
        QueryRecordView::CastShape { hits, .. } => hits.map_values(|h: CastHit| cast_stash_hit(h)),
        QueryRecordView::CollideMover { hits, .. } => hits.map_values(|h: PlaneHit| plane_stash_hit(h)),
        QueryRecordView::CastRayClosest { result, .. } => closest_stash_hits(result),
        _ => Seq::empty(),
    }
}

/// The query a replayed record leaves in the per-frame store, with the
/// window of pooled hits given: its kind and the arguments of that kind.
pub open spec fn stashed_query(q: QueryRecordView, hit_start: usize, hit_count: usize) -> DrawQuery {
    match q {
        QueryRecordView::OverlapAabb { origin, aabb, filter, .. } => DrawQuery {
            filter,
            origin,
            aabb,
            ..blank_query(RecQueryType::OverlapAabb, hit_start, hit_count)
        },
        QueryRecordView::OverlapShape { origin, proxy, filter, .. } => DrawQuery {
            filter,
            origin,
            proxy,
            ..blank_query(RecQueryType::OverlapShape, hit_start, hit_count)
        },
        QueryRecordView::CastRay { origin, translation, filter, .. } => DrawQuery {
            filter,
            origin,
            translation,
            ..blank_query(RecQueryType::CastRay, hit_start, hit_count)
        },
        QueryRecordView::CastShape { origin, proxy, translation, filter, .. } => DrawQuery {
            filter,
            origin,
            proxy,
            translation,
            ..blank_query(RecQueryType::CastShape, hit_start, hit_count)
        },
        QueryRecordView::CollideMover { origin, mover, filter, .. } => DrawQuery {
            filter,
            origin,
            mover,
            ..blank_query(RecQueryType::CollideMover, hit_start, hit_count)
        },
        QueryRecordView::CastRayClosest { origin, translation, filter, .. } => DrawQuery {
            filter,
            origin,
            translation,
            ..blank_query(RecQueryType::CastRayClosest, hit_start, hit_count)
        },
        QueryRecordView::CastMover { origin, mover, translation, filter, fraction } => DrawQuery {
            filter,
            origin,
            mover,
            translation,
            cast_fraction: fraction,
            ..blank_query(RecQueryType::CastMover, hit_start, hit_count)
        },
        QueryRecordView::TestPoint { shape, point, result } => DrawQuery {
            shape,
            origin: point,
            bool_result: result,
            ..blank_query(RecQueryType::ShapeTestPoint, hit_start, hit_count)
        },
        QueryRecordView::ShapeRayCast { shape, origin, translation, result } => DrawQuery {
            shape,
            origin,
            translation,
            cast_out: result,
            ..blank_query(RecQueryType::ShapeRayCast, hit_start, hit_count)
        },
    }
}

/// The store form of recorded mover planes, in order.
fn plane_stash_hits(hits: &[PlaneHit]) -> (out: Vec<RecordedHit>)
    ensures
        out@ == hits@.map_values(|h: PlaneHit| plane_stash_hit(h)),
{
    let mut out: Vec<RecordedHit> = Vec::new();
    let mut i: usize = 0;
    while i < hits.len()
        invariant
            i <= hits@.len(),
            out@ == hits@.take(i as int).map_values(|h: PlaneHit| plane_stash_hit(h)),
        decreases hits@.len() - i,
    {
        let h = hits[i];
        let z = Vec2 { x: 0, y: 0 };
        out.push(
            RecordedHit {
                id: h.id,
                point: z,
                normal: z,
                fraction: 0,
                plane: h.plane,
                user_return_f: 0,
                user_return_b: h.user_return,
            },
        );
        i = i + 1;
        assert(out@ =~= hits@.take(i as int).map_values(|h: PlaneHit| plane_stash_hit(h)));
    }
    assert(hits@.take(hits@.len() as int) =~= hits@);
    out
}

/// The store form of a closest-hit ray result.
fn closest_stash_hit_vec(r: &RayResult) -> (out: Vec<RecordedHit>)
    ensures
        out@ == closest_stash_hits(*r),
{
    let mut out: Vec<RecordedHit> = Vec::new();
    if r.hit {
        let z = Vec2 { x: 0, y: 0 };
        out.push(
            RecordedHit {
                id: r.shape_id,
                point: r.point,
                normal: r.normal,
                fraction: r.fraction,
                plane: PlaneResult { plane: Plane { normal: z, offset: 0 }, point: z, hit: false },
                user_return_f: 0,
                user_return_b: false,
            },
        );
        assert(out@ =~= closest_stash_hits(*r));
    }
    out
}

/// Keep a replayed query record in the per-frame store, for a viewer to
/// draw: its kind and arguments, and its recorded hits pooled after those
/// already kept. Only a record that read cleanly is kept.
pub fn stash_query_record(stash: &mut QueryStash, q: &QueryRecord)
    requires
        old(stash).hits@.len() + stash_hits_of(q@).len() <= usize::MAX,
    ensures
        final(stash).hits@ == old(stash).hits@ + stash_hits_of(q@),
        final(stash).queries@ == old(stash).queries@.push(
            stashed_query(q@, old(stash).hits@.len() as usize, stash_hits_of(q@).len() as usize),
        ),
        old(stash).wf() ==> final(stash).wf(),
{
    match q {
        QueryRecord::OverlapAabb { origin, aabb, filter, hits } => {
            let pooled = overlap_stash_hits(hits.as_slice());
            let d = stash.begin(RecQueryType::OverlapAabb, pooled.as_slice());
            d.filter = *filter;
            d.origin = *origin;
            d.aabb = *aabb;
        },
        QueryRecord::OverlapShape { origin, proxy, filter, hits } => {
            let pooled = overlap_stash_hits(hits.as_slice());
            let d = stash.begin(RecQueryType::OverlapShape, pooled.as_slice());
            d.filter = *filter;
            d.origin = *origin;
            d.proxy = *proxy;
        },
        QueryRecord::CastRay { origin, translation, filter, hits } => {
            let pooled = cast_stash_hits(hits.as_slice());
            let d = stash.begin(RecQueryType::CastRay, pooled.as_slice());
            d.filter = *filter;
            d.origin = *origin;
            d.translation = *translation;
        },
        QueryRecord::CastShape { origin, proxy, translation, filter, hits } => {
            let pooled = cast_stash_hits(hits.as_slice());
            let d = stash.begin(RecQueryType::CastShape, pooled.as_slice());
            d.filter = *filter;
            d.origin = *origin;
            d.proxy = *proxy;
            d.translation = *translation;
        },
        QueryRecord::CollideMover { origin, mover, filter, hits } => {
            let pooled = plane_stash_hits(hits.as_slice());
            let d = stash.begin(RecQueryType::CollideMover, pooled.as_slice());
            d.filter = *filter;
            d.origin = *origin;
            d.mover = *mover;
        },
        QueryRecord::CastRayClosest { origin, translation, filter, result } => {
            let pooled = closest_stash_hit_vec(result);
            let d = stash.begin(RecQueryType::CastRayClosest, pooled.as_slice());
            d.filter = *filter;
            d.origin = *origin;
            d.translation = *translation;
        },
        QueryRecord::CastMover { origin, mover, translation, filter, fraction } => {
            let d = stash.begin(RecQueryType::CastMover, &[]);
            d.filter = *filter;
            d.origin = *origin;
            d.mover = *mover;
            d.translation = *translation;
            d.cast_fraction = *fraction;
        },
        QueryRecord::TestPoint { shape, point, result } => {
            let d = stash.begin(RecQueryType::ShapeTestPoint, &[]);
            d.shape = *shape;
            d.origin = *point;
            d.bool_result = *result;
        },
        QueryRecord::ShapeRayCast { shape, origin, translation, result } => {
            let d = stash.begin(RecQueryType::ShapeRayCast, &[]);
            d.shape = *shape;
            d.origin = *origin;
            d.translation = *translation;
            d.cast_out = *result;
        },
    }
}

/// Replay progress of a callback query held to its recorded hits: how many
/// replayed hits came, and whether each agreed with the recorded hit at its
/// place.
#[derive(Clone, Copy, Debug, PartialEq, Eq, Structural)]
pub struct HitCursor {
    pub cursor: usize,
    pub matched: bool,
}

/// One replayed hit against `count` recorded ones: past the last recorded
/// hit the replay no longer matches; otherwise it moves on, and matches
/// while no hit `differs` from its recorded one.
pub open spec fn cursor_step(h: HitCursor, count: int, differs: bool) -> HitCursor {
    if h.cursor >= count {
        HitCursor { matched: false, ..h }
    } else {
        HitCursor { cursor: (h.cursor + 1) as usize, matched: h.matched && !differs }
    }
}

/// The progress after replayed hits that differ from their recorded ones
/// as `ds` says, from the start.
pub open spec fn cursor_run(count: int, ds: Seq<bool>) -> HitCursor
    decreases ds.len(),
{
    if ds.len() == 0 {
        HitCursor { cursor: 0, matched: true }
    } else {
        cursor_step(cursor_run(count, ds.drop_last()), count, ds.last())
    }
}

/// How far a run got and whether it still matches.
proof fn lemma_cursor_run(count: nat, ds: Seq<bool>)
    requires
        count <= usize::MAX,
    ensures
        cursor_run(count as int, ds).cursor == if ds.len() <= count { ds.len() } else { count },
        cursor_run(count as int, ds).matched == (ds.len() <= count && forall|i: int| 0 <= i < ds.len() ==> !ds[i]),
    decreases ds.len(),
{
    if ds.len() > 0 {
        let prev = ds.drop_last();
        lemma_cursor_run(count, prev);
        if ds.len() <= count {
            assert forall|i: int| 0 <= i < ds.len() - 1 implies ds[i] == prev[i] by {}
            if !cursor_run(count as int, ds).matched && (forall|i: int| 0 <= i < ds.len() ==> !ds[i]) {
                assert forall|i: int| 0 <= i < prev.len() implies !prev[i] by {
                    assert(!ds[i]);
                }
                assert(!ds[ds.len() - 1]);
            }
        }
    }
}

/// A replayed callback query reproduces its recording exactly when it
/// reports as many hits as were recorded and none differs from the
/// recorded hit at its place.
pub proof fn law_hits_reproduce(count: nat, ds: Seq<bool>)
    requires
        count <= usize::MAX,
    ensures
        (cursor_run(count as int, ds).matched && cursor_run(count as int, ds).cursor == count) <==> (ds.len() == count
            && forall|i: int| 0 <= i < ds.len() ==> !ds[i]),
{
    lemma_cursor_run(count, ds);
}

/// Whether a replayed shape id differs from a recorded one: index or
/// generation.
pub open spec fn shape_id_differs(a: ShapeId, b: ShapeId) -> bool {
    a.index1 != b.index1 || a.generation != b.generation
}

/// Whether a replayed overlap hit on `id` differs from the recorded hit at
/// `k`.
pub open spec fn overlap_differs(hits: Seq<OverlapHit>, k: int, id: ShapeId) -> bool {
    0 <= k < hits.len() && shape_id_differs(id, hits[k].id)
}

/// Whether a replayed cast hit differs from the recorded hit at `k`: shape,
/// point (as the caller found it), normal or fraction, bit for bit.
pub open spec fn cast_differs(hits: Seq<CastHit>, k: int, id: ShapeId, point_differs: bool, normal: Vec2, fraction: u32) -> bool {
    0 <= k < hits.len() && (shape_id_differs(id, hits[k].id) || point_differs || normal != hits[k].normal || fraction
        != hits[k].fraction)
}

/// Whether a replayed mover plane differs from the recorded one at `k`:
/// shape, plane normal or offset, bit for bit.
pub open spec fn plane_differs(hits: Seq<PlaneHit>, k: int, id: ShapeId, plane: PlaneResult) -> bool {
    0 <= k < hits.len() && (shape_id_differs(id, hits[k].id) || plane.plane.normal != hits[k].plane.plane.normal
        || plane.plane.offset != hits[k].plane.plane.offset)
}

impl HitCursor {
    /// Before the first replayed hit.
    pub fn new() -> (h: HitCursor)
        ensures
            h == cursor_run(0, Seq::<bool>::empty()),
            h == (HitCursor { cursor: 0, matched: true }),
    {
        HitCursor { cursor: 0, matched: true }
    }

    /// A replayed overlap hit on `id`, held to the recorded hits: returns
    /// what the recorded callback returned at this place, which steers the
    /// replayed query as it steered the recorded one, or false past the last
    /// recorded hit.
    pub fn overlap_hit(&mut self, hits: &[OverlapHit], id: ShapeId) -> (ret: bool)
        ensures
            *final(self) == cursor_step(
                *old(self),
                hits@.len() as int,
                overlap_differs(hits@, old(self).cursor as int, id),
            ),
            ret == (old(self).cursor < hits@.len() && hits@[old(self).cursor as int].user_return),
    {
        if self.cursor >= hits.len() {
            self.matched = false;
            return false;
        }
        let h = hits[self.cursor];
        self.cursor = self.cursor + 1;
        if id.index1 != h.id.index1 || id.generation != h.id.generation {
            self.matched = false;
        }
        h.user_return
    }

    /// A replayed cast hit, held to the recorded hits; whether its point
    /// differs from the recorded one the caller decides. Returns the
    /// fraction the recorded callback returned at this place, or zero past
    /// the last recorded hit.
    pub fn cast_hit(&mut self, hits: &[CastHit], id: ShapeId, point_differs: bool, normal: Vec2, fraction: u32) -> (ret: u32)
        ensures
            *final(self) == cursor_step(
                *old(self),
                hits@.len() as int,
                cast_differs(hits@, old(self).cursor as int, id, point_differs, normal, fraction),
            ),
            ret == if old(self).cursor < hits@.len() {
                hits@[old(self).cursor as int].user_return
            } else {
                0
            },
    {
        if self.cursor >= hits.len() {
            self.matched = false;
            return 0;
        }
        let h = hits[self.cursor];
        self.cursor = self.cursor + 1;
        if id.index1 != h.id.index1 || id.generation != h.id.generation || point_differs || normal.x != h.normal.x
            || normal.y != h.normal.y || fraction != h.fraction {
            self.matched = false;
        }
        h.user_return
    }

    /// A replayed mover plane, held to the recorded planes: returns what
    /// the recorded callback returned at this place, or false past the last
    /// recorded plane.
    pub fn plane_hit(&mut self, hits: &[PlaneHit], id: ShapeId, plane: PlaneResult) -> (ret: bool)
        ensures
            *final(self) == cursor_step(
                *old(self),
                hits@.len() as int,
                plane_differs(hits@, old(self).cursor as int, id, plane),
            ),
            ret == (old(self).cursor < hits@.len() && hits@[old(self).cursor as int].user_return),
    {
        if self.cursor >= hits.len() {
            self.matched = false;
            return false;
        }
        let h = hits[self.cursor];
        self.cursor = self.cursor + 1;
        if id.index1 != h.id.index1 || id.generation != h.id.generation || plane.plane.normal.x
            != h.plane.plane.normal.x || plane.plane.normal.y != h.plane.plane.normal.y || plane.plane.offset
            != h.plane.plane.offset {
            self.matched = false;
        }
        h.user_return
    }

    /// Whether the replayed query reproduced its `count` recorded hits: all
    /// came, in order, and each agreed.
    pub fn reproduced(&self, count: usize) -> (b: bool)
        ensures
            b == (self.matched && self.cursor == count),
    {
        self.matched && self.cursor == count
    }
}

/// Whether a replayed closest-hit ray cast reproduces the recorded result:
/// both hit or both miss, and on a hit the shape, point (as the caller
/// found it), normal and fraction agree.
pub fn closest_reproduced(got: &RayResult, rec: &RayResult, point_differs: bool) -> (b: bool)
    ensures
        b == (got.hit == rec.hit && (!got.hit || (!shape_id_differs(got.shape_id, rec.shape_id) && !point_differs
            && got.normal == rec.normal && got.fraction == rec.fraction))),
{
    got.hit == rec.hit && (!got.hit || (!(got.shape_id.index1 != rec.shape_id.index1 || got.shape_id.generation
        != rec.shape_id.generation) && !point_differs && got.normal.x == rec.normal.x && got.normal.y
        == rec.normal.y && got.fraction == rec.fraction))
}

/// Whether a replayed shape ray cast reproduces the recorded output: both
/// hit or both miss, and on a hit the normal, point (as the caller found
/// it) and fraction agree.
pub fn ray_cast_reproduced(got: &WorldCastOutput, rec: &WorldCastOutput, point_differs: bool) -> (b: bool)
    ensures
        b == (got.hit == rec.hit && (!got.hit || (got.normal == rec.normal && !point_differs && got.fraction
            == rec.fraction))),
{
    got.hit == rec.hit && (!got.hit || (got.normal.x == rec.normal.x && got.normal.y == rec.normal.y
        && !point_differs && got.fraction == rec.fraction))
}

} // verus!
