use vstd::prelude::*;
use super::query::RecQueryType;
use super::read::{CastHit, OverlapHit};
use crate::geometry::{Aabb, Capsule, Plane, PlaneResult, Pos, ShapeProxy, Vec2, WorldCastOutput};
use crate::id::ShapeId;
use crate::types::QueryFilter;

verus! {

// The player's per-frame store of replayed spatial queries: each query with
// its arguments and a window into one pooled array of hits. Real values are
// held as their IEEE-754 single precision bit patterns.

/// One recorded callback hit, as the per-frame store keeps it.
#[derive(Clone, Copy, Debug, PartialEq, Eq, Structural)]
pub struct RecordedHit {
    pub id: ShapeId,
    pub point: Pos,
    pub normal: Vec2,
    pub fraction: u32,
    pub plane: PlaneResult,
    pub user_return_f: u32,
    pub user_return_b: bool,
}

/// The zero vector.
pub open spec fn zero_vec() -> Vec2 {
    Vec2 { x: 0, y: 0 }
}

/// A hit with every field zero.
pub open spec fn blank_hit() -> RecordedHit {
    RecordedHit {
        id: ShapeId { index1: 0, world0: 0, generation: 0 },
        point: zero_vec(),
        normal: zero_vec(),
        fraction: 0,
        plane: PlaneResult { plane: Plane { normal: zero_vec(), offset: 0 }, point: zero_vec(), hit: false },
        user_return_f: 0,
        user_return_b: false,
    }
}

fn zero() -> (v: Vec2)
    ensures
        v == zero_vec(),
{
    Vec2 { x: 0, y: 0 }
}

fn new_blank_hit() -> (h: RecordedHit)
    ensures
        h == blank_hit(),
{
    RecordedHit {
        id: ShapeId { index1: 0, world0: 0, generation: 0 },
        point: zero(),
        normal: zero(),
        fraction: 0,
        plane: PlaneResult { plane: Plane { normal: zero(), offset: 0 }, point: zero(), hit: false },
        user_return_f: 0,
        user_return_b: false,
    }
}

/// One replayed query with its arguments and its window of pooled hits.
#[derive(Clone, Copy, Debug)]
pub struct DrawQuery {
    pub kind: RecQueryType,
    pub filter: QueryFilter,
    pub aabb: Aabb,
    pub proxy: ShapeProxy,
    pub mover: Capsule,
    pub origin: Pos,
    pub translation: Vec2,
    pub bool_result: bool,
    pub cast_fraction: u32,
    pub cast_out: WorldCastOutput,
    pub shape: ShapeId,
    pub hit_start: usize,
    pub hit_count: usize,
}

/// A query of this kind with every argument zero and the given window.
pub open spec fn blank_query(kind: RecQueryType, hit_start: usize, hit_count: usize) -> DrawQuery {
    DrawQuery {
        kind,
        filter: QueryFilter { category_bits: 0, mask_bits: 0 },
        aabb: Aabb { lower_bound: zero_vec(), upper_bound: zero_vec() },
        proxy: ShapeProxy { points: [zero_vec(), zero_vec(), zero_vec(), zero_vec(), zero_vec(), zero_vec(), zero_vec(), zero_vec()], count: 0, radius: 0 },
        mover: Capsule { center1: zero_vec(), center2: zero_vec(), radius: 0 },
        origin: zero_vec(),
        translation: zero_vec(),
        bool_result: false,
        cast_fraction: 0,
        cast_out: WorldCastOutput { normal: zero_vec(), point: zero_vec(), fraction: 0, iterations: 0, hit: false },
        shape: ShapeId { index1: 0, world0: 0, generation: 0 },
        hit_start,
        hit_count,
    }
}

/// The per-frame query store: the queries in order, and the hits of all of
/// them pooled in one array.
pub struct QueryStash {
    pub queries: Vec<DrawQuery>,
    pub hits: Vec<RecordedHit>,
}

impl QueryStash {
    /// Every query's window lies within the pooled hits.
    pub open spec fn wf(&self) -> bool {
        forall|i: int|
            0 <= i < self.queries@.len() ==> #[trigger] self.queries@[i].hit_start + self.queries@[i].hit_count
                <= self.hits@.len()
    }

    /// The `k`-th hit of the `i`-th query.
    pub open spec fn hit_of(&self, i: int, k: int) -> RecordedHit {
        self.hits@[self.queries@[i].hit_start + k]
    }

    /// An empty store.
    pub fn new() -> (s: QueryStash)
        ensures
            s.queries@.len() == 0,
            s.hits@.len() == 0,
            s.wf(),
    {
        QueryStash { queries: Vec::new(), hits: Vec::new() }
    }

    /// Forget every query and hit, at the top of each replayed frame.
    pub fn clear(&mut self)
        ensures
            final(self).queries@.len() == 0,
            final(self).hits@.len() == 0,
            final(self).wf(),
    {
        self.queries.clear();
        self.hits.clear();
    }

    /// Append a query with its hits pooled after those already kept, and
    /// hand it out for its arguments to be filled in.
    pub fn begin(&mut self, kind: RecQueryType, hits: &[RecordedHit]) -> (q: &mut DrawQuery)
        requires
            old(self).hits@.len() + hits@.len() <= usize::MAX,
        ensures
            *q == blank_query(kind, old(self).hits@.len() as usize, hits@.len() as usize),
            final(self).hits@ == old(self).hits@ + hits@,
            final(self).queries@ == old(self).queries@.push(*final(q)),
            old(self).wf() && final(q).hit_start == q.hit_start && final(q).hit_count == q.hit_count
                ==> final(self).wf(),
    {
        let hit_start = self.hits.len();
        let mut i: usize = 0;
        while i < hits.len()
            invariant
                i <= hits@.len(),
                self.queries@ == old(self).queries@,
                self.hits@ == old(self).hits@ + hits@.take(i as int),
                hit_start == old(self).hits@.len(),
                old(self).hits@.len() + hits@.len() <= usize::MAX,
            decreases hits@.len() - i,
        {
            self.hits.push(hits[i]);
            i = i + 1;
            assert(self.hits@ =~= old(self).hits@ + hits@.take(i as int));
        }
        assert(hits@.take(hits@.len() as int) =~= hits@);
        let z = zero();
        let q = DrawQuery {
            kind,
            filter: QueryFilter { category_bits: 0, mask_bits: 0 },
            aabb: Aabb { lower_bound: z, upper_bound: z },
            proxy: ShapeProxy { points: [z, z, z, z, z, z, z, z], count: 0, radius: 0 },
            mover: Capsule { center1: z, center2: z, radius: 0 },
            origin: z,
            translation: z,
            bool_result: false,
            cast_fraction: 0,
            cast_out: WorldCastOutput { normal: z, point: z, fraction: 0, iterations: 0, hit: false },
            shape: ShapeId { index1: 0, world0: 0, generation: 0 },
            hit_start,
            hit_count: hits.len(),
        };
        self.queries.push(q);
        let last = self.queries.len() - 1;
        &mut self.queries[last]
    }
}

/// Stashing a query keeps the store well formed, its hits read back through
/// its window in the order given, and the hits of the queries before it are
/// untouched.
pub proof fn law_stash_reads_back(before: QueryStash, hits: Seq<RecordedHit>, after: QueryStash, q: DrawQuery)
    requires
        before.wf(),
        after.hits@ == before.hits@ + hits,
        after.queries@ == before.queries@.push(q),
        q.hit_start == before.hits@.len(),
        q.hit_count == hits.len(),
    ensures
        after.wf(),
        forall|k: int| 0 <= k < hits.len() ==> #[trigger] after.hit_of(before.queries@.len() as int, k) == hits[k],
        forall|i: int, k: int|
            0 <= i < before.queries@.len() && 0 <= k < before.queries@[i].hit_count ==> #[trigger] after.hit_of(i, k)
                == before.hit_of(i, k),
{
    assert forall|i: int| 0 <= i < after.queries@.len() implies #[trigger] after.queries@[i].hit_start
        + after.queries@[i].hit_count <= after.hits@.len() by {
        if i < before.queries@.len() {
            assert(after.queries@[i] == before.queries@[i]);
        }
    }
}

/// A replayed query as the inspection API reports it.
#[derive(Clone, Copy, Debug, PartialEq, Eq, Structural)]
pub struct RecQueryInfo {
    pub type_: RecQueryType,
    /// Zeroed for the shape local query types.
    pub filter: QueryFilter,
    /// Overlap box, relative to the origin.
    pub aabb: Aabb,
    pub origin: Pos,
    /// Ray and cast translation.
    pub translation: Vec2,
    /// Target shape of the shape local query types.
    pub shape: ShapeId,
    /// Number of recorded results.
    pub hit_count: i32,
}

/// What the inspection API reports for a query index out of range.
pub open spec fn blank_info() -> RecQueryInfo {
    RecQueryInfo {
        type_: RecQueryType::OverlapAabb,
        filter: QueryFilter { category_bits: 0, mask_bits: 0 },
        aabb: Aabb { lower_bound: zero_vec(), upper_bound: zero_vec() },
        origin: zero_vec(),
        translation: zero_vec(),
        shape: ShapeId { index1: 0, world0: 0, generation: 0 },
        hit_count: 0,
    }
}

/// What the inspection API reports for the query `q`.
pub open spec fn info_of(q: DrawQuery) -> RecQueryInfo {
    RecQueryInfo {
        type_: q.kind,
        filter: q.filter,
        aabb: q.aabb,
        origin: q.origin,
        translation: q.translation,
        shape: q.shape,
        hit_count: q.hit_count as i32,
    }
}

/// The query at `index` of the last replayed frame, or a zeroed report
/// when there is none.
pub fn stash_query_info(stash: &QueryStash, index: i32) -> (info: RecQueryInfo)
    ensures
        info == if 0 <= index < stash.queries@.len() {
            info_of(stash.queries@[index as int])
        } else {
            blank_info()
        },
{
    if index < 0 || index as usize >= stash.queries.len() {
        let z = zero();
        return RecQueryInfo {
            type_: RecQueryType::OverlapAabb,
            filter: QueryFilter { category_bits: 0, mask_bits: 0 },
            aabb: Aabb { lower_bound: z, upper_bound: z },
            origin: z,
            translation: z,
            shape: ShapeId { index1: 0, world0: 0, generation: 0 },
            hit_count: 0,
        };
    }
    let q = &stash.queries[index as usize];
    RecQueryInfo {
        type_: q.kind,
        filter: q.filter,
        aabb: q.aabb,
        origin: q.origin,
        translation: q.translation,
        shape: q.shape,
        hit_count: q.hit_count as i32,
    }
}

/// One result of a replayed query as the inspection API reports it.
#[derive(Clone, Copy, Debug, PartialEq, Eq, Structural)]
pub struct RecQueryHit {
    pub shape: ShapeId,
    pub point: Pos,
    pub normal: Vec2,
    pub fraction: u32,
}

/// What the inspection API reports for a hit out of range.
pub open spec fn blank_query_hit() -> RecQueryHit {
    RecQueryHit { shape: ShapeId { index1: 0, world0: 0, generation: 0 }, point: zero_vec(), normal: zero_vec(), fraction: 0 }
}

/// What the inspection API reports for the recorded hit `h`.
pub open spec fn query_hit_of(h: RecordedHit) -> RecQueryHit {
    RecQueryHit { shape: h.id, point: h.point, normal: h.normal, fraction: h.fraction }
}

/// The `hit_index`-th result of the `query_index`-th query of the last
/// replayed frame, or a zeroed report when there is none.
pub fn stash_query_hit(stash: &QueryStash, query_index: i32, hit_index: i32) -> (hit: RecQueryHit)
    requires
        stash.wf(),
    ensures
        hit == if 0 <= query_index < stash.queries@.len() && 0 <= hit_index
            < stash.queries@[query_index as int].hit_count {
            query_hit_of(stash.hit_of(query_index as int, hit_index as int))
        } else {
            blank_query_hit()
        },
{
    if query_index < 0 || query_index as usize >= stash.queries.len() {
        return RecQueryHit { shape: ShapeId { index1: 0, world0: 0, generation: 0 }, point: zero(), normal: zero(), fraction: 0 };
    }
    let q = &stash.queries[query_index as usize];
    assert(q.hit_start + q.hit_count <= stash.hits@.len());
    if hit_index < 0 || hit_index as usize >= q.hit_count {
        return RecQueryHit { shape: ShapeId { index1: 0, world0: 0, generation: 0 }, point: zero(), normal: zero(), fraction: 0 };
    }
    let k = hit_index as usize;
    assert(q.hit_start + k < stash.hits.len());
    let h = &stash.hits[q.hit_start + k];
    RecQueryHit { shape: h.id, point: h.point, normal: h.normal, fraction: h.fraction }
}

/// The store form of a recorded overlap hit: its shape and flag.
pub open spec fn overlap_stash_hit(h: OverlapHit) -> RecordedHit {
    RecordedHit { id: h.id, user_return_b: h.user_return, ..blank_hit() }
}

/// The store form of a recorded cast hit: shape, point, normal, fraction
/// and the callback's return.
pub open spec fn cast_stash_hit(h: CastHit) -> RecordedHit {
    RecordedHit {
        id: h.id,
        point: h.point,
        normal: h.normal,
        fraction: h.fraction,
        user_return_f: h.user_return,
        ..blank_hit()
    }
}

/// The store form of recorded overlap hits, in order.
pub fn overlap_stash_hits(hits: &[OverlapHit]) -> (out: Vec<RecordedHit>)
    ensures
        out@ == hits@.map_values(|h: OverlapHit| overlap_stash_hit(h)),
{
    let mut out: Vec<RecordedHit> = Vec::new();
    let mut i: usize = 0;
    while i < hits.len()
        invariant
            i <= hits@.len(),
            out@ == hits@.take(i as int).map_values(|h: OverlapHit| overlap_stash_hit(h)),
        decreases hits@.len() - i,
    {
        let h = hits[i];
        let mut r = new_blank_hit();
        r.id = h.id;
        r.user_return_b = h.user_return;
        out.push(r);
        i = i + 1;
        assert(out@ =~= hits@.take(i as int).map_values(|h: OverlapHit| overlap_stash_hit(h)));
    }
    assert(hits@.take(hits@.len() as int) =~= hits@);
    out
}

/// The store form of recorded cast hits, in order.
pub fn cast_stash_hits(hits: &[CastHit]) -> (out: Vec<RecordedHit>)
    ensures
        out@ == hits@.map_values(|h: CastHit| cast_stash_hit(h)),
{
    let mut out: Vec<RecordedHit> = Vec::new();
    let mut i: usize = 0;
    while i < hits.len()
        invariant
            i <= hits@.len(),
            out@ == hits@.take(i as int).map_values(|h: CastHit| cast_stash_hit(h)),
        decreases hits@.len() - i,
    {
        let h = hits[i];
        let mut r = new_blank_hit();
        r.id = h.id;
        r.point = h.point;
        r.normal = h.normal;
        r.fraction = h.fraction;
        r.user_return_f = h.user_return;
        out.push(r);
        i = i + 1;
        assert(out@ =~= hits@.take(i as int).map_values(|h: CastHit| cast_stash_hit(h)));
    }
    assert(hits@.take(hits@.len() as int) =~= hits@);
    out
}

} // verus!
