use vstd::prelude::*;
use super::{frame_bytes, rec_patch_u32, rec_reserve_u32, splice, Recording, REC_MAX_PAYLOAD};
use crate::types::TreeStats;
use crate::world::World;
use crate::write::{rec_w_treestats, rec_w_u32, tree_stats_bytes, u32_bytes};

verus! {

broadcast use crate::write::lemma_le_bytes_len;

pub const OP_QUERY_OVERLAP_AABB: u8 = 0xE0;
pub const OP_QUERY_OVERLAP_SHAPE: u8 = 0xE1;
pub const OP_QUERY_CAST_RAY: u8 = 0xE2;
pub const OP_QUERY_CAST_SHAPE: u8 = 0xE3;
pub const OP_QUERY_COLLIDE_MOVER: u8 = 0xE4;
pub const OP_QUERY_CAST_RAY_CLOSEST: u8 = 0xE5;
pub const OP_QUERY_CAST_MOVER: u8 = 0xE6;
pub const OP_SHAPE_TEST_POINT: u8 = 0xE7;
pub const OP_SHAPE_RAY_CAST: u8 = 0xE8;

/// The kind of a recorded spatial query.
#[derive(Clone, Copy, Debug, PartialEq, Eq, Structural)]
pub enum RecQueryType {
    OverlapAabb,
    OverlapShape,
    CastRay,
    CastShape,
    CollideMover,
    CastRayClosest,
    CastMover,
    ShapeTestPoint,
    ShapeRayCast,
}

/// Per-call query recorder: the query's arguments and a reserved hit-count
/// slot, then each hit as the query reports it, committed as one framed
/// record. Inactive (every call a no-op) when no session records.
#[derive(Debug)]
pub struct QueryRecorder {
    pub buf: Vec<u8>,
    count_offset: usize,
    pub hits: u32,
    active: bool,
}

impl QueryRecorder {
    /// The payload built so far.
    pub closed spec fn bytes(&self) -> Seq<u8> {
        self.buf@
    }

    /// Offset of the reserved hit-count slot.
    pub closed spec fn count_slot(&self) -> int {
        self.count_offset as int
    }

    /// Whether a session records this query.
    pub closed spec fn is_active(&self) -> bool {
        self.active
    }

    /// Hits counted so far.
    pub closed spec fn hit_count(&self) -> u32 {
        self.hits
    }

    /// Start recording a query whose serialized arguments are `args`: the
    /// informational world word 1, the arguments, and a zeroed hit count.
    pub fn begin(world: &World, args: &[u8]) -> (q: QueryRecorder)
        ensures
            q.is_active() == world.recording.is_some(),
            q.hit_count() == 0,
            q.is_active() ==> q.bytes() == u32_bytes(1) + args@ + seq![0u8, 0u8, 0u8, 0u8],
            q.is_active() ==> q.count_slot() == 4 + args@.len(),
            !q.is_active() ==> q.bytes() == Seq::<u8>::empty(),
    {
        if world.recording.is_none() {
            return QueryRecorder { buf: Vec::new(), count_offset: 0, hits: 0, active: false };
        }
        let mut buf: Vec<u8> = Vec::new();
        rec_w_u32(&mut buf, 1);
        push_all(&mut buf, args);
        let count_offset = rec_reserve_u32(&mut buf);
        QueryRecorder { buf, count_offset, hits: 0, active: true }
    }

    /// Whether a session records this query.
    pub fn active(&self) -> (r: bool)
        ensures
            r == self.is_active(),
    {
        self.active
    }

    /// Record one hit as the query reports it: its serialized bytes are
    /// appended and the hit count goes up by one. Nothing happens for an
    /// inactive recorder.
    pub fn record_hit(&mut self, hit: &[u8])
        requires
            old(self).hit_count() < u32::MAX,
        ensures
            final(self).is_active() == old(self).is_active(),
            final(self).count_slot() == old(self).count_slot(),
            old(self).is_active() ==> final(self).bytes() == old(self).bytes() + hit@,
            old(self).is_active() ==> final(self).hit_count() == old(self).hit_count() + 1,
            !old(self).is_active() ==> *final(self) == *old(self),
    {
        if !self.active {
            return;
        }
        push_all(&mut self.buf, hit);
        self.hits = self.hits + 1;
    }

    /// Fill in the hit count, append the tree statistics if given, and
    /// commit the payload as one record to the world's session, if any.
    /// Nothing happens for an inactive recorder.
    pub fn commit(self, world: &mut World, opcode: u8, stats: Option<TreeStats>)
        requires
            self.is_active() ==> self.count_slot() + 4 <= self.bytes().len(),
            self.is_active() ==> self.bytes().len() + 8 <= REC_MAX_PAYLOAD,
        ensures
            ({
                let patched = splice(self.bytes(), self.count_slot(), u32_bytes(self.hit_count()));
                let payload = match stats {
                    Some(s) => patched + tree_stats_bytes(s),
                    None => patched,
                };
                if self.is_active() && old(world).recording is Some {
                    &&& final(world).recording is Some
                    &&& final(world).recording->0.bytes() == old(world).recording->0.bytes() + frame_bytes(opcode, payload)
                    &&& final(world).recording->0.open_slot() == old(world).recording->0.open_slot()
                } else {
                    final(world).recording == old(world).recording
                }
            }),
            final(world).world_id == old(world).world_id,
            final(world).generation == old(world).generation,
            final(world).locked == old(world).locked,
            final(world).bodies@ == old(world).bodies@,
            final(world).shapes@ == old(world).shapes@,
            final(world).chain_shapes@ == old(world).chain_shapes@,
            final(world).joints@ == old(world).joints@,
            final(world).sensors@ == old(world).sensors@,
            final(world).solver_sets@ == old(world).solver_sets@,
            final(world).graph_colors@ == old(world).graph_colors@,
    {
        if !self.active {
            return;
        }
        let mut buf = self.buf;
        rec_patch_u32(buf.as_mut_slice(), self.count_offset, self.hits);
        if let Some(stats) = stats {
            rec_w_treestats(&mut buf, stats);
        }
        if let Some(rec) = world.recording.as_mut() {
            rec.commit_record(opcode, buf.as_slice());
        }
    }
}

/// The payload of a self-contained query record: the informational world
/// word 1 (not for the shape-local queries), the arguments, the result.
pub open spec fn query_result_payload(opcode: u8, args: Seq<u8>, result: Seq<u8>) -> Seq<u8> {
    if opcode != OP_SHAPE_TEST_POINT && opcode != OP_SHAPE_RAY_CAST {
        u32_bytes(1) + args + result
    } else {
        args + result
    }
}

/// Append `bytes` to `buf`.
fn push_all(buf: &mut Vec<u8>, bytes: &[u8])
    ensures
        final(buf)@ == old(buf)@ + bytes@,
{
    let mut i: usize = 0;
    while i < bytes.len()
        invariant
            0 <= i <= bytes@.len(),
            buf@ == old(buf)@ + bytes@.take(i as int),
        decreases bytes@.len() - i,
    {
        buf.push(bytes[i]);
        i = i + 1;
        assert(buf@ =~= old(buf)@ + bytes@.take(i as int));
    }
    assert(bytes@.take(bytes@.len() as int) =~= bytes@);
}

/// Record a self-contained query, whose serialized arguments and single
/// result are `args` and `result` and which has no hit list, as one record
/// of the world's session, if any. (the closest ray cast, mover cast and the
/// shape-local queries)
pub fn record_query_result(world: &mut World, opcode: u8, args: &[u8], result: &[u8])
    requires
        4 + args@.len() + result@.len() <= REC_MAX_PAYLOAD,
    ensures
        if old(world).recording is Some {
            &&& final(world).recording is Some
            &&& final(world).recording->0.bytes() == old(world).recording->0.bytes() + frame_bytes(
                opcode,
                query_result_payload(opcode, args@, result@),
            )
            &&& final(world).recording->0.open_slot() == old(world).recording->0.open_slot()
        } else {
            final(world).recording == old(world).recording
        },
        final(world).world_id == old(world).world_id,
        final(world).generation == old(world).generation,
        final(world).locked == old(world).locked,
        final(world).bodies@ == old(world).bodies@,
        final(world).shapes@ == old(world).shapes@,
        final(world).chain_shapes@ == old(world).chain_shapes@,
        final(world).joints@ == old(world).joints@,
        final(world).sensors@ == old(world).sensors@,
        final(world).solver_sets@ == old(world).solver_sets@,
        final(world).graph_colors@ == old(world).graph_colors@,
{
    if let Some(rec) = world.recording.as_mut() {
        let mut buf: Vec<u8> = Vec::new();
        if opcode != OP_SHAPE_TEST_POINT && opcode != OP_SHAPE_RAY_CAST {
            rec_w_u32(&mut buf, 1);
        }
        push_all(&mut buf, args);
        push_all(&mut buf, result);
        rec.commit_record(opcode, buf.as_slice());
    }
}

} // verus!
