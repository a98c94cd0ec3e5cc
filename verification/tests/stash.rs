use lib::geometry::{Aabb, Plane, PlaneResult, Vec2};
use lib::id::ShapeId;
use lib::recording::query::RecQueryType;
use lib::recording::read::{CastHit, OverlapHit};
use lib::recording::stash::{
    cast_stash_hits, overlap_stash_hits, stash_query_hit, stash_query_info, QueryStash, RecQueryHit,
    RecQueryInfo, RecordedHit,
};
use lib::types::QueryFilter;

fn v2(x: f32, y: f32) -> Vec2 {
    Vec2 { x: x.to_bits(), y: y.to_bits() }
}

fn sid(i: i32) -> ShapeId {
    ShapeId { index1: i, world0: 0, generation: 1 }
}

fn hit(i: i32, fraction: f32) -> RecordedHit {
    RecordedHit {
        id: sid(i),
        point: v2(i as f32, 0.0),
        normal: v2(0.0, 1.0),
        fraction: fraction.to_bits(),
        plane: PlaneResult { plane: Plane { normal: v2(0.0, 0.0), offset: 0 }, point: v2(0.0, 0.0), hit: false },
        user_return_f: 1.0f32.to_bits(),
        user_return_b: false,
    }
}

fn zero_hit() -> RecQueryHit {
    RecQueryHit { shape: ShapeId { index1: 0, world0: 0, generation: 0 }, point: v2(0.0, 0.0), normal: v2(0.0, 0.0), fraction: 0 }
}

#[test]
fn stashed_queries_read_back_with_their_hits() {
    let mut stash = QueryStash::new();
    {
        let q = stash.begin(RecQueryType::OverlapAabb, &[hit(1, 0.0), hit(2, 0.0)]);
        q.filter = QueryFilter { category_bits: 1, mask_bits: 3 };
        q.aabb = Aabb { lower_bound: v2(-1.0, -1.0), upper_bound: v2(1.0, 1.0) };
        q.origin = v2(5.0, 5.0);
    }
    {
        let q = stash.begin(RecQueryType::CastRay, &[hit(7, 0.5)]);
        q.translation = v2(0.0, -10.0);
    }
    stash.begin(RecQueryType::ShapeTestPoint, &[]).shape = sid(3);

    assert_eq!(
        stash_query_info(&stash, 0),
        RecQueryInfo {
            type_: RecQueryType::OverlapAabb,
            filter: QueryFilter { category_bits: 1, mask_bits: 3 },
            aabb: Aabb { lower_bound: v2(-1.0, -1.0), upper_bound: v2(1.0, 1.0) },
            origin: v2(5.0, 5.0),
            translation: v2(0.0, 0.0),
            shape: ShapeId { index1: 0, world0: 0, generation: 0 },
            hit_count: 2,
        }
    );
    assert_eq!(stash_query_info(&stash, 1).hit_count, 1);
    assert_eq!(stash_query_info(&stash, 2).shape, sid(3));
    assert_eq!(stash_query_info(&stash, 2).hit_count, 0);

    assert_eq!(stash_query_hit(&stash, 0, 1).shape, sid(2));
    assert_eq!(
        stash_query_hit(&stash, 1, 0),
        RecQueryHit { shape: sid(7), point: v2(7.0, 0.0), normal: v2(0.0, 1.0), fraction: 0.5f32.to_bits() }
    );
    assert_eq!(stash.hits.len(), 3);
}

#[test]
fn out_of_range_requests_report_zero() {
    let mut stash = QueryStash::new();
    stash.begin(RecQueryType::CastShape, &[hit(1, 0.25)]);
    assert_eq!(stash_query_info(&stash, 1).hit_count, 0);
    assert_eq!(stash_query_info(&stash, -1).type_, RecQueryType::OverlapAabb);
    assert_eq!(stash_query_hit(&stash, 0, 1), zero_hit());
    assert_eq!(stash_query_hit(&stash, 0, -1), zero_hit());
    assert_eq!(stash_query_hit(&stash, 5, 0), zero_hit());
}

#[test]
fn clear_forgets_the_frame() {
    let mut stash = QueryStash::new();
    stash.begin(RecQueryType::CastShape, &[hit(1, 0.25)]);
    stash.clear();
    assert!(stash.queries.is_empty());
    assert!(stash.hits.is_empty());
    assert_eq!(stash_query_hit(&stash, 0, 0), zero_hit());
}

#[test]
fn recorded_hits_map_to_store_hits() {
    let overlap = overlap_stash_hits(&[OverlapHit { id: sid(4), user_return: true }]);
    assert_eq!(overlap.len(), 1);
    assert_eq!(overlap[0].id, sid(4));
    assert!(overlap[0].user_return_b);
    assert_eq!(overlap[0].fraction, 0);

    let cast = cast_stash_hits(&[CastHit {
        id: sid(2),
        point: v2(1.0, 2.0),
        normal: v2(1.0, 0.0),
        fraction: 0.75f32.to_bits(),
        user_return: (-1.0f32).to_bits(),
    }]);
    assert_eq!(cast[0].id, sid(2));
    assert_eq!(cast[0].point, v2(1.0, 2.0));
    assert_eq!(cast[0].fraction, 0.75f32.to_bits());
    assert_eq!(cast[0].user_return_f, (-1.0f32).to_bits());
    assert!(!cast[0].user_return_b);
}
