use lib::geometry::{Plane, PlaneResult, RayResult, Vec2, WorldCastOutput};
use lib::id::ShapeId;
use lib::recording::query::{
    RecQueryType, OP_QUERY_CAST_RAY, OP_QUERY_CAST_RAY_CLOSEST, OP_QUERY_COLLIDE_MOVER, OP_QUERY_OVERLAP_AABB,
    OP_SHAPE_RAY_CAST, OP_SHAPE_TEST_POINT,
};
use lib::recording::query_ops::{
    closest_reproduced, ray_cast_reproduced, read_query_record, stash_query_record, HitCursor, QueryRecord,
};
use lib::recording::stash::{stash_query_hit, stash_query_info, QueryStash};
use lib::snapshot::SnapReader;

fn b(v: f32) -> u32 {
    v.to_bits()
}

fn v2(x: f32, y: f32) -> Vec2 {
    Vec2 { x: b(x), y: b(y) }
}

fn f(bytes: &mut Vec<u8>, v: f32) {
    bytes.extend_from_slice(&v.to_le_bytes());
}

fn shape(index1: i32, generation: u16) -> ShapeId {
    ShapeId { index1, world0: 0, generation }
}

fn id_bytes(bytes: &mut Vec<u8>, s: ShapeId) {
    bytes.extend_from_slice(&s.generation.to_le_bytes());
    bytes.extend_from_slice(&s.world0.to_le_bytes());
    bytes.extend_from_slice(&s.index1.to_le_bytes());
}

/// An overlap box record: world, origin, box, filter, two hits, stats.
fn overlap_record() -> Vec<u8> {
    let mut p = vec![2u8, 0, 1, 0];
    f(&mut p, 1.0);
    f(&mut p, 2.0);
    for v in [-1.0f32, -1.0, 1.0, 1.0] {
        f(&mut p, v);
    }
    p.extend_from_slice(&3u64.to_le_bytes());
    p.extend_from_slice(&0xFFu64.to_le_bytes());
    p.extend_from_slice(&2u32.to_le_bytes());
    id_bytes(&mut p, shape(5, 6));
    p.push(1);
    id_bytes(&mut p, shape(7, 1));
    p.push(0);
    p.extend_from_slice(&10i32.to_le_bytes());
    p.extend_from_slice(&3i32.to_le_bytes());
    p
}

#[test]
fn overlap_record_reads_back_with_its_hits() {
    let p = overlap_record();
    let mut r = SnapReader::new(&p);
    let q = read_query_record(OP_QUERY_OVERLAP_AABB, &mut r).expect("query record");
    assert!(r.ok);
    assert_eq!(r.cursor, p.len());
    match &q {
        QueryRecord::OverlapAabb { origin, aabb, filter, hits } => {
            assert_eq!(*origin, v2(1.0, 2.0));
            assert_eq!(aabb.lower_bound, v2(-1.0, -1.0));
            assert_eq!(aabb.upper_bound, v2(1.0, 1.0));
            assert_eq!((filter.category_bits, filter.mask_bits), (3, 0xFF));
            assert_eq!(hits.len(), 2);
            assert_eq!(hits[0].id, shape(5, 6));
            assert!(hits[0].user_return);
            assert_eq!(hits[1].id, shape(7, 1));
            assert!(!hits[1].user_return);
        },
        _ => panic!("overlap box expected"),
    }
    let mut stash = QueryStash::new();
    stash_query_record(&mut stash, &q);
    let info = stash_query_info(&stash, 0);
    assert_eq!(info.type_, RecQueryType::OverlapAabb);
    assert_eq!(info.hit_count, 2);
    assert_eq!(info.origin, v2(1.0, 2.0));
    assert_eq!(stash_query_hit(&stash, 0, 1).shape, shape(7, 1));
}

#[test]
fn overlap_replay_reproduces_only_the_recorded_hits() {
    let p = overlap_record();
    let mut r = SnapReader::new(&p);
    let hits = match read_query_record(OP_QUERY_OVERLAP_AABB, &mut r) {
        Some(QueryRecord::OverlapAabb { hits, .. }) => hits,
        _ => panic!("overlap box expected"),
    };
    // Same hits in the same order: reproduced, and the recorded callback
    // results steer the replay.
    let mut c = HitCursor::new();
    assert!(c.overlap_hit(&hits, shape(5, 6)));
    assert!(!c.overlap_hit(&hits, shape(7, 1)));
    assert!(c.reproduced(hits.len()));
    // A different shape at the second place.
    let mut c = HitCursor::new();
    c.overlap_hit(&hits, shape(5, 6));
    c.overlap_hit(&hits, shape(7, 2));
    assert!(!c.reproduced(hits.len()));
    // One hit short.
    let mut c = HitCursor::new();
    c.overlap_hit(&hits, shape(5, 6));
    assert!(!c.reproduced(hits.len()));
    // One hit too many: refused past the end.
    let mut c = HitCursor::new();
    c.overlap_hit(&hits, shape(5, 6));
    c.overlap_hit(&hits, shape(7, 1));
    assert!(!c.overlap_hit(&hits, shape(7, 1)));
    assert_eq!(c.cursor, 2);
    assert!(!c.reproduced(hits.len()));
}

#[test]
fn overlap_record_with_a_bad_count_reads_no_hits() {
    let mut p = overlap_record();
    // count field sits after world, origin, box and filter
    p[4 + 8 + 16 + 16..4 + 8 + 16 + 16 + 4].copy_from_slice(&1000u32.to_le_bytes());
    let mut r = SnapReader::new(&p);
    match read_query_record(OP_QUERY_OVERLAP_AABB, &mut r) {
        Some(QueryRecord::OverlapAabb { hits, .. }) => assert!(hits.is_empty()),
        _ => panic!("overlap box expected"),
    }
    assert!(!r.ok);
}

#[test]
fn cast_ray_record_and_replay() {
    let mut p = vec![2u8, 0, 1, 0];
    f(&mut p, 0.0);
    f(&mut p, 0.0);
    f(&mut p, 10.0);
    f(&mut p, 0.0);
    p.extend_from_slice(&1u64.to_le_bytes());
    p.extend_from_slice(&1u64.to_le_bytes());
    p.extend_from_slice(&1u32.to_le_bytes());
    id_bytes(&mut p, shape(2, 3));
    for v in [4.0f32, 0.0, -1.0, 0.0, 0.4, 1.0] {
        f(&mut p, v);
    }
    p.extend_from_slice(&[0u8; 8]);
    let mut r = SnapReader::new(&p);
    let q = read_query_record(OP_QUERY_CAST_RAY, &mut r).expect("query record");
    assert!(r.ok && r.cursor == p.len());
    let hits = match &q {
        QueryRecord::CastRay { translation, hits, .. } => {
            assert_eq!(*translation, v2(10.0, 0.0));
            hits.clone()
        },
        _ => panic!("cast ray expected"),
    };
    assert_eq!(hits.len(), 1);
    assert_eq!(hits[0].point, v2(4.0, 0.0));
    let mut c = HitCursor::new();
    assert_eq!(c.cast_hit(&hits, shape(2, 3), false, v2(-1.0, 0.0), b(0.4)), b(1.0));
    assert!(c.reproduced(1));
    let mut c = HitCursor::new();
    c.cast_hit(&hits, shape(2, 3), false, v2(-1.0, 0.0), b(0.41));
    assert!(!c.reproduced(1));
    let mut c = HitCursor::new();
    c.cast_hit(&hits, shape(2, 3), true, v2(-1.0, 0.0), b(0.4));
    assert!(!c.reproduced(1));
    let mut stash = QueryStash::new();
    stash_query_record(&mut stash, &q);
    let h = stash_query_hit(&stash, 0, 0);
    assert_eq!((h.shape, h.point, h.normal, h.fraction), (shape(2, 3), v2(4.0, 0.0), v2(-1.0, 0.0), b(0.4)));
}

#[test]
fn collide_mover_record_and_replay() {
    let mut p = vec![2u8, 0, 1, 0];
    f(&mut p, 0.0);
    f(&mut p, 0.0);
    for v in [0.0f32, 0.0, 0.0, 1.0, 0.5] {
        f(&mut p, v);
    }
    p.extend_from_slice(&1u64.to_le_bytes());
    p.extend_from_slice(&1u64.to_le_bytes());
    p.extend_from_slice(&1u32.to_le_bytes());
    id_bytes(&mut p, shape(9, 2));
    for v in [0.0f32, 1.0, 0.25, 0.0, -0.5] {
        f(&mut p, v);
    }
    p.push(1);
    p.push(1);
    let mut r = SnapReader::new(&p);
    let q = read_query_record(OP_QUERY_COLLIDE_MOVER, &mut r).expect("query record");
    assert!(r.ok && r.cursor == p.len());
    let hits = match &q {
        QueryRecord::CollideMover { mover, hits, .. } => {
            assert_eq!(mover.radius, b(0.5));
            hits.clone()
        },
        _ => panic!("collide mover expected"),
    };
    assert_eq!(hits.len(), 1);
    let plane = PlaneResult { plane: Plane { normal: v2(0.0, 1.0), offset: b(0.25) }, point: v2(0.0, -0.5), hit: true };
    assert_eq!(hits[0].plane, plane);
    let mut c = HitCursor::new();
    assert!(c.plane_hit(&hits, shape(9, 2), plane));
    assert!(c.reproduced(1));
    let mut c = HitCursor::new();
    let moved = PlaneResult { plane: Plane { normal: v2(0.0, 1.0), offset: b(0.3) }, ..plane };
    c.plane_hit(&hits, shape(9, 2), moved);
    assert!(!c.reproduced(1));
    let mut stash = QueryStash::new();
    stash_query_record(&mut stash, &q);
    assert_eq!(stash.hits[0].plane, plane);
    assert!(stash.hits[0].user_return_b);
    assert_eq!(stash.queries[0].kind, RecQueryType::CollideMover);
}

#[test]
fn shape_local_queries_read_back() {
    let mut p = Vec::new();
    id_bytes(&mut p, shape(4, 4));
    f(&mut p, 1.5);
    f(&mut p, -2.5);
    p.push(1);
    let mut r = SnapReader::new(&p);
    match read_query_record(OP_SHAPE_TEST_POINT, &mut r) {
        Some(QueryRecord::TestPoint { shape: s, point, result }) => {
            assert_eq!(s, shape(4, 4));
            assert_eq!(point, v2(1.5, -2.5));
            assert!(result);
        },
        _ => panic!("test point expected"),
    }
    assert!(r.ok && r.cursor == p.len());

    let mut p = Vec::new();
    id_bytes(&mut p, shape(4, 4));
    for v in [0.0f32, 0.0, 1.0, 0.0] {
        f(&mut p, v);
    }
    for v in [-1.0f32, 0.0, 0.5, 0.0, 0.5] {
        f(&mut p, v);
    }
    p.extend_from_slice(&3i32.to_le_bytes());
    p.push(1);
    let mut r = SnapReader::new(&p);
    let q = read_query_record(OP_SHAPE_RAY_CAST, &mut r).expect("ray cast record");
    assert!(r.ok && r.cursor == p.len());
    let mut stash = QueryStash::new();
    stash_query_record(&mut stash, &q);
    assert_eq!(stash.queries[0].kind, RecQueryType::ShapeRayCast);
    assert_eq!(stash.queries[0].cast_out.fraction, b(0.5));
    assert_eq!(stash.queries[0].hit_count, 0);
}

#[test]
fn other_opcodes_are_not_queries() {
    let p = [0u8; 64];
    for opcode in [0xDFu8, 0xE9, 0x10, 0x80] {
        let mut r = SnapReader::new(&p);
        assert!(read_query_record(opcode, &mut r).is_none());
        assert_eq!(r.cursor, 0);
    }
    let _ = OP_QUERY_CAST_RAY_CLOSEST;
}

#[test]
fn single_result_queries_reproduce_on_agreement() {
    let rec = RayResult {
        shape_id: shape(1, 1),
        point: v2(1.0, 0.0),
        normal: v2(-1.0, 0.0),
        fraction: b(0.1),
        node_visits: 4,
        leaf_visits: 2,
        hit: true,
    };
    assert!(closest_reproduced(&rec, &rec, false));
    assert!(!closest_reproduced(&rec, &rec, true));
    let other = RayResult { shape_id: shape(1, 2), ..rec };
    assert!(!closest_reproduced(&other, &rec, false));
    let miss = RayResult { hit: false, ..rec };
    let miss2 = RayResult { hit: false, fraction: 0, ..rec };
    assert!(closest_reproduced(&miss, &miss2, true));
    assert!(!closest_reproduced(&miss, &rec, false));

    let out = WorldCastOutput { normal: v2(0.0, 1.0), point: v2(0.0, 0.0), fraction: b(0.5), iterations: 2, hit: true };
    assert!(ray_cast_reproduced(&out, &out, false));
    assert!(!ray_cast_reproduced(&WorldCastOutput { fraction: b(0.6), ..out }, &out, false));
    assert!(ray_cast_reproduced(&WorldCastOutput { hit: false, ..out }, &WorldCastOutput { hit: false, iterations: 9, ..out }, false));
}
