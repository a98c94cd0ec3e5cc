use lib::containers::{des_bitset, des_hashset, des_id_pool, ser_bitset, ser_hashset, ser_id_pool, BitSet, HashSet, IdPool};
use lib::snapshot::{compute_layout_hash, SnapHeader, SnapReader, SNAP_MAGIC, SNAP_VERSION};

#[test]
fn header_compatibility() {
    let header = SnapHeader::current();
    let mut buf = Vec::new();
    header.write(&mut buf);
    assert_eq!(buf.len(), SnapHeader::SIZE);

    let mut r = SnapReader::new(&buf);
    let read = r.r_header();
    assert!(r.ok);
    assert_eq!(read, header);
    assert!(read.is_compatible());

    // Wrong layout hash refuses to load.
    let foreign = SnapHeader { layout_hash: header.layout_hash ^ 1, ..header };
    assert!(!foreign.is_compatible());
}

#[test]
fn header_fields_and_flags() {
    let header = SnapHeader::current();
    assert_eq!(header.magic, SNAP_MAGIC);
    assert_eq!(header.version, SNAP_VERSION);
    assert_eq!(header.layout_hash, compute_layout_hash());
    // A double-precision image is refused by this single-precision build.
    let wide = SnapHeader { flags: 0x2, ..header };
    assert!(!wide.is_compatible());
    // The validation flag alone does not matter.
    let validated = SnapHeader { flags: 0x1, ..header };
    assert!(validated.is_compatible());
    // Wrong magic or version refuses.
    assert!(!SnapHeader { magic: 0, ..header }.is_compatible());
    assert!(!SnapHeader { version: 2, ..header }.is_compatible());
}

#[test]
fn layout_hash_is_fnv_over_sizes() {
    let sizes = [
        std::mem::size_of::<lib::world::Body>(),
        std::mem::size_of::<lib::snapshot_bodies::BodySim>(),
        std::mem::size_of::<lib::snapshot_bodies::BodyState>(),
        std::mem::size_of::<lib::shape::Shape>(),
        std::mem::size_of::<lib::shape::ChainShape>(),
        std::mem::size_of::<lib::snapshot_bodies::Contact>(),
        std::mem::size_of::<lib::snapshot_bodies::ContactSim>(),
        std::mem::size_of::<lib::joint::Joint>(),
        std::mem::size_of::<lib::joint::JointSim>(),
        std::mem::size_of::<lib::snapshot_structs::Island>(),
        std::mem::size_of::<lib::snapshot_structs::IslandSim>(),
        std::mem::size_of::<lib::snapshot_tree::TreeNode>(),
        std::mem::size_of::<lib::sensor::Sensor>(),
        24,
    ];
    let mut h: u32 = 2166136261;
    for s in sizes {
        h ^= s as u32;
        h = h.wrapping_mul(16777619);
    }
    assert_eq!(compute_layout_hash(), h);
}

#[test]
fn reader_decodes_little_endian() {
    let data = [0x34u8, 0x12, 0xDD, 0xCC, 0xBB, 0xAA, 1, 2, 3, 4, 5, 6, 7, 8, 0xFF, 0xFF, 0xFF, 0xFF, 0, 9];
    let mut r = SnapReader::new(&data);
    assert_eq!(r.r_u16(), 0x1234);
    assert_eq!(r.r_u32(), 0xAABBCCDD);
    assert_eq!(r.r_u64(), 0x0807060504030201);
    assert_eq!(r.r_i32(), -1);
    assert!(!r.r_bool());
    assert_eq!(r.r_u8(), 9);
    assert!(r.ok);
    assert_eq!(r.cursor, data.len());
}

#[test]
fn short_input_trips_ok_and_reads_zero() {
    let data = [1u8, 2, 3];
    let mut r = SnapReader::new(&data);
    assert_eq!(r.r_u32(), 0);
    assert!(!r.ok);
    assert_eq!(r.cursor, 0);
    // Once bad, every read yields zero, even one that would fit.
    assert_eq!(r.r_u8(), 0);
    assert!(!r.r_bool());
    assert_eq!(r.cursor, 0);
}

#[test]
fn header_read_from_short_image() {
    let header = SnapHeader { magic: 1, version: 2, layout_hash: 3, flags: 4 };
    let mut buf = Vec::new();
    header.write(&mut buf);
    let mut r = SnapReader::new(&buf[..10]);
    let read = r.r_header();
    assert!(!r.ok);
    assert_eq!(read, SnapHeader { magic: 1, version: 2, layout_hash: 0, flags: 0 });
}

#[test]
fn check_count_guards_against_huge_counts() {
    let data = [0u8; 16];
    let mut r = SnapReader::new(&data);
    assert!(r.check_count(4, 4));
    assert!(r.ok);
    assert!(!r.check_count(5, 4));
    assert!(!r.ok);
    let mut r = SnapReader::new(&data);
    assert!(!r.check_count(-1, 4));
    assert!(!r.ok);
    // The guard does not look at an already bad reader.
    assert!(r.check_count(0, 8));
}

#[test]
fn id_pool_round_trip() {
    let pool = IdPool { free_array: vec![2, 4], next_index: 6 };
    let mut buf = Vec::new();
    ser_id_pool(&mut buf, &pool);
    assert_eq!(buf, [2, 0, 0, 0, 2, 0, 0, 0, 4, 0, 0, 0, 6, 0, 0, 0]);
    let mut r = SnapReader::new(&buf);
    let restored = des_id_pool(&mut r);
    assert!(r.ok);
    assert_eq!(restored.free_array, pool.free_array);
    assert_eq!(restored.next_index, pool.next_index);
}

#[test]
fn id_pool_corrupt_count_gives_empty_pool() {
    let buf = [100u8, 0, 0, 0, 1, 0, 0, 0];
    let mut r = SnapReader::new(&buf);
    let restored = des_id_pool(&mut r);
    assert!(!r.ok);
    assert!(restored.free_array.is_empty());
    assert_eq!(restored.next_index, 0);
}

#[test]
fn bitset_round_trip() {
    let mut bs = BitSet::new(200);
    assert_eq!(bs.blocks.len(), 4);
    assert_eq!(bs.block_count, 0);
    bs.block_count = 4;
    bs.blocks[0] = 1 << 3;
    bs.blocks[2] = 1 << 2;
    let mut buf = Vec::new();
    ser_bitset(&mut buf, &bs);
    let mut r = SnapReader::new(&buf);
    let restored = des_bitset(&mut r);
    assert!(r.ok);
    assert_eq!(restored.block_count, 4);
    assert_eq!(restored.blocks, bs.blocks);
}

#[test]
fn hashset_round_trip_and_truncated_image() {
    let mut hs = HashSet::new(16);
    assert_eq!(hs.items.len(), 16);
    hs.items[3] = (3u64 << 32) | 9;
    hs.items[7] = (1u64 << 32) | 2;
    hs.count = 2;
    let mut buf = Vec::new();
    ser_hashset(&mut buf, &hs);
    let mut r = SnapReader::new(&buf);
    let restored = des_hashset(&mut r);
    assert!(r.ok);
    assert_eq!(restored.count, 2);
    assert_eq!(restored.items, hs.items);

    let mut short = SnapReader::new(&buf[..20]);
    let restored = des_hashset(&mut short);
    assert!(!short.ok);
    assert_eq!(restored.count, 0);
    assert_eq!(restored.items, vec![0u64; 16]);
}

#[test]
fn hashset_capacity_rounds_up_to_power_of_two() {
    assert_eq!(HashSet::new(0).items.len(), 16);
    assert_eq!(HashSet::new(17).items.len(), 32);
    assert_eq!(HashSet::new(100).items.len(), 128);
    assert_eq!(HashSet::new(128).items.len(), 128);
}
