use lib::id::{BodyId, ChainId, JointId, ShapeId, WorldId};
use lib::recording::{rec_patch_u32, rec_reserve_u32, RecHeader, Recording, REC_MAGIC, REC_VERSION_MAJOR, REC_VERSION_MINOR};
use lib::types::{Filter, MotionLocks, QueryFilter, SurfaceMaterial, TreeStats};
use lib::write::{
    rec_w_bodyid, rec_w_bool, rec_w_chainid, rec_w_filter, rec_w_i32, rec_w_jointid, rec_w_locks,
    rec_w_material, rec_w_queryfilter, rec_w_shapeid, rec_w_str, rec_w_treestats, rec_w_u16,
    rec_w_u32, rec_w_u64, rec_w_u8, rec_w_worldid,
};

#[test]
fn wire_primitives_and_framing() {
    let mut buf = Vec::new();
    rec_w_u16(&mut buf, 0x1234);
    rec_w_u32(&mut buf, 0xAABBCCDD);
    rec_w_u32(&mut buf, 1.0f32.to_bits());
    rec_w_bool(&mut buf, true);
    assert_eq!(buf, [0x34, 0x12, 0xDD, 0xCC, 0xBB, 0xAA, 0x00, 0x00, 0x80, 0x3F, 0x01]);

    // Framing: opcode, u24 size, payload.
    let mut rec = Recording::new(64);
    rec.begin_record(0x80);
    rec_w_u32(&mut rec.buffer, (1.0f32 / 60.0).to_bits());
    rec_w_i32(&mut rec.buffer, 4);
    rec.end_record();
    assert_eq!(rec.buffer[0], 0x80);
    assert_eq!(&rec.buffer[1..4], &[8, 0, 0]); // 8-byte payload
    assert_eq!(rec.buffer.len(), 12);

    // commit_record writes the same framing in one shot.
    let mut rec2 = Recording::new(64);
    rec2.commit_record(0x80, &rec.buffer[4..12]);
    assert_eq!(rec2.buffer, rec.buffer);

    // Reserve/patch round trip.
    let mut qbuf = Vec::new();
    let offset = rec_reserve_u32(&mut qbuf);
    rec_w_u8(&mut qbuf, 7);
    rec_patch_u32(&mut qbuf, offset, 3);
    assert_eq!(qbuf, [3, 0, 0, 0, 7]);
}

#[test]
fn header_round_trip() {
    let header = RecHeader {
        magic: REC_MAGIC,
        version_major: REC_VERSION_MAJOR,
        version_minor: REC_VERSION_MINOR,
        length_scale: 1.0f32.to_bits(),
        pointer_width: 8,
        big_endian: 0,
        validation_enabled: 1,
        snapshot_size: 1234,
    };
    let mut buf = Vec::new();
    header.write(&mut buf);
    assert_eq!(buf.len(), RecHeader::SIZE);
    assert_eq!(&buf[0..4], b"B2RC");
    assert_eq!(RecHeader::read(&buf), Some(header));
}

#[test]
fn string_writer() {
    let mut buf = Vec::new();
    rec_w_str(&mut buf, "box");
    assert_eq!(buf, [3, 0, b'b', b'o', b'x']);

    let mut empty = Vec::new();
    rec_w_str(&mut empty, "");
    assert_eq!(empty, [0, 0]);
}

#[test]
fn string_writer_truncates_long_strings() {
    let long = "a".repeat(70000);
    let mut buf = Vec::new();
    rec_w_str(&mut buf, &long);
    assert_eq!(buf.len(), 2 + 65534);
    assert_eq!(&buf[0..2], &[0xFE, 0xFF]);
    // Multi-byte characters travel as their UTF-8 bytes.
    let mut buf = Vec::new();
    rec_w_str(&mut buf, "é");
    assert_eq!(buf, [2, 0, 0xC3, 0xA9]);
}

#[test]
fn integer_writers() {
    let mut buf = Vec::new();
    rec_w_u8(&mut buf, 0xAB);
    rec_w_u64(&mut buf, 0x0102030405060708);
    rec_w_i32(&mut buf, -2);
    rec_w_bool(&mut buf, false);
    assert_eq!(buf, [0xAB, 8, 7, 6, 5, 4, 3, 2, 1, 0xFE, 0xFF, 0xFF, 0xFF, 0]);
}

#[test]
fn id_writers_pack_index_world_generation() {
    let mut buf = Vec::new();
    rec_w_worldid(&mut buf, WorldId { index1: 2, generation: 5 });
    assert_eq!(buf, [5, 0, 2, 0]);
    let mut buf = Vec::new();
    rec_w_bodyid(&mut buf, BodyId { index1: 7, world0: 1, generation: 3 });
    assert_eq!(buf, [3, 0, 1, 0, 7, 0, 0, 0]);
    let mut buf = Vec::new();
    rec_w_shapeid(&mut buf, ShapeId { index1: -1, world0: 0, generation: 0x0102 });
    assert_eq!(buf, [2, 1, 0, 0, 0xFF, 0xFF, 0xFF, 0xFF]);
    let mut buf = Vec::new();
    rec_w_chainid(&mut buf, ChainId { index1: 1, world0: 2, generation: 3 });
    rec_w_jointid(&mut buf, JointId { index1: 4, world0: 5, generation: 6 });
    assert_eq!(buf, [3, 0, 2, 0, 1, 0, 0, 0, 6, 0, 5, 0, 4, 0, 0, 0]);
}

#[test]
fn ids_store_and_load_back() {
    let b = BodyId { index1: -5, world0: 9, generation: 65535 };
    assert_eq!(BodyId::load(b.store()), b);
    let s = ShapeId { index1: i32::MAX, world0: 1, generation: 2 };
    assert_eq!(ShapeId::load(s.store()), s);
    let c = ChainId { index1: 3, world0: 0, generation: 0 };
    assert_eq!(ChainId::load(c.store()), c);
    let j = JointId { index1: 0, world0: 7, generation: 8 };
    assert_eq!(JointId::load(j.store()), j);
    let w = WorldId { index1: 300, generation: 400 };
    assert_eq!(WorldId::load(w.store()), w);
    assert_eq!(w.store(), (300 << 16) | 400);
}

#[test]
fn struct_writers() {
    let mut buf = Vec::new();
    rec_w_filter(&mut buf, Filter { category_bits: 1, mask_bits: 2, group_index: -1 });
    assert_eq!(buf, [1, 0, 0, 0, 0, 0, 0, 0, 2, 0, 0, 0, 0, 0, 0, 0, 0xFF, 0xFF, 0xFF, 0xFF]);
    let mut buf = Vec::new();
    rec_w_queryfilter(&mut buf, QueryFilter { category_bits: 3, mask_bits: 4 });
    assert_eq!(buf, [3, 0, 0, 0, 0, 0, 0, 0, 4, 0, 0, 0, 0, 0, 0, 0]);
    let mut buf = Vec::new();
    rec_w_locks(&mut buf, MotionLocks { linear_x: true, linear_y: false, angular_z: true });
    assert_eq!(buf, [1, 0, 1]);
    let mut buf = Vec::new();
    rec_w_treestats(&mut buf, TreeStats { node_visits: 10, leaf_visits: 3 });
    assert_eq!(buf, [10, 0, 0, 0, 3, 0, 0, 0]);
    let mut buf = Vec::new();
    let m = SurfaceMaterial {
        friction: 0.6f32.to_bits(),
        restitution: 0,
        rolling_resistance: 0,
        tangent_speed: 0,
        user_material_id: 9,
        custom_color: 0x00FF00,
    };
    rec_w_material(&mut buf, m);
    assert_eq!(buf.len(), 28);
    assert_eq!(&buf[0..4], &0.6f32.to_le_bytes());
    assert_eq!(&buf[16..24], &9u64.to_le_bytes());
    assert_eq!(&buf[24..28], &[0x00, 0xFF, 0x00, 0x00]);
}

#[test]
fn header_read_rejects_short_data() {
    assert_eq!(RecHeader::read(&[0u8; 31]), None);
    let mut data = vec![0u8; 40];
    data[0..4].copy_from_slice(&REC_MAGIC.to_le_bytes());
    data[17] = 8;
    data[24] = 7;
    let h = RecHeader::read(&data).unwrap();
    assert_eq!(h.magic, REC_MAGIC);
    assert_eq!(h.pointer_width, 8);
    assert_eq!(h.snapshot_size, 7);
}
