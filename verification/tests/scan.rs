use lib::geometry::{Aabb, Vec2};
use lib::id::WorldId;
use lib::recording::ops::{
    write_destroy_world, write_recording_bounds, write_state_hash, write_step, write_world_bool,
};
use lib::recording::scan::{recording_stream_start, scan_recording, ScanInfo};
use lib::recording::{RecHeader, Recording, REC_MAGIC, REC_VERSION_MAJOR, REC_VERSION_MINOR};

fn v2(x: f32, y: f32) -> Vec2 {
    Vec2 { x: x.to_bits(), y: y.to_bits() }
}

fn header(snapshot_size: u64) -> RecHeader {
    RecHeader {
        magic: REC_MAGIC,
        version_major: REC_VERSION_MAJOR,
        version_minor: REC_VERSION_MINOR,
        length_scale: 1.0f32.to_bits(),
        pointer_width: std::mem::size_of::<usize>() as u8,
        big_endian: 0,
        validation_enabled: 0,
        snapshot_size,
    }
}

/// A recording image: header, a seed snapshot of `snap` bytes, then the ops.
fn image(h: RecHeader, snap: usize, ops: &Recording) -> Vec<u8> {
    let mut buf = Vec::new();
    h.write(&mut buf);
    buf.extend(std::iter::repeat(0xAB).take(snap));
    buf.extend_from_slice(&ops.buffer);
    buf
}

fn world() -> WorldId {
    WorldId { index1: 1, generation: 0 }
}

fn session() -> Recording {
    let mut rec = Recording::new(0);
    write_world_bool(&mut rec, 0x02, world(), true);
    write_step(&mut rec, world(), (1.0f32 / 60.0).to_bits(), 4);
    write_state_hash(&mut rec, world(), 0x1234);
    write_step(&mut rec, world(), (1.0f32 / 30.0).to_bits(), 8);
    write_step(&mut rec, world(), (1.0f32 / 30.0).to_bits(), 8);
    write_recording_bounds(&mut rec, Aabb { lower_bound: v2(-10.0, -5.0), upper_bound: v2(10.0, 20.0) });
    write_destroy_world(&mut rec, world());
    rec
}

#[test]
fn stream_starts_after_header_and_snapshot() {
    let data = image(header(40), 40, &session());
    assert_eq!(recording_stream_start(&data), Some(72));
}

#[test]
fn foreign_or_broken_headers_are_refused() {
    let ops = session();
    let mut h = header(40);
    h.magic = 0x1234_5678;
    assert_eq!(recording_stream_start(&image(h, 40, &ops)), None);
    let mut h = header(40);
    h.version_minor += 1;
    assert_eq!(recording_stream_start(&image(h, 40, &ops)), None);
    let mut h = header(40);
    h.big_endian = 1;
    assert_eq!(recording_stream_start(&image(h, 40, &ops)), None);
    let mut h = header(40);
    h.pointer_width = if std::mem::size_of::<usize>() == 8 { 4 } else { 8 };
    assert_eq!(recording_stream_start(&image(h, 40, &ops)), None);
    // a recording must carry a seed snapshot
    assert_eq!(recording_stream_start(&image(header(0), 0, &ops)), None);
    // a snapshot larger than what follows the header
    assert_eq!(recording_stream_start(&image(header(1000), 10, &Recording::new(0))), None);
    // shorter than a header
    assert_eq!(recording_stream_start(&[0u8; 31]), None);
}

#[test]
fn scan_counts_steps_and_keeps_the_first_tuning() {
    let data = image(header(8), 8, &session());
    let start = recording_stream_start(&data).unwrap();
    let info = scan_recording(&data, start);
    assert_eq!(
        info,
        ScanInfo {
            frame_count: 3,
            recorded_dt: (1.0f32 / 60.0).to_bits(),
            recorded_sub_step_count: 4,
            bounds: Aabb { lower_bound: v2(-10.0, -5.0), upper_bound: v2(10.0, 20.0) },
        }
    );
}

#[test]
fn scan_stops_at_a_record_that_runs_past_the_end() {
    let mut data = image(header(8), 8, &session());
    // a step record claiming more payload than is left
    data.extend_from_slice(&[0x80, 0xFF, 0, 0, 1, 2]);
    let info = scan_recording(&data, 40);
    assert_eq!(info.frame_count, 3);
    // cut inside the second step: only the first counts, no bounds seen
    let data = image(header(8), 8, &session());
    let cut = 40 + 4 + 5 + 4 + 12 + 4 + 12 + 4 + 6;
    let info = scan_recording(&data[..cut], 40);
    assert_eq!(info.frame_count, 1);
    assert_eq!(info.bounds, Aabb { lower_bound: v2(0.0, 0.0), upper_bound: v2(0.0, 0.0) });
}

#[test]
fn scan_of_an_empty_stream_finds_nothing() {
    let data = image(header(8), 8, &Recording::new(0));
    let info = scan_recording(&data, 40);
    assert_eq!(info.frame_count, 0);
    assert_eq!(info.recorded_dt, 0);
    assert_eq!(info.recorded_sub_step_count, 0);
}
