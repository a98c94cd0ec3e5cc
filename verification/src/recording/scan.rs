use vstd::prelude::*;
use super::ops::{OP_RECORDING_BOUNDS, OP_STEP};
use super::{decode_rec_header, RecHeader, REC_MAGIC, REC_VERSION_MAJOR, REC_VERSION_MINOR};
use crate::geometry::{Aabb, Vec2};
use crate::snapshot::SnapReader;
use crate::write::{aabb_bytes, i32_bytes, le_value, u32_bytes, world_id_bytes};
use crate::id::WorldId;
use super::{frame_bytes, law_frame_read_back};
use super::decode::{law_aabb_round_trip, lemma_i32_read_back, lemma_split, lemma_u32_read_back};

verus! {

broadcast use crate::write::lemma_le_bytes_len;

// What a player learns from a recording before replaying it: whether it can
// replay it at all, and, from one pass over the op stream that touches no
// world, how many steps it holds, the tuning of the first step and the
// bounds record.

/// Whether a recording's header is one this build replays: the bytes hold
/// a header with this magic and version, written with this pointer width,
/// little-endian, followed by a seed snapshot that is present and fits.
pub open spec fn recording_accepted(d: Seq<u8>) -> bool {
    let h = decode_rec_header(d);
    &&& d.len() >= 32
    &&& h.magic == REC_MAGIC
    &&& h.version_major == REC_VERSION_MAJOR
    &&& h.version_minor == REC_VERSION_MINOR
    &&& h.pointer_width as int == vstd::layout::size_of::<usize>()
    &&& h.big_endian == 0
    &&& h.snapshot_size != 0
    &&& h.snapshot_size <= d.len() - 32
}

/// Where the op stream of a recording starts, past its header and seed
/// snapshot, when the header is one this build replays; `None` otherwise.
/// A player opens a recording only past these checks.
pub fn recording_stream_start(data: &[u8]) -> (start: Option<usize>)
    ensures
        start == if recording_accepted(data@) {
            Some((32 + decode_rec_header(data@).snapshot_size) as usize)
        } else {
            None::<usize>
        },
{
    if data.len() < RecHeader::SIZE {
        return None;
    }
    let header = match RecHeader::read(data) {
        Some(h) => h,
        None => {
            return None;
        },
    };
    if header.magic != REC_MAGIC || header.version_major != REC_VERSION_MAJOR || header.version_minor
        != REC_VERSION_MINOR || header.pointer_width as usize != core::mem::size_of::<usize>()
        || header.big_endian != 0 {
        return None;
    }
    if header.snapshot_size == 0 || header.snapshot_size > (data.len() - RecHeader::SIZE) as u64 {
        return None;
    }
    Some(RecHeader::SIZE + header.snapshot_size as usize)
}

/// What a scan of the op stream finds: the number of step records, the
/// time step and sub-step count of the first step (the time step as its bit
/// pattern), and the last bounds record.
#[derive(Clone, Copy, Debug, PartialEq, Eq, Structural)]
pub struct ScanInfo {
    pub frame_count: i32,
    pub recorded_dt: u32,
    pub recorded_sub_step_count: i32,
    pub bounds: Aabb,
}

/// A scan in progress: what [`ScanInfo`] holds, with the count unbounded,
/// and whether a step's tuning was taken yet.
pub struct ScanState {
    pub frame_count: int,
    pub got_step: bool,
    pub recorded_dt: u32,
    pub recorded_sub_step_count: i32,
    pub bounds: Aabb,
}

/// The scan before any record.
pub open spec fn scan_start() -> ScanState {
    let zero = Vec2 { x: 0, y: 0 };
    ScanState {
        frame_count: 0,
        got_step: false,
        recorded_dt: 0,
        recorded_sub_step_count: 0,
        bounds: Aabb { lower_bound: zero, upper_bound: zero },
    }
}

/// The little-endian 4-byte word at `o`.
pub open spec fn word(d: Seq<u8>, o: int) -> u32 {
    le_value(d.subrange(o, o + 4)) as u32
}

/// The payload size a record header at `c` gives.
pub open spec fn record_size(d: Seq<u8>, c: int) -> int {
    le_value(d.subrange(c + 1, c + 4)) as int
}

/// The scan after the record whose opcode is `op` and whose payload of
/// `size` bytes starts at `p`: a step counts one frame, and the first step
/// with room for its tuning gives the time step and sub-step count (after
/// the world id); a bounds record with room for a box gives the bounds.
pub open spec fn scan_record(acc: ScanState, d: Seq<u8>, op: u8, p: int, size: int) -> ScanState {
    if op == OP_STEP {
        if !acc.got_step && size >= 12 {
            ScanState {
                frame_count: acc.frame_count + 1,
                got_step: true,
                recorded_dt: word(d, p + 4),
                recorded_sub_step_count: word(d, p + 8) as i32,
                ..acc
            }
        } else {
            ScanState { frame_count: acc.frame_count + 1, ..acc }
        }
    } else if op == OP_RECORDING_BOUNDS && size >= 16 {
        ScanState {
            bounds: Aabb {
                lower_bound: Vec2 { x: word(d, p), y: word(d, p + 4) },
                upper_bound: Vec2 { x: word(d, p + 8), y: word(d, p + 12) },
            },
            ..acc
        }
    } else {
        acc
    }
}

/// The scan of the records from `c` on: record after record while a whole
/// record header is left and its payload fits; it stops at the first that
/// does not.
pub open spec fn scan_from(d: Seq<u8>, c: int, acc: ScanState) -> ScanState
    decreases d.len() - c,
{
    if c < 0 || c + 4 > d.len() || c + 4 + record_size(d, c) > d.len() {
        acc
    } else {
        let p = c + 4;
        let size = record_size(d, c);
        scan_from(d, p + size, scan_record(acc, d, d[c], p, size))
    }
}

/// Count the steps of an op stream, read the first step's tuning, and pick
/// up the bounds record, without touching a world.
pub fn scan_recording(data: &[u8], header_end: usize) -> (info: ScanInfo)
    requires
        header_end <= data@.len(),
        data@.len() / 4 <= i32::MAX,
    ensures
        ({
            let s = scan_from(data@, header_end as int, scan_start());
            &&& info.frame_count == s.frame_count
            &&& info.recorded_dt == s.recorded_dt
            &&& info.recorded_sub_step_count == s.recorded_sub_step_count
            &&& info.bounds == s.bounds
        }),
{
    let ghost d = data@;
    let size = data.len();
    let mut cursor = header_end;
    let mut frame_count: i32 = 0;
    let mut got_step = false;
    let mut recorded_dt: u32 = 0;
    let mut recorded_sub_step_count: i32 = 0;
    let zero = Vec2 { x: 0, y: 0 };
    let mut bounds = Aabb { lower_bound: zero, upper_bound: zero };
    loop
        invariant
            d == data@,
            size == d.len(),
            d.len() / 4 <= i32::MAX,
            header_end <= cursor <= size,
            frame_count + (size - cursor) / 4 <= d.len() / 4,
            ({
                let acc = ScanState { frame_count: frame_count as int, got_step, recorded_dt, recorded_sub_step_count, bounds };
                scan_from(d, cursor as int, acc) == scan_from(d, header_end as int, scan_start())
            }),
        ensures
            ({
                let acc = ScanState { frame_count: frame_count as int, got_step, recorded_dt, recorded_sub_step_count, bounds };
                acc == scan_from(d, header_end as int, scan_start())
            }),
        decreases size - cursor,
    {
        let ghost acc = ScanState { frame_count: frame_count as int, got_step, recorded_dt, recorded_sub_step_count, bounds };
        if size < 4 || cursor > size - 4 {
            break;
        }
        proof {
            reveal_with_fuel(le_value, 4);
        }
        let opcode = data[cursor];
        let payload_size: usize = data[cursor + 1] as usize + 256 * (data[cursor + 2] as usize + 256 * data[cursor
            + 3] as usize);
        assert(payload_size == record_size(d, cursor as int));
        let payload_start = cursor + 4;
        if payload_size > size - payload_start {
            break;
        }
        if opcode == OP_STEP {
            frame_count = frame_count + 1;
            if !got_step && payload_size >= 12 {
                let mut r = SnapReader { data, cursor: payload_start + 4, ok: true };
                recorded_dt = r.r_u32();
                recorded_sub_step_count = r.r_u32() as i32;
                got_step = true;
            }
        } else if opcode == OP_RECORDING_BOUNDS && payload_size >= 16 {
            let mut r = SnapReader { data, cursor: payload_start, ok: true };
            let lx = r.r_u32();
            let ly = r.r_u32();
            let ux = r.r_u32();
            let uy = r.r_u32();
            bounds = Aabb { lower_bound: Vec2 { x: lx, y: ly }, upper_bound: Vec2 { x: ux, y: uy } };
        }
        cursor = payload_start + payload_size;
    }
    ScanInfo { frame_count, recorded_dt, recorded_sub_step_count, bounds }
}

/// The scan reads a step record as `write_step` frames it: the step counts
/// one frame, and the first step gives its time step and sub-step count.
pub proof fn law_scan_reads_step(
    prefix: Seq<u8>,
    world_id: WorldId,
    dt: u32,
    sub_step_count: i32,
    rest: Seq<u8>,
    acc: ScanState,
)
    ensures
        ({
            let payload = world_id_bytes(world_id) + u32_bytes(dt) + i32_bytes(sub_step_count);
            let d = prefix + frame_bytes(OP_STEP, payload) + rest;
            let end = prefix.len() + 4 + 12int;
            let next = if acc.got_step {
                ScanState { frame_count: acc.frame_count + 1, ..acc }
            } else {
                ScanState {
                    frame_count: acc.frame_count + 1,
                    got_step: true,
                    recorded_dt: dt,
                    recorded_sub_step_count: sub_step_count,
                    ..acc
                }
            };
            scan_from(d, prefix.len() as int, acc) == scan_from(d, end, next)
        }),
{
    let payload = world_id_bytes(world_id) + u32_bytes(dt) + i32_bytes(sub_step_count);
    let d = prefix + frame_bytes(OP_STEP, payload) + rest;
    let c = prefix.len() as int;
    law_frame_read_back(prefix, OP_STEP, payload, rest);
    let p = c + 4;
    lemma_split(d, p, world_id_bytes(world_id) + u32_bytes(dt), i32_bytes(sub_step_count));
    lemma_split(d, p, world_id_bytes(world_id), u32_bytes(dt));
    lemma_u32_read_back(dt, d, p + 4);
    lemma_i32_read_back(sub_step_count, d, p + 8);
}

/// The scan reads a bounds record as `write_recording_bounds` frames it.
pub proof fn law_scan_reads_bounds(prefix: Seq<u8>, bounds: Aabb, rest: Seq<u8>, acc: ScanState)
    ensures
        ({
            let d = prefix + frame_bytes(OP_RECORDING_BOUNDS, aabb_bytes(bounds)) + rest;
            let end = prefix.len() + 4 + 16int;
            scan_from(d, prefix.len() as int, acc) == scan_from(d, end, ScanState { bounds: bounds, ..acc })
        }),
{
    let d = prefix + frame_bytes(OP_RECORDING_BOUNDS, aabb_bytes(bounds)) + rest;
    let c = prefix.len() as int;
    law_frame_read_back(prefix, OP_RECORDING_BOUNDS, aabb_bytes(bounds), rest);
    law_aabb_round_trip(bounds, d, c + 4);
}

/// A record of any other kind than a step or the bounds leaves the scan as
/// it was: the scan goes on after it with the same counts, tuning and
/// bounds.
pub proof fn law_scan_skips_other_records(prefix: Seq<u8>, opcode: u8, payload: Seq<u8>, rest: Seq<u8>, acc: ScanState)
    requires
        opcode != OP_STEP,
        opcode != OP_RECORDING_BOUNDS,
        payload.len() <= super::REC_MAX_PAYLOAD,
    ensures
        ({
            let d = prefix + frame_bytes(opcode, payload) + rest;
            scan_from(d, prefix.len() as int, acc) == scan_from(d, prefix.len() + 4 + payload.len() as int, acc)
        }),
{
    law_frame_read_back(prefix, opcode, payload, rest);
}

/// How many whole records from `c` on are step records, reading record
/// after record as long as each one's payload fits.
pub open spec fn step_records(d: Seq<u8>, c: int) -> int
    decreases d.len() - c,
{
    if c < 0 || c + 4 > d.len() || c + 4 + record_size(d, c) > d.len() {
        0
    } else {
        let rest = step_records(d, c + 4 + record_size(d, c));
        if d[c] == OP_STEP { rest + 1 } else { rest }
    }
}

/// The scan counts exactly the step records: one frame for each, none for
/// records of any other kind.
pub proof fn law_scan_counts_step_records(d: Seq<u8>, c: int, acc: ScanState)
    ensures
        scan_from(d, c, acc).frame_count == acc.frame_count + step_records(d, c),
    decreases d.len() - c,
{
    if !(c < 0 || c + 4 > d.len() || c + 4 + record_size(d, c) > d.len()) {
        let p = c + 4;
        let size = record_size(d, c);
        law_scan_counts_step_records(d, p + size, scan_record(acc, d, d[c], p, size));
    }
}

} // verus!
