use vstd::prelude::*;

pub mod body_ops;
pub mod chain_ops;
pub mod decode;
pub mod joint_defs;
pub mod joint_ops;
pub mod keyframes;
pub mod ops;
pub mod query;
pub mod query_ops;
pub mod read;
pub mod replay;
pub mod scan;
pub mod shape_ops;
pub mod stash;
pub mod world_ops;
pub mod apply;
pub mod apply_joint;
use crate::geometry::{Aabb, Pos, Vec2};
use crate::snapshot::SnapReader;
use crate::write::{
    le_bytes, le_value, lemma_le_round_trip, pow256, rec_w_u16, rec_w_u32, rec_w_u64, rec_w_u8, rec_w_vec2, vec2_bytes,
    u16_bytes, u32_bytes, u64_bytes,
};

verus! {

/// `s` with `bytes` written over it from position `at` on.
pub open spec fn splice(s: Seq<u8>, at: int, bytes: Seq<u8>) -> Seq<u8> {
    s.subrange(0, at) + bytes + s.subrange(at + bytes.len(), s.len() as int)
}

/// Reserve a zeroed u32 slot for a value known only later (query hit
/// counts); returns its offset.
pub fn rec_reserve_u32(buf: &mut Vec<u8>) -> (offset: usize)
    ensures
        final(buf)@ == old(buf)@ + seq![0u8, 0u8, 0u8, 0u8],
        offset == old(buf)@.len(),
{
    let offset = buf.len();
    buf.push(0);
    buf.push(0);
    buf.push(0);
    buf.push(0);
    assert(buf@ =~= old(buf)@ + seq![0u8, 0u8, 0u8, 0u8]);
    offset
}

/// Fill a reserved u32 slot.
pub fn rec_patch_u32(buf: &mut [u8], offset: usize, v: u32)
    requires
        offset + 4 <= old(buf)@.len(),
    ensures
        final(buf)@ == splice(old(buf)@, offset as int, u32_bytes(v)),
{
    proof {
        reveal_with_fuel(le_bytes, 5);
    }
    buf[offset] = (v % 256) as u8;
    buf[offset + 1] = (v / 256 % 256) as u8;
    buf[offset + 2] = (v / 256 / 256 % 256) as u8;
    buf[offset + 3] = (v / 256 / 256 / 256) as u8;
    assert(buf@ =~= splice(old(buf)@, offset as int, u32_bytes(v)));
}

/// Magic value 'B2RC' in little-endian.
pub const REC_MAGIC: u32 = 0x43523242;

/// Recording format version; any mismatch refuses to load.
pub const REC_VERSION_MAJOR: u16 = 3;

pub const REC_VERSION_MINOR: u16 = 2;

/// Largest payload a record can frame: its size travels in 24 bits.
pub const REC_MAX_PAYLOAD: usize = 0xFF_FFFF;

/// The bytes of one framed record: opcode, 24-bit payload size, payload.
pub open spec fn frame_bytes(opcode: u8, payload: Seq<u8>) -> Seq<u8> {
    seq![opcode] + le_bytes(payload.len(), 3) + payload
}

/// The buffer after a record was opened: opcode and a zeroed size slot.
pub open spec fn opened(buf: Seq<u8>, opcode: u8) -> Seq<u8> {
    buf + seq![opcode, 0u8, 0u8, 0u8]
}

/// The buffer after the record whose size slot sits at `record_start` was
/// closed: the slot holds the count of bytes after it.
pub open spec fn closed(buf: Seq<u8>, record_start: int) -> Seq<u8> {
    splice(buf, record_start, le_bytes((buf.len() - record_start - 3) as nat, 3))
}

/// Append-only record buffer of a recording session: the byte stream and
/// its framing state.
#[derive(Debug)]
pub struct Recording {
    pub buffer: Vec<u8>,
    /// Offset of the 3-byte size slot of the record being written.
    pub record_start: usize,
    /// Union of the world bounds over the recorded steps, written out when
    /// the session stops so a replay can frame the whole motion.
    pub accumulated_bounds: Aabb,
    /// Whether any bounds were folded in yet.
    pub have_bounds: bool,
}

impl Recording {
    /// The bytes recorded so far: the buffer's contents.
    pub open spec fn bytes(&self) -> Seq<u8> {
        self.buffer@
    }

    /// Offset of the size slot of the open record.
    pub closed spec fn open_slot(&self) -> int {
        self.record_start as int
    }

    /// The bounds folded in so far.
    pub closed spec fn bounds(&self) -> Aabb {
        self.accumulated_bounds
    }

    /// Whether any bounds were folded in.
    pub closed spec fn has_bounds(&self) -> bool {
        self.have_bounds
    }

    /// `other` carries the same accumulated bounds as this recording.
    pub open spec fn keeps_bounds(&self, other: Recording) -> bool {
        other.bounds() == self.bounds() && other.has_bounds() == self.has_bounds()
    }

    /// An empty recording. The capacity hint sizes the buffer up front.
    pub fn new(capacity_hint: usize) -> (r: Recording)
        ensures
            r.bytes() == Seq::<u8>::empty(),
            r.open_slot() == 0,
            r.bounds() == (Aabb { lower_bound: Vec2 { x: 0, y: 0 }, upper_bound: Vec2 { x: 0, y: 0 } }),
            !r.has_bounds(),
    {
        let zero = Vec2 { x: 0, y: 0 };
        Recording {
            buffer: Vec::with_capacity(capacity_hint),
            record_start: 0,
            accumulated_bounds: Aabb { lower_bound: zero, upper_bound: zero },
            have_bounds: false,
        }
    }

    /// The bounds folded in so far, or the zero box when there are none.
    pub fn bounds_or_zero(&self) -> (b: Aabb)
        ensures
            b == if self.has_bounds() {
                self.bounds()
            } else {
                Aabb { lower_bound: Vec2 { x: 0, y: 0 }, upper_bound: Vec2 { x: 0, y: 0 } }
            },
    {
        if self.have_bounds {
            self.accumulated_bounds
        } else {
            let zero = Vec2 { x: 0, y: 0 };
            Aabb { lower_bound: zero, upper_bound: zero }
        }
    }

    /// Open a framed record: the opcode and a 3-byte size slot that
    /// `end_record` fills.
    pub fn begin_record(&mut self, opcode: u8)
        ensures
            final(self).bytes() == opened(old(self).bytes(), opcode),
            final(self).open_slot() == old(self).bytes().len() + 1,
            final(self).bounds() == old(self).bounds(),
            final(self).has_bounds() == old(self).has_bounds(),
    {
        rec_w_u8(&mut self.buffer, opcode);
        self.record_start = self.buffer.len();
        self.buffer.push(0);
        self.buffer.push(0);
        self.buffer.push(0);
        assert(self.buffer@ =~= opened(old(self).bytes(), opcode));
    }

    /// Close the open record: write the payload size, the bytes after the
    /// size slot, into the slot.
    pub fn end_record(&mut self)
        requires
            old(self).open_slot() + 3 <= old(self).bytes().len(),
            old(self).bytes().len() - old(self).open_slot() - 3 <= REC_MAX_PAYLOAD,
        ensures
            final(self).bytes() == closed(old(self).bytes(), old(self).open_slot()),
            final(self).open_slot() == old(self).open_slot(),
            final(self).bounds() == old(self).bounds(),
            final(self).has_bounds() == old(self).has_bounds(),
    {
        proof {
            reveal_with_fuel(le_bytes, 4);
        }
        let payload_size = self.buffer.len() - self.record_start - 3;
        let start = self.record_start;
        self.buffer.set(start, (payload_size % 256) as u8);
        self.buffer.set(start + 1, (payload_size / 256 % 256) as u8);
        self.buffer.set(start + 2, (payload_size / 256 / 256 % 256) as u8);
        assert(self.buffer@ =~= closed(old(self).bytes(), old(self).open_slot()));
    }

    /// Append payload bytes to the open record, between `begin_record` and
    /// `end_record`.
    pub fn append_payload(&mut self, bytes: &[u8])
        ensures
            final(self).bytes() == old(self).bytes() + bytes@,
            final(self).open_slot() == old(self).open_slot(),
            final(self).bounds() == old(self).bounds(),
            final(self).has_bounds() == old(self).has_bounds(),
    {
        let mut i: usize = 0;
        while i < bytes.len()
            invariant
                0 <= i <= bytes@.len(),
                self.buffer@ == old(self).buffer@ + bytes@.take(i as int),
                self.record_start == old(self).record_start,
                self.accumulated_bounds == old(self).accumulated_bounds,
                self.have_bounds == old(self).have_bounds,
            decreases bytes@.len() - i,
        {
            self.buffer.push(bytes[i]);
            i = i + 1;
            assert(self.buffer@ =~= old(self).buffer@ + bytes@.take(i as int));
        }
        assert(bytes@.take(bytes@.len() as int) =~= bytes@);
    }

    /// Append a whole record (opcode, size, payload) in one step.
    pub fn commit_record(&mut self, opcode: u8, payload: &[u8])
        requires
            payload@.len() <= REC_MAX_PAYLOAD,
        ensures
            final(self).bytes() == old(self).bytes() + frame_bytes(opcode, payload@),
            final(self).open_slot() == old(self).open_slot(),
            final(self).bounds() == old(self).bounds(),
            final(self).has_bounds() == old(self).has_bounds(),
    {
        proof {
            reveal_with_fuel(le_bytes, 4);
        }
        rec_w_u8(&mut self.buffer, opcode);
        let size = payload.len();
        self.buffer.push((size % 256) as u8);
        self.buffer.push((size / 256 % 256) as u8);
        self.buffer.push((size / 256 / 256 % 256) as u8);
        let ghost mid = self.buffer@;
        let mut i: usize = 0;
        while i < payload.len()
            invariant
                0 <= i <= payload@.len(),
                self.buffer@ == mid + payload@.take(i as int),
                self.record_start == old(self).record_start,
                self.accumulated_bounds == old(self).accumulated_bounds,
                self.have_bounds == old(self).have_bounds,
            decreases payload@.len() - i,
        {
            self.buffer.push(payload[i]);
            i = i + 1;
            assert(self.buffer@ =~= mid + payload@.take(i as int));
        }
        assert(self.buffer@ =~= old(self).bytes() + frame_bytes(opcode, payload@));
    }
}

/// Opening a record, writing its payload and closing it leaves the same
/// bytes as committing the whole record at once.
pub proof fn law_framing_matches_commit(buf: Seq<u8>, opcode: u8, payload: Seq<u8>)
    requires
        payload.len() <= REC_MAX_PAYLOAD,
    ensures
        closed(opened(buf, opcode) + payload, buf.len() + 1int) == buf + frame_bytes(opcode, payload),
{
    let full = opened(buf, opcode) + payload;
    assert(full.len() - (buf.len() + 1int) - 3 == payload.len());
    assert(closed(full, buf.len() + 1int) =~= buf + frame_bytes(opcode, payload)) by {
        reveal_with_fuel(le_bytes, 4);
    }
}

/// What a record header says: its opcode and payload size.
pub struct RecordFrame {
    pub opcode: u8,
    pub payload_size: usize,
}

/// Read the opcode and 24-bit payload size of the record at the cursor,
/// leaving the cursor at the payload. `None` when the input ran out or the
/// payload would run past the end. This is how replay steps from record to
/// record.
pub fn read_record_frame(r: &mut SnapReader) -> (f: Option<RecordFrame>)
    ensures
        final(r).data@ == old(r).data@,
        final(r).ok == old(r).can_take(4),
        final(r).ok ==> final(r).cursor == old(r).cursor + 4,
        match f {
            Some(fr) => {
                &&& old(r).can_take(4)
                &&& fr.opcode == old(r).data@[old(r).cursor as int]
                &&& fr.payload_size == le_value(old(r).data@.subrange(old(r).cursor + 1, old(r).cursor + 4))
                &&& old(r).cursor + 4 + fr.payload_size <= old(r).data@.len()
            },
            None => !old(r).can_take(4) || old(r).cursor + 4 + le_value(
                old(r).data@.subrange(old(r).cursor + 1, old(r).cursor + 4),
            ) > old(r).data@.len(),
        },
{
    proof {
        reveal_with_fuel(le_value, 4);
    }
    let ghost d = r.data@;
    let ghost c = r.cursor as int;
    let opcode = r.r_u8();
    let b0 = r.r_u8();
    let b1 = r.r_u8();
    let b2 = r.r_u8();
    if !r.ok {
        return None;
    }
    let payload_size: usize = b0 as usize + 256 * (b1 as usize + 256 * b2 as usize);
    assert(payload_size == le_value(d.subrange(c + 1, c + 4)));
    let payload_start = r.cursor;
    if payload_size > r.data.len() - payload_start {
        return None;
    }
    Some(RecordFrame { opcode, payload_size })
}

/// A record framed by `commit_record` (or by `begin_record` and
/// `end_record`) is read back with its opcode and payload window, and the
/// payload ends where the next record begins.
pub proof fn law_frame_read_back(prefix: Seq<u8>, opcode: u8, payload: Seq<u8>, rest: Seq<u8>)
    requires
        payload.len() <= REC_MAX_PAYLOAD,
    ensures
        ({
            let data = prefix + frame_bytes(opcode, payload) + rest;
            let c = prefix.len() as int;
            &&& data[c] == opcode
            &&& le_value(data.subrange(c + 1, c + 4)) == payload.len()
            &&& data.subrange(c + 4, c + 4 + payload.len()) == payload
            &&& c + 4 + payload.len() <= data.len()
            &&& c + 4 + payload.len() == (prefix + frame_bytes(opcode, payload)).len()
        }),
{
    let data = prefix + frame_bytes(opcode, payload) + rest;
    let c = prefix.len() as int;
    reveal_with_fuel(pow256, 4);
    lemma_le_round_trip(payload.len(), 3);
    assert(data.subrange(c + 1, c + 4) =~= le_bytes(payload.len(), 3));
    assert(data.subrange(c + 4, c + 4 + payload.len()) =~= payload);
}

/// File header of a recording, fixed 32 bytes, little-endian.
///
/// `length_scale` is the world length scale as its IEEE-754 single
/// precision bit pattern (`f32::to_bits`).
#[derive(Clone, Copy, Debug, PartialEq, Eq, Structural)]
pub struct RecHeader {
    /// 'B2RC' = 0x43523242
    pub magic: u32,
    pub version_major: u16,
    pub version_minor: u16,
    pub length_scale: u32,
    /// Pointer width of the writer, in bytes.
    pub pointer_width: u8,
    /// 0 on all supported targets.
    pub big_endian: u8,
    /// 1 if written by a build with validation.
    pub validation_enabled: u8,
    /// Bytes of snapshot blob after the header.
    pub snapshot_size: u64,
}

/// Wire form of a recording header, reserved fields zeroed.
pub open spec fn rec_header_bytes(h: RecHeader) -> Seq<u8> {
    u32_bytes(h.magic) + u16_bytes(h.version_major) + u16_bytes(h.version_minor) + u32_bytes(0)
        + u32_bytes(h.length_scale) + seq![0u8, h.pointer_width, h.big_endian, h.validation_enabled]
        + u32_bytes(0) + u64_bytes(h.snapshot_size)
}

/// The header that the first 32 bytes of `s` describe.
pub open spec fn decode_rec_header(s: Seq<u8>) -> RecHeader {
    RecHeader {
        magic: le_value(s.subrange(0, 4)) as u32,
        version_major: le_value(s.subrange(4, 6)) as u16,
        version_minor: le_value(s.subrange(6, 8)) as u16,
        length_scale: le_value(s.subrange(12, 16)) as u32,
        pointer_width: s[17],
        big_endian: s[18],
        validation_enabled: s[19],
        snapshot_size: le_value(s.subrange(24, 32)) as u64,
    }
}

fn u16_at(data: &[u8], o: usize) -> (v: u16)
    requires
        o + 2 <= data@.len(),
    ensures
        v == le_value(data@.subrange(o as int, o + 2)),
{
    proof {
        reveal_with_fuel(le_value, 3);
    }
    let v = data[o] as u16 + 256 * (data[o + 1] as u16);
    assert(le_value(data@.subrange(o as int, o + 2)) == v);
    v
}

fn u32_at(data: &[u8], o: usize) -> (v: u32)
    requires
        o + 4 <= data@.len(),
    ensures
        v == le_value(data@.subrange(o as int, o + 4)),
{
    proof {
        reveal_with_fuel(le_value, 5);
    }
    let v = data[o] as u32 + 256 * (data[o + 1] as u32 + 256 * (data[o + 2] as u32 + 256 * (
    data[o + 3] as u32)));
    assert(le_value(data@.subrange(o as int, o + 4)) == v);
    v
}

fn u64_at(data: &[u8], o: usize) -> (v: u64)
    requires
        o + 8 <= data@.len(),
    ensures
        v == le_value(data@.subrange(o as int, o + 8)),
{
    proof {
        reveal_with_fuel(le_value, 9);
    }
    let v = data[o] as u64 + 256 * (data[o + 1] as u64 + 256 * (data[o + 2] as u64 + 256 * (data[o
        + 3] as u64 + 256 * (data[o + 4] as u64 + 256 * (data[o + 5] as u64 + 256 * (data[o + 6] as u64
        + 256 * (data[o + 7] as u64)))))));
    assert(le_value(data@.subrange(o as int, o + 8)) == v);
    v
}

impl RecHeader {
    /// Size of the header on the wire.
    pub const SIZE: usize = 32;

    /// Append the header in its exact fixed layout, reserved fields zeroed.
    pub fn write(&self, buf: &mut Vec<u8>)
        ensures
            final(buf)@ == old(buf)@ + rec_header_bytes(*self),
    {
        rec_w_u32(buf, self.magic);
        rec_w_u16(buf, self.version_major);
        rec_w_u16(buf, self.version_minor);
        rec_w_u32(buf, 0);
        rec_w_u32(buf, self.length_scale);
        rec_w_u8(buf, 0);
        rec_w_u8(buf, self.pointer_width);
        rec_w_u8(buf, self.big_endian);
        rec_w_u8(buf, self.validation_enabled);
        rec_w_u32(buf, 0);
        rec_w_u64(buf, self.snapshot_size);
        assert(buf@ =~= old(buf)@ + rec_header_bytes(*self));
    }

    /// Parse a header from the start of `data`; `None` if it is shorter
    /// than the header.
    pub fn read(data: &[u8]) -> (h: Option<RecHeader>)
        ensures
            h == if data@.len() < 32 { None } else { Some(decode_rec_header(data@)) },
    {
        if data.len() < Self::SIZE {
            return None;
        }
        Some(
            RecHeader {
                magic: u32_at(data, 0),
                version_major: u16_at(data, 4),
                version_minor: u16_at(data, 6),
                length_scale: u32_at(data, 12),
                pointer_width: data[17],
                big_endian: data[18],
                validation_enabled: data[19],
                snapshot_size: u64_at(data, 24),
            },
        )
    }
}

/// A written header reads back unchanged, whatever follows it.
pub proof fn law_rec_header_round_trip(h: RecHeader, rest: Seq<u8>)
    ensures
        (rec_header_bytes(h) + rest).len() >= 32,
        decode_rec_header(rec_header_bytes(h) + rest) == h,
{
    reveal_with_fuel(pow256, 9);
    lemma_le_round_trip(h.magic as nat, 4);
    lemma_le_round_trip(h.version_major as nat, 2);
    lemma_le_round_trip(h.version_minor as nat, 2);
    lemma_le_round_trip(0, 4);
    lemma_le_round_trip(h.length_scale as nat, 4);
    lemma_le_round_trip(h.snapshot_size as nat, 8);
    let s = rec_header_bytes(h) + rest;
    assert(s.subrange(0, 4) =~= u32_bytes(h.magic));
    assert(s.subrange(4, 6) =~= u16_bytes(h.version_major));
    assert(s.subrange(6, 8) =~= u16_bytes(h.version_minor));
    assert(s.subrange(12, 16) =~= u32_bytes(h.length_scale));
    assert(s.subrange(24, 32) =~= u64_bytes(h.snapshot_size));
    assert(s[17] == h.pointer_width);
    assert(s[18] == h.big_endian);
    assert(s[19] == h.validation_enabled);
}

/// FNV-1a 64-bit offset basis.
pub const SNAP_FNV_INIT: u64 = 14695981039346656037;

/// FNV-1a 64-bit prime.
pub const SNAP_FNV_PRIME: u64 = 1099511628211;

/// One FNV-1a step over a 64-bit word.
pub open spec fn fnv64_mix(hash: u64, x: u64) -> u64 {
    (hash ^ x).wrapping_mul(SNAP_FNV_PRIME)
}

/// FNV-1a steps over each byte of `s` in turn, from `hash`.
pub open spec fn fnv64_bytes(hash: u64, s: Seq<u8>) -> u64
    decreases s.len(),
{
    if s.len() == 0 {
        hash
    } else {
        fnv64_mix(fnv64_bytes(hash, s.drop_last()), s.last() as u64)
    }
}

/// Mix each byte into the hash.
pub fn fnv_mix_bytes(hash: u64, data: &[u8]) -> (h: u64)
    ensures
        h == fnv64_bytes(hash, data@),
{
    let mut h = hash;
    let mut i: usize = 0;
    while i < data.len()
        invariant
            0 <= i <= data@.len(),
            h == fnv64_bytes(hash, data@.take(i as int)),
        decreases data@.len() - i,
    {
        h = (h ^ data[i] as u64).wrapping_mul(SNAP_FNV_PRIME);
        i = i + 1;
        assert(data@.take(i as int).drop_last() =~= data@.take(i - 1));
    }
    assert(data@.take(data@.len() as int) =~= data@);
    h
}

/// Mix a signed word into the hash through its 32-bit pattern,
/// zero-extended.
pub fn fnv_mix_int(hash: u64, v: i32) -> (h: u64)
    ensures
        h == fnv64_mix(hash, (v as u32) as u64),
{
    let bits: u32 = v as u32;
    (hash ^ bits as u64).wrapping_mul(SNAP_FNV_PRIME)
}

/// Mix a real value into the hash through its bit pattern, zero-extended.
pub fn fnv_mix_float(hash: u64, bits: u32) -> (h: u64)
    ensures
        h == fnv64_mix(hash, bits as u64),
{
    (hash ^ bits as u64).wrapping_mul(SNAP_FNV_PRIME)
}

/// Mix a world position at full width: each coordinate's bit pattern,
/// zero-extended, x first.
pub fn fnv_mix_position(hash: u64, p: Pos) -> (h: u64)
    ensures
        h == fnv64_mix(fnv64_mix(hash, p.x as u64), p.y as u64),
{
    let h = (hash ^ p.x as u64).wrapping_mul(SNAP_FNV_PRIME);
    (h ^ p.y as u64).wrapping_mul(SNAP_FNV_PRIME)
}

/// Mix a vector as the eight bytes of its wire form.
pub fn fnv_mix_vec2_bytes(hash: u64, v: Vec2) -> (h: u64)
    ensures
        h == fnv64_bytes(hash, vec2_bytes(v)),
{
    let mut bytes: Vec<u8> = Vec::new();
    rec_w_vec2(&mut bytes, v);
    proof {
        assert(bytes@ =~= vec2_bytes(v));
    }
    fnv_mix_bytes(hash, bytes.as_slice())
}

/// Reserving a slot, appending more bytes and then filling the slot leaves
/// the same bytes as writing the value first.
pub proof fn law_reserve_then_patch(buf: Seq<u8>, tail: Seq<u8>, v: u32)
    ensures
        splice(buf + seq![0u8, 0u8, 0u8, 0u8] + tail, buf.len() as int, u32_bytes(v)) == buf + u32_bytes(v) + tail,
{
    crate::write::lemma_le_bytes_len(v as nat, 4);
    assert(splice(buf + seq![0u8, 0u8, 0u8, 0u8] + tail, buf.len() as int, u32_bytes(v)) =~= buf + u32_bytes(v) + tail);
}

/// Hashing bytes in two parts is hashing them at once: the hash can be
/// built up incrementally.
pub proof fn law_fnv_bytes_concat(hash: u64, a: Seq<u8>, b: Seq<u8>)
    ensures
        fnv64_bytes(fnv64_bytes(hash, a), b) == fnv64_bytes(hash, a + b),
    decreases b.len(),
{
    if b.len() > 0 {
        law_fnv_bytes_concat(hash, a, b.drop_last());
        assert((a + b).drop_last() =~= a + b.drop_last());
    } else {
        assert(a + b =~= a);
    }
}

} // verus!
