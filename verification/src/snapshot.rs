use vstd::prelude::*;
use crate::sensor::Sensor;
use crate::shape::{ChainShape, Shape};
use crate::joint::{Joint, JointSim};
use crate::snapshot_structs::{Island, IslandSim};
use crate::world::Body;
use crate::snapshot_bodies::{BodySim, BodyState, Contact, ContactSim};
use crate::snapshot_tree::TreeNode;
use crate::write::{le_value, lemma_le_round_trip, pow256, rec_w_u32, u32_bytes};

verus! {

/// Snapshot image magic, 'BNS2'.
pub const SNAP_MAGIC: u32 = 0x32534E42;

/// Version of the serialized snapshot layout.
pub const SNAP_VERSION: u32 = 1;

/// Image was built with validation (debug assertions).
pub const SNAP_FLAG_VALIDATION: u32 = 0x1;

/// Image was built with double-precision world positions.
pub const SNAP_FLAG_DOUBLE_PRECISION: u32 = 0x2;

/// Snapshot image header.
#[derive(Clone, Copy, Debug, PartialEq, Eq, Structural)]
pub struct SnapHeader {
    pub magic: u32,
    pub version: u32,
    pub layout_hash: u32,
    pub flags: u32,
}

/// Wire form of a snapshot header: four little-endian words.
pub open spec fn snap_header_bytes(h: SnapHeader) -> Seq<u8> {
    u32_bytes(h.magic) + u32_bytes(h.version) + u32_bytes(h.layout_hash) + u32_bytes(h.flags)
}

/// Bounds-checked little-endian reader over a snapshot image or an op
/// stream. A short or corrupt input clears `ok` instead of panicking, and
/// every later read then yields zero.
#[derive(Debug)]
pub struct SnapReader<'a> {
    pub data: &'a [u8],
    pub cursor: usize,
    pub ok: bool,
}

/// The `k`-th little-endian word of a run of word reads that starts at
/// `cursor`, or zero when the input ran out before it (or was already bad).
pub open spec fn word_at(data: Seq<u8>, ok: bool, cursor: int, k: int) -> u32 {
    if ok && cursor + 4 * (k + 1) <= data.len() {
        le_value(data.subrange(cursor + 4 * k, cursor + 4 * k + 4)) as u32
    } else {
        0
    }
}

impl<'a> SnapReader<'a> {
    /// Whether `n` more bytes can be read.
    pub open spec fn can_take(&self, n: int) -> bool {
        self.ok && self.cursor + n <= self.data@.len()
    }

    /// The `n` bytes at the cursor.
    pub open spec fn peek(&self, n: int) -> Seq<u8> {
        self.data@.subrange(self.cursor as int, self.cursor + n)
    }

    /// `next` is `prev` after an attempt to read `n` bytes: on success the
    /// cursor moves past them, otherwise the reader is marked bad and the
    /// cursor stays.
    pub open spec fn took(prev: Self, next: Self, n: int) -> bool {
        &&& next.data@ == prev.data@
        &&& next.ok == prev.can_take(n)
        &&& next.cursor == if prev.can_take(n) { prev.cursor + n } else { prev.cursor as int }
    }

    /// A reader positioned at the start of `data`.
    pub fn new(data: &'a [u8]) -> (r: SnapReader<'a>)
        ensures
            r.data@ == data@,
            r.cursor == 0,
            r.ok,
    {
        SnapReader { data, cursor: 0, ok: true }
    }

    /// Claim `n` bytes: true and the cursor advanced, or the reader marked
    /// bad.
    fn take(&mut self, n: usize) -> (avail: bool)
        ensures
            avail == old(self).can_take(n as int),
            Self::took(*old(self), *final(self), n as int),
            final(self).data == old(self).data,
    {
        if !self.ok || n > self.data.len() || self.cursor > self.data.len() - n {
            self.ok = false;
            false
        } else {
            self.cursor = self.cursor + n;
            true
        }
    }

    pub fn r_u16(&mut self) -> (v: u16)
        ensures
            Self::took(*old(self), *final(self), 2),
            final(self).data == old(self).data,
            v == if old(self).can_take(2) { le_value(old(self).peek(2)) } else { 0 },
    {
        let start = self.cursor;
        if !self.take(2) {
            return 0;
        }
        proof {
            reveal_with_fuel(le_value, 3);
        }
        let d = self.data;
        let v = (d[start] as u16) + 256 * (d[start + 1] as u16);
        assert(le_value(old(self).peek(2)) == v);
        v
    }

    pub fn r_u32(&mut self) -> (v: u32)
        ensures
            Self::took(*old(self), *final(self), 4),
            final(self).data == old(self).data,
            v == if old(self).can_take(4) { le_value(old(self).peek(4)) } else { 0 },
    {
        let start = self.cursor;
        if !self.take(4) {
            return 0;
        }
        proof {
            reveal_with_fuel(le_value, 5);
        }
        let d = self.data;
        let v = (d[start] as u32) + 256 * ((d[start + 1] as u32) + 256 * ((d[start + 2] as u32)
            + 256 * (d[start + 3] as u32)));
        assert(le_value(old(self).peek(4)) == v);
        v
    }

    pub fn r_i32(&mut self) -> (v: i32)
        ensures
            Self::took(*old(self), *final(self), 4),
            final(self).data == old(self).data,
            v == if old(self).can_take(4) { (le_value(old(self).peek(4)) as u32) as i32 } else { 0 },
    {
        let u = self.r_u32();
        u as i32
    }

    pub fn r_u64(&mut self) -> (v: u64)
        ensures
            Self::took(*old(self), *final(self), 8),
            final(self).data == old(self).data,
            v == if old(self).can_take(8) { le_value(old(self).peek(8)) } else { 0 },
    {
        let start = self.cursor;
        if !self.take(8) {
            return 0;
        }
        proof {
            reveal_with_fuel(le_value, 9);
        }
        let d = self.data;
        let v = (d[start] as u64) + 256 * ((d[start + 1] as u64) + 256 * ((d[start + 2] as u64)
            + 256 * ((d[start + 3] as u64) + 256 * ((d[start + 4] as u64) + 256 * ((d[start + 5] as u64)
            + 256 * ((d[start + 6] as u64) + 256 * (d[start + 7] as u64)))))));
        assert(le_value(old(self).peek(8)) == v);
        v
    }

    /// One byte as a flag: any non-zero byte is true.
    pub fn r_bool(&mut self) -> (v: bool)
        ensures
            Self::took(*old(self), *final(self), 1),
            final(self).data == old(self).data,
            v == (old(self).can_take(1) && old(self).data@[old(self).cursor as int] != 0),
    {
        let start = self.cursor;
        if !self.take(1) {
            return false;
        }
        self.data[start] != 0
    }

    pub fn r_u8(&mut self) -> (v: u8)
        ensures
            Self::took(*old(self), *final(self), 1),
            final(self).data == old(self).data,
            v == if old(self).can_take(1) { old(self).data@[old(self).cursor as int] } else { 0 },
    {
        let start = self.cursor;
        if !self.take(1) {
            return 0;
        }
        self.data[start]
    }

    /// Guard an element count against the bytes left so a corrupt count
    /// cannot force a huge allocation: a negative count, or one whose
    /// elements need more than the remaining bytes, marks the reader bad.
    /// The reader's own state is not consulted.
    pub fn check_count(&mut self, count: i32, min_stream_bytes: usize) -> (pass: bool)
        ensures
            pass == (count >= 0 && count * min_stream_bytes <= old(self).data@.len() - (if old(self).cursor
                < old(self).data@.len() { old(self).cursor as int } else { old(self).data@.len() as int })),
            final(self).data == old(self).data,
            final(self).cursor == old(self).cursor,
            final(self).ok == (old(self).ok && pass),
    {
        let len = self.data.len();
        let used = if self.cursor < len { self.cursor } else { len };
        let room = len - used;
        if count < 0 || (min_stream_bytes > 0 && count as usize > room / min_stream_bytes) {
            proof {
                if count >= 0 {
                    let q = room as int / min_stream_bytes as int;
                    assert(count * min_stream_bytes > room) by (nonlinear_arith)
                        requires
                            count > q,
                            q == room as int / min_stream_bytes as int,
                            min_stream_bytes > 0,
                    ;
                }
            }
            self.ok = false;
            return false;
        }
        proof {
            if min_stream_bytes > 0 {
                let q = room as int / min_stream_bytes as int;
                assert(count * min_stream_bytes <= room) by (nonlinear_arith)
                    requires
                        0 <= count <= q,
                        q == room as int / min_stream_bytes as int,
                        min_stream_bytes > 0,
                ;
            }
        }
        true
    }

    /// Read a snapshot header: four words in order.
    pub fn r_header(&mut self) -> (h: SnapHeader)
        ensures
            final(self).data == old(self).data,
            h.magic == word_at(old(self).data@, old(self).ok, old(self).cursor as int, 0),
            h.version == word_at(old(self).data@, old(self).ok, old(self).cursor as int, 1),
            h.layout_hash == word_at(old(self).data@, old(self).ok, old(self).cursor as int, 2),
            h.flags == word_at(old(self).data@, old(self).ok, old(self).cursor as int, 3),
            final(self).ok == old(self).can_take(16),
            old(self).can_take(16) ==> final(self).cursor == old(self).cursor + 16,
    {
        let ghost d = self.data@;
        let ghost c = self.cursor as int;
        let magic = self.r_u32();
        let version = self.r_u32();
        let layout_hash = self.r_u32();
        let flags = self.r_u32();
        SnapHeader { magic, version, layout_hash, flags }
    }
}

/// A 32-bit word's encoding decodes back to it.
pub proof fn lemma_u32_round_trip(v: u32)
    ensures
        u32_bytes(v).len() == 4,
        le_value(u32_bytes(v)) == v,
{
    reveal_with_fuel(pow256, 5);
    lemma_le_round_trip(v as nat, 4);
}

/// Where the bytes at `cursor` hold a run of encoded words, a run of word
/// reads from there gives those words.
pub proof fn lemma_word_at_encoded(data: Seq<u8>, cursor: int, k: int, v: u32)
    requires
        0 <= cursor,
        0 <= k,
        cursor + 4 * k + 4 <= data.len(),
        data.subrange(cursor + 4 * k, cursor + 4 * k + 4) == u32_bytes(v),
    ensures
        word_at(data, true, cursor, k) == v,
{
    lemma_u32_round_trip(v);
}

impl SnapHeader {
    /// Size of the header on the wire.
    pub const SIZE: usize = 16;

    /// Append the header: magic, version, layout hash, flags.
    pub fn write(&self, buf: &mut Vec<u8>)
        ensures
            final(buf)@ == old(buf)@ + snap_header_bytes(*self),
    {
        rec_w_u32(buf, self.magic);
        rec_w_u32(buf, self.version);
        rec_w_u32(buf, self.layout_hash);
        rec_w_u32(buf, self.flags);
        assert(buf@ =~= old(buf)@ + snap_header_bytes(*self));
    }
}

/// Reading a header back from where it was written gives the same header.
pub proof fn law_snap_header_round_trip(h: SnapHeader, data: Seq<u8>, cursor: int)
    requires
        0 <= cursor,
        cursor + 16 <= data.len(),
        data.subrange(cursor, cursor + 16) == snap_header_bytes(h),
    ensures
        word_at(data, true, cursor, 0) == h.magic,
        word_at(data, true, cursor, 1) == h.version,
        word_at(data, true, cursor, 2) == h.layout_hash,
        word_at(data, true, cursor, 3) == h.flags,
{
    let b = snap_header_bytes(h);
    lemma_u32_round_trip(h.magic);
    lemma_u32_round_trip(h.version);
    lemma_u32_round_trip(h.layout_hash);
    lemma_u32_round_trip(h.flags);
    assert(data.subrange(cursor, cursor + 4) =~= b.subrange(0, 4));
    assert(b.subrange(0, 4) =~= u32_bytes(h.magic));
    assert(data.subrange(cursor + 4, cursor + 8) =~= b.subrange(4, 8));
    assert(b.subrange(4, 8) =~= u32_bytes(h.version));
    assert(data.subrange(cursor + 8, cursor + 12) =~= b.subrange(8, 12));
    assert(b.subrange(8, 12) =~= u32_bytes(h.layout_hash));
    assert(data.subrange(cursor + 12, cursor + 16) =~= b.subrange(12, 16));
    assert(b.subrange(12, 16) =~= u32_bytes(h.flags));
    lemma_word_at_encoded(data, cursor, 0, h.magic);
    lemma_word_at_encoded(data, cursor, 1, h.version);
    lemma_word_at_encoded(data, cursor, 2, h.layout_hash);
    lemma_word_at_encoded(data, cursor, 3, h.flags);
}

/// Number of constraint graph colors.
pub const GRAPH_COLOR_COUNT: usize = 24;

/// FNV-1a 32-bit offset basis.
pub const LAYOUT_FNV_INIT: u32 = 2166136261;

/// FNV-1a 32-bit prime.
pub const LAYOUT_FNV_PRIME: u32 = 16777619;

/// One FNV-1a step over a word.
pub open spec fn fnv32_mix(h: u32, x: u32) -> u32 {
    (h ^ x).wrapping_mul(LAYOUT_FNV_PRIME)
}

/// FNV-1a over a run of words, from the offset basis.
pub open spec fn fnv32_fold(xs: Seq<u32>) -> u32
    decreases xs.len(),
{
    if xs.len() == 0 {
        LAYOUT_FNV_INIT
    } else {
        fnv32_mix(fnv32_fold(xs.drop_last()), xs.last())
    }
}

/// What the layout hash mixes, in order: the sizes of the serialized world
/// records this library holds, then the graph color count.
pub open spec fn layout_words() -> Seq<u32> {
    seq![
        vstd::layout::size_of::<Body>() as u32,
        vstd::layout::size_of::<BodySim>() as u32,
        vstd::layout::size_of::<BodyState>() as u32,
        vstd::layout::size_of::<Shape>() as u32,
        vstd::layout::size_of::<ChainShape>() as u32,
        vstd::layout::size_of::<Contact>() as u32,
        vstd::layout::size_of::<ContactSim>() as u32,
        vstd::layout::size_of::<Joint>() as u32,
        vstd::layout::size_of::<JointSim>() as u32,
        vstd::layout::size_of::<Island>() as u32,
        vstd::layout::size_of::<IslandSim>() as u32,
        vstd::layout::size_of::<TreeNode>() as u32,
        vstd::layout::size_of::<Sensor>() as u32,
        GRAPH_COLOR_COUNT as u32,
    ]
}

/// A hash of the sizes of the serialized records: a change of any of them
/// changes the hash and refuses images of the older layout.
pub fn compute_layout_hash() -> (h: u32)
    ensures
        h == fnv32_fold(layout_words()),
{
    let mut h: u32 = LAYOUT_FNV_INIT;
    h = (h ^ core::mem::size_of::<Body>() as u32).wrapping_mul(LAYOUT_FNV_PRIME);
    h = (h ^ core::mem::size_of::<BodySim>() as u32).wrapping_mul(LAYOUT_FNV_PRIME);
    h = (h ^ core::mem::size_of::<BodyState>() as u32).wrapping_mul(LAYOUT_FNV_PRIME);
    h = (h ^ core::mem::size_of::<Shape>() as u32).wrapping_mul(LAYOUT_FNV_PRIME);
    h = (h ^ core::mem::size_of::<ChainShape>() as u32).wrapping_mul(LAYOUT_FNV_PRIME);
    h = (h ^ core::mem::size_of::<Contact>() as u32).wrapping_mul(LAYOUT_FNV_PRIME);
    h = (h ^ core::mem::size_of::<ContactSim>() as u32).wrapping_mul(LAYOUT_FNV_PRIME);
    h = (h ^ core::mem::size_of::<Joint>() as u32).wrapping_mul(LAYOUT_FNV_PRIME);
    h = (h ^ core::mem::size_of::<JointSim>() as u32).wrapping_mul(LAYOUT_FNV_PRIME);
    h = (h ^ core::mem::size_of::<Island>() as u32).wrapping_mul(LAYOUT_FNV_PRIME);
    h = (h ^ core::mem::size_of::<IslandSim>() as u32).wrapping_mul(LAYOUT_FNV_PRIME);
    h = (h ^ core::mem::size_of::<TreeNode>() as u32).wrapping_mul(LAYOUT_FNV_PRIME);
    h = (h ^ core::mem::size_of::<Sensor>() as u32).wrapping_mul(LAYOUT_FNV_PRIME);
    h = (h ^ GRAPH_COLOR_COUNT as u32).wrapping_mul(LAYOUT_FNV_PRIME);
    proof {
        let w = layout_words();
        reveal_with_fuel(fnv32_fold, 15);
        assert(w.drop_last().drop_last().drop_last().drop_last().drop_last().drop_last().drop_last().drop_last().drop_last().drop_last().drop_last().drop_last().drop_last().drop_last() =~= Seq::<u32>::empty());
        assert(w.drop_last().drop_last().drop_last().drop_last().drop_last().drop_last().drop_last().drop_last().drop_last().drop_last().drop_last().drop_last().drop_last() =~= seq![w[0]]);
        assert(w.drop_last().drop_last().drop_last().drop_last().drop_last().drop_last().drop_last().drop_last().drop_last().drop_last().drop_last().drop_last() =~= seq![w[0], w[1]]);
        assert(w.drop_last().drop_last().drop_last().drop_last().drop_last().drop_last().drop_last().drop_last().drop_last().drop_last().drop_last() =~= seq![w[0], w[1], w[2]]);
        assert(w.drop_last().drop_last().drop_last().drop_last().drop_last().drop_last().drop_last().drop_last().drop_last().drop_last() =~= seq![w[0], w[1], w[2], w[3]]);
        assert(w.drop_last().drop_last().drop_last().drop_last().drop_last().drop_last().drop_last().drop_last().drop_last() =~= seq![w[0], w[1], w[2], w[3], w[4]]);
        assert(w.drop_last().drop_last().drop_last().drop_last().drop_last().drop_last().drop_last().drop_last() =~= seq![w[0], w[1], w[2], w[3], w[4], w[5]]);
        assert(w.drop_last().drop_last().drop_last().drop_last().drop_last().drop_last().drop_last() =~= seq![w[0], w[1], w[2], w[3], w[4], w[5], w[6]]);
        assert(w.drop_last().drop_last().drop_last().drop_last().drop_last().drop_last() =~= seq![w[0], w[1], w[2], w[3], w[4], w[5], w[6], w[7]]);
        assert(w.drop_last().drop_last().drop_last().drop_last().drop_last() =~= seq![w[0], w[1], w[2], w[3], w[4], w[5], w[6], w[7], w[8]]);
        assert(w.drop_last().drop_last().drop_last().drop_last() =~= seq![w[0], w[1], w[2], w[3], w[4], w[5], w[6], w[7], w[8], w[9]]);
        assert(w.drop_last().drop_last().drop_last() =~= seq![w[0], w[1], w[2], w[3], w[4], w[5], w[6], w[7], w[8], w[9], w[10]]);
        assert(w.drop_last().drop_last() =~= seq![w[0], w[1], w[2], w[3], w[4], w[5], w[6], w[7], w[8], w[9], w[10], w[11]]);
        assert(w.drop_last() =~= seq![w[0], w[1], w[2], w[3], w[4], w[5], w[6], w[7], w[8], w[9], w[10], w[11], w[12]]);
    }
    h
}

/// The header this build writes: current magic, version and layout hash,
/// single-precision positions, no validation flag.
pub open spec fn current_header() -> SnapHeader {
    SnapHeader { magic: SNAP_MAGIC, version: SNAP_VERSION, layout_hash: fnv32_fold(layout_words()), flags: 0 }
}

impl SnapHeader {
    /// Header for an image produced by this build.
    pub fn current() -> (h: SnapHeader)
        ensures
            h == current_header(),
    {
        SnapHeader { magic: SNAP_MAGIC, version: SNAP_VERSION, layout_hash: compute_layout_hash(), flags: 0 }
    }

    /// Whether an image with this header can be restored by this build: same
    /// magic, version and layout hash, and the same position precision. The
    /// validation flag is informational only.
    pub fn is_compatible(&self) -> (r: bool)
        ensures
            r == (self.magic == SNAP_MAGIC && self.version == SNAP_VERSION && self.layout_hash
                == current_header().layout_hash && (self.flags & SNAP_FLAG_DOUBLE_PRECISION) == (
            current_header().flags & SNAP_FLAG_DOUBLE_PRECISION)),
    {
        let current = SnapHeader::current();
        self.magic == SNAP_MAGIC && self.version == SNAP_VERSION && self.layout_hash == current.layout_hash
            && (self.flags & SNAP_FLAG_DOUBLE_PRECISION) == (current.flags & SNAP_FLAG_DOUBLE_PRECISION)
    }
}

/// The header this build writes is one it accepts.
pub proof fn law_current_header_compatible()
    ensures
        ({
            let h = current_header();
            h.magic == SNAP_MAGIC && h.version == SNAP_VERSION && h.layout_hash == current_header().layout_hash
                && (h.flags & SNAP_FLAG_DOUBLE_PRECISION) == (current_header().flags & SNAP_FLAG_DOUBLE_PRECISION)
        }),
{
}

/// Reader state `(ok, cursor)` after an attempt to read `n` bytes from
/// `(ok, c)`.
pub open spec fn after(d: Seq<u8>, ok: bool, c: int, n: int) -> (bool, int) {
    if ok && c + n <= d.len() {
        (true, c + n)
    } else {
        (false, c)
    }
}

/// The little-endian number an attempt to read `n` bytes from `(ok, c)`
/// gives: zero when the read fails.
pub open spec fn value_at(d: Seq<u8>, ok: bool, c: int, n: int) -> nat {
    if ok && c + n <= d.len() {
        le_value(d.subrange(c, c + n))
    } else {
        0
    }
}

/// Whether a count read at state `(ok, c)`... passes the allocation guard
/// for elements of at least `elem` bytes, with the cursor at `c`.
pub open spec fn count_ok(d: Seq<u8>, c: int, count: i32, elem: int) -> bool {
    count >= 0 && count * elem <= d.len() - (if c < d.len() { c } else { d.len() as int })
}

} // verus!
