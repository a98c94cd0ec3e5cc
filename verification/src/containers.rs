use vstd::prelude::*;
use crate::snapshot::{lemma_u32_round_trip, word_at, SnapReader};
use crate::write::{i32_bytes, le_value, lemma_le_round_trip, pow256, rec_w_i32, rec_w_u32, rec_w_u64, u32_bytes, u64_bytes};

verus! {

/// Concatenated wire forms of a run of signed words.
pub open spec fn i32s_bytes(s: Seq<i32>) -> Seq<u8>
    decreases s.len(),
{
    if s.len() == 0 {
        Seq::empty()
    } else {
        i32s_bytes(s.drop_last()) + i32_bytes(s.last())
    }
}

/// Concatenated wire forms of a run of 64-bit words.
pub open spec fn u64s_bytes(s: Seq<u64>) -> Seq<u8>
    decreases s.len(),
{
    if s.len() == 0 {
        Seq::empty()
    } else {
        u64s_bytes(s.drop_last()) + u64_bytes(s.last())
    }
}

/// The `k`-th 64-bit word of a run of reads that starts at `base`, or zero
/// when the input ran out before it (or was already bad).
pub open spec fn qword_at(data: Seq<u8>, ok: bool, base: int, k: int) -> u64 {
    if ok && base + 8 * (k + 1) <= data.len() {
        le_value(data.subrange(base + 8 * k, base + 8 * k + 8)) as u64
    } else {
        0
    }
}

/// Where a run of signed words sits in its encoding.
pub proof fn lemma_i32s_layout(s: Seq<i32>, i: int)
    requires
        0 <= i < s.len(),
    ensures
        i32s_bytes(s).len() == 4 * s.len(),
        i32s_bytes(s).subrange(4 * i, 4 * i + 4) == i32_bytes(s[i]),
    decreases s.len(),
{
    lemma_u32_round_trip(s.last() as u32);
    if i < s.len() - 1 {
        lemma_i32s_layout(s.drop_last(), i);
        assert(i32s_bytes(s).subrange(4 * i, 4 * i + 4) =~= i32s_bytes(s.drop_last()).subrange(4 * i, 4 * i + 4));
    } else {
        if s.len() > 1 {
            lemma_i32s_layout(s.drop_last(), 0);
        }
        assert(i32s_bytes(s).subrange(4 * i, 4 * i + 4) =~= i32_bytes(s.last()));
    }
}

/// Where a run of 64-bit words sits in its encoding.
pub proof fn lemma_u64s_layout(s: Seq<u64>, i: int)
    requires
        0 <= i < s.len(),
    ensures
        u64s_bytes(s).len() == 8 * s.len(),
        u64s_bytes(s).subrange(8 * i, 8 * i + 8) == u64_bytes(s[i]),
    decreases s.len(),
{
    lemma_u64_round_trip(s.last());
    if i < s.len() - 1 {
        lemma_u64s_layout(s.drop_last(), i);
        assert(u64s_bytes(s).subrange(8 * i, 8 * i + 8) =~= u64s_bytes(s.drop_last()).subrange(8 * i, 8 * i + 8));
    } else {
        if s.len() > 1 {
            lemma_u64s_layout(s.drop_last(), 0);
        }
        assert(u64s_bytes(s).subrange(8 * i, 8 * i + 8) =~= u64_bytes(s.last()));
    }
}

/// A 64-bit word's encoding decodes back to it.
pub proof fn lemma_u64_round_trip(v: u64)
    ensures
        u64_bytes(v).len() == 8,
        le_value(u64_bytes(v)) == v,
{
    reveal_with_fuel(pow256, 9);
    lemma_le_round_trip(v as nat, 8);
}

pub fn w_i32s(buf: &mut Vec<u8>, s: &Vec<i32>)
    ensures
        final(buf)@ == old(buf)@ + i32s_bytes(s@),
{
    let ghost start = buf@;
    let mut i: usize = 0;
    while i < s.len()
        invariant
            0 <= i <= s@.len(),
            buf@ == start + i32s_bytes(s@.take(i as int)),
        decreases s@.len() - i,
    {
        rec_w_i32(buf, s[i]);
        i = i + 1;
        assert(s@.take(i as int).drop_last() =~= s@.take(i - 1));
        assert(buf@ =~= start + i32s_bytes(s@.take(i as int)));
    }
    assert(s@.take(s@.len() as int) =~= s@);
}

fn w_u64s(buf: &mut Vec<u8>, s: &Vec<u64>)
    ensures
        final(buf)@ == old(buf)@ + u64s_bytes(s@),
{
    let ghost start = buf@;
    let mut i: usize = 0;
    while i < s.len()
        invariant
            0 <= i <= s@.len(),
            buf@ == start + u64s_bytes(s@.take(i as int)),
        decreases s@.len() - i,
    {
        rec_w_u64(buf, s[i]);
        i = i + 1;
        assert(s@.take(i as int).drop_last() =~= s@.take(i - 1));
        assert(buf@ =~= start + u64s_bytes(s@.take(i as int)));
    }
    assert(s@.take(s@.len() as int) =~= s@);
}

/// Read `count` 64-bit words; the caller has checked that they fit unless
/// the reader is already bad.
pub(crate) fn r_u64s(r: &mut SnapReader, count: i32) -> (v: Vec<u64>)
    requires
        count >= 0,
        old(r).ok ==> old(r).cursor + 8 * count <= old(r).data@.len(),
    ensures
        final(r).data@ == old(r).data@,
        final(r).ok == old(r).ok,
        final(r).ok ==> final(r).cursor == old(r).cursor + 8 * count,
        v@.len() == count,
        forall|k: int| 0 <= k < count ==> v@[k] == #[trigger] qword_at(old(r).data@, old(r).ok, old(r).cursor as int, k),
{
    let ghost d = old(r).data@;
    let ghost ok0 = old(r).ok;
    let ghost c0 = old(r).cursor as int;
    let mut v: Vec<u64> = Vec::new();
    let mut i: i32 = 0;
    while i < count
        invariant
            0 <= i <= count,
            r.data@ == d,
            r.ok == ok0,
            ok0 ==> r.cursor == c0 + 8 * i,
            ok0 ==> c0 + 8 * count <= d.len(),
            v@.len() == i,
            forall|k: int| 0 <= k < i ==> v@[k] == #[trigger] qword_at(d, ok0, c0, k),
        decreases count - i,
    {
        let x = r.r_u64();
        v.push(x);
        i = i + 1;
    }
    v
}

/// Read `count` signed words; the caller has checked that they fit unless
/// the reader is already bad.
pub(crate) fn r_i32s(r: &mut SnapReader, count: i32) -> (v: Vec<i32>)
    requires
        count >= 0,
        old(r).ok ==> old(r).cursor + 4 * count <= old(r).data@.len(),
    ensures
        final(r).data@ == old(r).data@,
        final(r).ok == old(r).ok,
        final(r).ok ==> final(r).cursor == old(r).cursor + 4 * count,
        v@.len() == count,
        forall|k: int| 0 <= k < count ==> v@[k] == #[trigger] (word_at(old(r).data@, old(r).ok, old(r).cursor as int, k) as i32),
{
    let ghost d = old(r).data@;
    let ghost ok0 = old(r).ok;
    let ghost c0 = old(r).cursor as int;
    let mut v: Vec<i32> = Vec::new();
    let mut i: i32 = 0;
    while i < count
        invariant
            0 <= i <= count,
            r.data@ == d,
            r.ok == ok0,
            ok0 ==> r.cursor == c0 + 4 * i,
            ok0 ==> c0 + 4 * count <= d.len(),
            v@.len() == i,
            forall|k: int| 0 <= k < i ==> v@[k] == #[trigger] (word_at(d, ok0, c0, k) as i32),
        decreases count - i,
    {
        let x = r.r_i32();
        v.push(x);
        i = i + 1;
    }
    v
}

/// Free list and high-water mark of an id allocator.
#[derive(Debug)]
pub struct IdPool {
    pub free_array: Vec<i32>,
    pub next_index: i32,
}

impl IdPool {
    /// An empty pool.
    pub fn new() -> (p: IdPool)
        ensures
            p.free_array@ == Seq::<i32>::empty(),
            p.next_index == 0,
    {
        IdPool { free_array: Vec::new(), next_index: 0 }
    }
}

/// Wire form of an id pool: free count, free ids, next index.
pub open spec fn id_pool_bytes(free_array: Seq<i32>, next_index: i32) -> Seq<u8> {
    i32_bytes(free_array.len() as i32) + i32s_bytes(free_array) + i32_bytes(next_index)
}

/// Append an id pool's image.
pub fn ser_id_pool(buf: &mut Vec<u8>, pool: &IdPool)
    ensures
        final(buf)@ == old(buf)@ + id_pool_bytes(pool.free_array@, pool.next_index),
{
    rec_w_i32(buf, pool.free_array.len() as i32);
    w_i32s(buf, &pool.free_array);
    rec_w_i32(buf, pool.next_index);
    assert(buf@ =~= old(buf)@ + id_pool_bytes(pool.free_array@, pool.next_index));
}

/// Bytes left after the cursor, none if the cursor is past the end.
pub open spec fn remaining(len: int, cursor: int) -> int {
    len - (if cursor < len { cursor } else { len })
}

/// Whether a count read at `cursor` passes the allocation guard for
/// elements of at least `elem` bytes each (`skip` bytes after the cursor
/// precede the elements).
pub open spec fn count_fits(data: Seq<u8>, ok: bool, cursor: int, skip: int, count: i32, elem: int) -> bool {
    let after = if ok && cursor + skip <= data.len() { cursor + skip } else { cursor };
    count >= 0 && count * elem <= remaining(data.len() as int, after)
}

/// A count that fails the guard gives an empty pool and a
/// bad reader.
pub fn des_id_pool(r: &mut SnapReader) -> (pool: IdPool)
    ensures
        final(r).data@ == old(r).data@,
        ({
            let d = old(r).data@;
            let ok0 = old(r).ok;
            let c0 = old(r).cursor as int;
            let count = word_at(d, ok0, c0, 0) as i32;
            if count_fits(d, ok0, c0, 4, count, 4) {
                &&& pool.free_array@.len() == count
                &&& forall|k: int| 0 <= k < count ==> pool.free_array@[k] == #[trigger] (word_at(d, ok0, c0, 1 + k) as i32)
                &&& pool.next_index == word_at(d, ok0, c0, 1 + count) as i32
                &&& final(r).ok == (ok0 && c0 + 4 * count + 8 <= d.len())
                &&& final(r).ok ==> final(r).cursor == c0 + 4 * count + 8
            } else {
                &&& pool.free_array@ == Seq::<i32>::empty()
                &&& pool.next_index == 0
                &&& !final(r).ok
            }
        }),
{
    let ghost d = old(r).data@;
    let ghost ok0 = old(r).ok;
    let ghost c0 = old(r).cursor as int;
    let count = r.r_i32();
    if !r.check_count(count, 4) {
        return IdPool::new();
    }
    let ghost ok1 = r.ok;
    let ghost c1 = r.cursor as int;
    let free_array = r_i32s(r, count);
    assert forall|k: int| 0 <= k < count implies free_array@[k] == #[trigger] (word_at(d, ok0, c0, 1 + k) as i32) by {
        assert(word_at(d, ok1, c1, k) == word_at(d, ok0, c0, 1 + k));
    }
    let ghost c2 = r.cursor as int;
    let next_index = r.r_i32();
    assert(next_index == word_at(d, ok0, c0, 1 + count) as i32);
    IdPool { free_array, next_index }
}

/// A value read back through the two's-complement cast is the value.
pub proof fn lemma_i32_bits(v: i32)
    ensures
        ((v as u32) as i32) == v,
{
    assert(((v as u32) as i32) == v) by (bit_vector);
}

/// An id pool reads back unchanged from where it was written.
pub proof fn law_id_pool_round_trip(free_array: Seq<i32>, next_index: i32, data: Seq<u8>, cursor: int)
    requires
        free_array.len() <= i32::MAX,
        0 <= cursor,
        cursor + id_pool_bytes(free_array, next_index).len() <= data.len(),
        data.subrange(cursor, cursor + id_pool_bytes(free_array, next_index).len()) == id_pool_bytes(free_array, next_index),
    ensures
        ({
            let count = word_at(data, true, cursor, 0) as i32;
            &&& count == free_array.len()
            &&& count_fits(data, true, cursor, 4, count, 4)
            &&& forall|k: int| 0 <= k < count ==> #[trigger] (word_at(data, true, cursor, 1 + k) as i32) == free_array[k]
            &&& word_at(data, true, cursor, 1 + count) as i32 == next_index
            &&& cursor + 4 * count + 8 <= data.len()
        }),
{
    let n = free_array.len() as int;
    let b = id_pool_bytes(free_array, next_index);
    if n > 0 {
        lemma_i32s_layout(free_array, 0);
    }
    lemma_u32_round_trip((n as i32) as u32);
    lemma_u32_round_trip(next_index as u32);
    lemma_i32_bits(n as i32);
    lemma_i32_bits(next_index);
    assert(b.len() == 4 * n + 8);
    assert(data.subrange(cursor, cursor + 4) =~= b.subrange(0, 4));
    assert(b.subrange(0, 4) =~= i32_bytes(n as i32));
    assert(word_at(data, true, cursor, 0) as i32 == n);
    assert forall|k: int| 0 <= k < n implies #[trigger] (word_at(data, true, cursor, 1 + k) as i32) == free_array[k] by {
        lemma_i32s_layout(free_array, k);
        lemma_u32_round_trip(free_array[k] as u32);
        lemma_i32_bits(free_array[k]);
        assert(data.subrange(cursor + 4 * (1 + k), cursor + 4 * (1 + k) + 4) =~= b.subrange(4 + 4 * k, 8 + 4 * k));
        assert(b.subrange(4 + 4 * k, 8 + 4 * k) =~= i32s_bytes(free_array).subrange(4 * k, 4 * k + 4));
    }
    assert(data.subrange(cursor + 4 * (1 + n), cursor + 4 * (1 + n) + 4) =~= b.subrange(4 + 4 * n, 8 + 4 * n));
    assert(b.subrange(4 + 4 * n, 8 + 4 * n) =~= i32_bytes(next_index));
}

/// A run of `n` zero words.
fn zeroed_u64s(n: usize) -> (v: Vec<u64>)
    ensures
        v@ == Seq::new(n as nat, |i: int| 0u64),
{
    let mut v: Vec<u64> = Vec::new();
    let mut i: usize = 0;
    while i < n
        invariant
            0 <= i <= n,
            v@ == Seq::new(i as nat, |k: int| 0u64),
        decreases n - i,
    {
        v.push(0);
        i = i + 1;
        assert(v@ =~= Seq::new(i as nat, |k: int| 0u64));
    }
    v
}

/// A fixed-size bit set held in 64-bit blocks.
#[derive(Debug)]
pub struct BitSet {
    /// Number of blocks in use.
    pub block_count: u32,
    /// The block storage; its length is the block capacity.
    pub blocks: Vec<u64>,
}

impl BitSet {
    /// A bit set with room for `bit_capacity` bits, all clear and no block
    /// in use.
    pub fn new(bit_capacity: u32) -> (b: BitSet)
        ensures
            b.block_count == 0,
            b.blocks@ == Seq::new(((bit_capacity + 63) / 64) as nat, |i: int| 0u64),
    {
        let block_capacity: u32 = if bit_capacity > u32::MAX - 63 {
            ((bit_capacity as u64 + 63) / 64) as u32
        } else {
            (bit_capacity + 63) / 64
        };
        BitSet { block_count: 0, blocks: zeroed_u64s(block_capacity as usize) }
    }
}

/// Wire form of a bit set: block count, block capacity, blocks.
pub open spec fn bitset_bytes(block_count: u32, blocks: Seq<u64>) -> Seq<u8> {
    u32_bytes(block_count) + i32_bytes(blocks.len() as i32) + u64s_bytes(blocks)
}

/// Append a bit set's image.
pub fn ser_bitset(buf: &mut Vec<u8>, bs: &BitSet)
    ensures
        final(buf)@ == old(buf)@ + bitset_bytes(bs.block_count, bs.blocks@),
{
    rec_w_u32(buf, bs.block_count);
    rec_w_i32(buf, bs.blocks.len() as i32);
    w_u64s(buf, &bs.blocks);
    assert(buf@ =~= old(buf)@ + bitset_bytes(bs.block_count, bs.blocks@));
}

/// A capacity that fails the guard gives an empty set and a
/// bad reader.
pub fn des_bitset(r: &mut SnapReader) -> (bs: BitSet)
    ensures
        final(r).data@ == old(r).data@,
        ({
            let d = old(r).data@;
            let ok0 = old(r).ok;
            let c0 = old(r).cursor as int;
            let capacity = word_at(d, ok0, c0, 1) as i32;
            let ok1 = ok0 && c0 + 8 <= d.len();
            if count_fits(d, ok0, c0, 8, capacity, 8) {
                &&& bs.block_count == word_at(d, ok0, c0, 0)
                &&& bs.blocks@.len() == capacity
                &&& forall|k: int| 0 <= k < capacity ==> bs.blocks@[k] == #[trigger] qword_at(d, ok1, c0 + 8, k)
                &&& final(r).ok == (ok0 && c0 + 8 + 8 * capacity <= d.len())
                &&& final(r).ok ==> final(r).cursor == c0 + 8 + 8 * capacity
            } else {
                &&& bs.block_count == 0
                &&& bs.blocks@ == Seq::<u64>::empty()
                &&& !final(r).ok
            }
        }),
{
    let block_count = r.r_u32();
    let capacity = r.r_i32();
    if !r.check_count(capacity, 8) {
        return BitSet::new(0);
    }
    let blocks = r_u64s(r, capacity);
    BitSet { block_count, blocks }
}

/// Open-addressing set of 64-bit keys, zero marking an empty slot.
#[derive(Debug)]
pub struct HashSet {
    /// Number of keys stored.
    pub count: u32,
    /// The slots; the length is the capacity.
    pub items: Vec<u64>,
}

impl HashSet {
    /// An empty set whose capacity is `capacity` rounded up to a power of
    /// two, and at least 16.
    pub fn new(capacity: i32) -> (s: HashSet)
        requires
            capacity <= 0x4000_0000,
        ensures
            s.count == 0,
            s.items@.len() >= 16,
            s.items@.len() >= capacity,
            s.items@.len() == 16 || s.items@.len() < 2 * capacity,
            exists|k: nat| s.items@.len() == 16 * #[trigger] pow2(k),
            forall|i: int| 0 <= i < s.items@.len() ==> s.items@[i] == 0u64,
    {
        let mut cap: i32 = 16;
        let ghost mut k: nat = 0;
        assert(pow2(0) == 1);
        while cap < capacity
            invariant
                16 <= cap,
                cap == 16 || cap < 2 * capacity,
                cap == 16 * pow2(k),
                capacity <= 0x4000_0000,
            decreases 0x8000_0000 - cap,
        {
            cap = cap * 2;
            proof {
                k = k + 1;
                assert(pow2(k) == 2 * pow2((k - 1) as nat));
            }
        }
        HashSet { count: 0, items: zeroed_u64s(cap as usize) }
    }
}

/// `2` to the power `k`.
pub open spec fn pow2(k: nat) -> nat
    decreases k,
{
    if k == 0 {
        1
    } else {
        2 * pow2((k - 1) as nat)
    }
}

/// Wire form of a key set: count, capacity, slots.
pub open spec fn hashset_bytes(count: u32, items: Seq<u64>) -> Seq<u8> {
    u32_bytes(count) + i32_bytes(items.len() as i32) + u64s_bytes(items)
}

/// Append a hash set's image.
pub fn ser_hashset(buf: &mut Vec<u8>, hs: &HashSet)
    ensures
        final(buf)@ == old(buf)@ + hashset_bytes(hs.count, hs.items@),
{
    rec_w_u32(buf, hs.count);
    rec_w_i32(buf, hs.items.len() as i32);
    w_u64s(buf, &hs.items);
    assert(buf@ =~= old(buf)@ + hashset_bytes(hs.count, hs.items@));
}

/// A capacity that fails the guard gives an empty set of
/// capacity 16 and a bad reader.
pub fn des_hashset(r: &mut SnapReader) -> (hs: HashSet)
    ensures
        final(r).data@ == old(r).data@,
        ({
            let d = old(r).data@;
            let ok0 = old(r).ok;
            let c0 = old(r).cursor as int;
            let capacity = word_at(d, ok0, c0, 1) as i32;
            let ok1 = ok0 && c0 + 8 <= d.len();
            if count_fits(d, ok0, c0, 8, capacity, 8) {
                &&& hs.count == word_at(d, ok0, c0, 0)
                &&& hs.items@.len() == capacity
                &&& forall|k: int| 0 <= k < capacity ==> hs.items@[k] == #[trigger] qword_at(d, ok1, c0 + 8, k)
                &&& final(r).ok == (ok0 && c0 + 8 + 8 * capacity <= d.len())
                &&& final(r).ok ==> final(r).cursor == c0 + 8 + 8 * capacity
            } else {
                &&& hs.count == 0
                &&& hs.items@ == Seq::new(16, |i: int| 0u64)
                &&& !final(r).ok
            }
        }),
{
    let count = r.r_u32();
    let capacity = r.r_i32();
    if !r.check_count(capacity, 8) {
        return HashSet { count: 0, items: zeroed_u64s(16) };
    }
    let items = r_u64s(r, capacity);
    HashSet { count, items }
}

/// A bit set or a key set reads back unchanged from where it was written
/// (both are a header word, a count and that many 64-bit words): the
/// header word, then each word in order.
pub proof fn law_counted_u64s_round_trip(head: u32, words: Seq<u64>, data: Seq<u8>, cursor: int)
    requires
        words.len() <= i32::MAX,
        0 <= cursor,
        cursor + (u32_bytes(head) + i32_bytes(words.len() as i32) + u64s_bytes(words)).len() <= data.len(),
        data.subrange(cursor, cursor + (u32_bytes(head) + i32_bytes(words.len() as i32) + u64s_bytes(words)).len())
            == u32_bytes(head) + i32_bytes(words.len() as i32) + u64s_bytes(words),
    ensures
        ({
            let capacity = word_at(data, true, cursor, 1) as i32;
            let fits = cursor + 8 <= data.len();
            &&& word_at(data, true, cursor, 0) == head
            &&& capacity == words.len()
            &&& count_fits(data, true, cursor, 8, capacity, 8)
            &&& forall|k: int| 0 <= k < capacity ==> #[trigger] qword_at(data, fits, cursor + 8, k) == words[k]
            &&& cursor + 8 + 8 * capacity <= data.len()
        }),
{
    let n = words.len() as int;
    let fits = cursor + 8 <= data.len();
    let b = u32_bytes(head) + i32_bytes(n as i32) + u64s_bytes(words);
    if n > 0 {
        lemma_u64s_layout(words, 0);
    }
    lemma_u32_round_trip(head);
    lemma_u32_round_trip((n as i32) as u32);
    lemma_i32_bits(n as i32);
    assert(b.len() == 8 * n + 8);
    assert(data.subrange(cursor, cursor + 4) =~= b.subrange(0, 4));
    assert(b.subrange(0, 4) =~= u32_bytes(head));
    assert(data.subrange(cursor + 4, cursor + 8) =~= b.subrange(4, 8));
    assert(b.subrange(4, 8) =~= i32_bytes(n as i32));
    assert forall|k: int| 0 <= k < n implies #[trigger] qword_at(data, fits, cursor + 8, k) == words[k] by {
        lemma_u64s_layout(words, k);
        lemma_u64_round_trip(words[k]);
        assert(data.subrange(cursor + 8 + 8 * k, cursor + 8 + 8 * k + 8) =~= b.subrange(8 + 8 * k, 16 + 8 * k));
        assert(b.subrange(8 + 8 * k, 16 + 8 * k) =~= u64s_bytes(words).subrange(8 * k, 8 * k + 8));
    }
}

} // verus!
