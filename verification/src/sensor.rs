use vstd::prelude::*;
use crate::containers::{count_fits, lemma_i32_bits, BitSet};
use crate::snapshot::{lemma_u32_round_trip, word_at, SnapReader};
use crate::write::{i32_bytes, le_value, lemma_le_round_trip, pow256, rec_w_i32, rec_w_u16, u16_bytes};

verus! {

/// Marker for "no index".
pub const NULL_INDEX: i32 = -1;

/// A shape that hit a sensor during continuous collision.
#[derive(Clone, Copy, Debug, PartialEq, Eq, Structural)]
pub struct SensorHit {
    pub sensor_id: i32,
    pub visitor_id: i32,
}

/// A shape overlapping a sensor, with the generation it had then.
#[derive(Clone, Copy, Debug, PartialEq, Eq, Structural)]
pub struct Visitor {
    pub shape_id: i32,
    pub generation: u16,
}

/// Sensors are shapes that live in the broad-phase but never have
/// contacts. At the end of a step all sensors are queried for overlap with
/// other shapes; a new or ended overlap becomes an event.
#[derive(Debug)]
pub struct Sensor {
    pub hits: Vec<Visitor>,
    pub overlaps1: Vec<Visitor>,
    pub overlaps2: Vec<Visitor>,
    pub shape_id: i32,
}

/// Per-worker sensor scratch.
#[derive(Debug)]
pub struct SensorTaskContext {
    pub event_bits: BitSet,
}

/// The sensors a shape overlaps.
#[derive(Debug)]
pub struct SensorOverlaps {
    pub overlaps: Vec<i32>,
}

impl Sensor {
    /// A sensor for the given shape with no hits or overlaps.
    pub fn new(shape_id: i32) -> (s: Sensor)
        ensures
            s.hits@ == Seq::<Visitor>::empty(),
            s.overlaps1@ == Seq::<Visitor>::empty(),
            s.overlaps2@ == Seq::<Visitor>::empty(),
            s.shape_id == shape_id,
    {
        Sensor { hits: Vec::new(), overlaps1: Vec::new(), overlaps2: Vec::new(), shape_id }
    }
}

impl SensorHit {
    /// A hit naming no sensor and no visitor.
    pub fn default() -> (h: SensorHit)
        ensures
            h == (SensorHit { sensor_id: NULL_INDEX, visitor_id: NULL_INDEX }),
    {
        SensorHit { sensor_id: NULL_INDEX, visitor_id: NULL_INDEX }
    }
}

/// Wire form of a visitor: shape id, then generation.
pub open spec fn visitor_bytes(v: Visitor) -> Seq<u8> {
    i32_bytes(v.shape_id) + u16_bytes(v.generation)
}

/// Concatenated wire forms of visitors.
pub open spec fn visitor_run_bytes(s: Seq<Visitor>) -> Seq<u8>
    decreases s.len(),
{
    if s.len() == 0 {
        Seq::empty()
    } else {
        visitor_run_bytes(s.drop_last()) + visitor_bytes(s.last())
    }
}

/// Wire form of a visitor list: its count, then the visitors.
pub open spec fn visitors_bytes(s: Seq<Visitor>) -> Seq<u8> {
    i32_bytes(s.len() as i32) + visitor_run_bytes(s)
}

/// The `k`-th visitor of a run read from `base`, or a zeroed one when the
/// reader is bad.
pub open spec fn visitor_at(d: Seq<u8>, ok: bool, base: int, k: int) -> Visitor {
    if ok && base + 6 * (k + 1) <= d.len() {
        Visitor {
            shape_id: (le_value(d.subrange(base + 6 * k, base + 6 * k + 4)) as u32) as i32,
            generation: le_value(d.subrange(base + 6 * k + 4, base + 6 * k + 6)) as u16,
        }
    } else {
        Visitor { shape_id: 0, generation: 0 }
    }
}

/// What reading a visitor list from `c` gives: the visitors, and the
/// reader's `ok` flag and cursor afterwards.
pub open spec fn visitors_read(d: Seq<u8>, ok: bool, c: int) -> (Seq<Visitor>, bool, int) {
    let n = word_at(d, ok, c, 0) as i32;
    let ok1 = ok && c + 4 <= d.len();
    let c1 = if ok1 { c + 4 } else { c };
    if count_fits(d, ok, c, 4, n, 6) {
        (Seq::new(n as nat, |k: int| visitor_at(d, ok1, c1, k)), ok1, if ok1 { c1 + 6 * n } else { c1 })
    } else {
        (Seq::empty(), false, c1)
    }
}

fn w_visitors(buf: &mut Vec<u8>, visitors: &Vec<Visitor>)
    ensures
        final(buf)@ == old(buf)@ + visitors_bytes(visitors@),
{
    rec_w_i32(buf, visitors.len() as i32);
    let ghost start = buf@;
    let mut i: usize = 0;
    while i < visitors.len()
        invariant
            0 <= i <= visitors@.len(),
            buf@ == start + visitor_run_bytes(visitors@.take(i as int)),
        decreases visitors@.len() - i,
    {
        let v = visitors[i];
        rec_w_i32(buf, v.shape_id);
        rec_w_u16(buf, v.generation);
        i = i + 1;
        assert(visitors@.take(i as int).drop_last() =~= visitors@.take(i - 1));
        assert(buf@ =~= start + visitor_run_bytes(visitors@.take(i as int)));
    }
    assert(visitors@.take(visitors@.len() as int) =~= visitors@);
    assert(buf@ =~= old(buf)@ + visitors_bytes(visitors@));
}

fn r_visitors(r: &mut SnapReader) -> (v: Vec<Visitor>)
    ensures
        final(r).data@ == old(r).data@,
        (v@, final(r).ok, final(r).cursor as int) == visitors_read(old(r).data@, old(r).ok, old(r).cursor as int),
{
    let ghost d = old(r).data@;
    let n = r.r_i32();
    if !r.check_count(n, 6) {
        return Vec::new();
    }
    let ghost ok1 = r.ok;
    let ghost c1 = r.cursor as int;
    let mut v: Vec<Visitor> = Vec::new();
    let mut i: i32 = 0;
    while i < n
        invariant
            0 <= i <= n,
            r.data@ == d,
            r.ok == ok1,
            ok1 ==> c1 + 6 * n <= d.len(),
            ok1 ==> r.cursor == c1 + 6 * i,
            !ok1 ==> r.cursor == c1,
            v@.len() == i,
            forall|k: int| 0 <= k < i ==> v@[k] == #[trigger] visitor_at(d, ok1, c1, k),
        decreases n - i,
    {
        let shape_id = r.r_i32();
        let generation = r.r_u16();
        v.push(Visitor { shape_id, generation });
        i = i + 1;
    }
    assert(v@ =~= Seq::new(n as nat, |k: int| visitor_at(d, ok1, c1, k)));
    v
}

/// Wire form of a sensor: shape id, hits, first and second overlap lists.
pub open spec fn sensor_bytes(shape_id: i32, hits: Seq<Visitor>, overlaps1: Seq<Visitor>, overlaps2: Seq<Visitor>) -> Seq<u8> {
    i32_bytes(shape_id) + visitors_bytes(hits) + visitors_bytes(overlaps1) + visitors_bytes(overlaps2)
}

/// Append a sensor's image: its shape id, then its three visitor lists.
pub fn ser_sensor(buf: &mut Vec<u8>, s: &Sensor)
    ensures
        final(buf)@ == old(buf)@ + sensor_bytes(s.shape_id, s.hits@, s.overlaps1@, s.overlaps2@),
{
    rec_w_i32(buf, s.shape_id);
    w_visitors(buf, &s.hits);
    w_visitors(buf, &s.overlaps1);
    w_visitors(buf, &s.overlaps2);
    assert(buf@ =~= old(buf)@ + sensor_bytes(s.shape_id, s.hits@, s.overlaps1@, s.overlaps2@));
}

/// The shape id, then three visitor lists read in turn.
pub fn des_sensor(r: &mut SnapReader) -> (s: Sensor)
    ensures
        final(r).data@ == old(r).data@,
        ({
            let d = old(r).data@;
            let ok0 = old(r).ok;
            let c0 = old(r).cursor as int;
            let ok1 = ok0 && c0 + 4 <= d.len();
            let c1 = if ok1 { c0 + 4 } else { c0 };
            let a = visitors_read(d, ok1, c1);
            let b = visitors_read(d, a.1, a.2);
            let c = visitors_read(d, b.1, b.2);
            &&& s.shape_id == word_at(d, ok0, c0, 0) as i32
            &&& s.hits@ == a.0
            &&& s.overlaps1@ == b.0
            &&& s.overlaps2@ == c.0
            &&& final(r).ok == c.1
            &&& final(r).cursor == c.2
        }),
{
    let shape_id = r.r_i32();
    let hits = r_visitors(r);
    let overlaps1 = r_visitors(r);
    let overlaps2 = r_visitors(r);
    Sensor { hits, overlaps1, overlaps2, shape_id }
}

/// Each visitor takes six bytes on the wire.
pub proof fn lemma_visitor_run_len(s: Seq<Visitor>)
    ensures
        visitor_run_bytes(s).len() == 6 * s.len(),
        visitors_bytes(s).len() == 4 + 6 * s.len(),
    decreases s.len(),
{
    reveal_with_fuel(pow256, 5);
    lemma_le_round_trip(0, 4);
    lemma_u32_round_trip((s.len() as i32) as u32);
    if s.len() > 0 {
        lemma_visitor_run_len(s.drop_last());
        lemma_u32_round_trip(s.last().shape_id as u32);
        lemma_le_round_trip(s.last().generation as nat, 2);
    }
}

/// Where a run of visitors sits in its encoding.
pub proof fn lemma_visitor_run_layout(s: Seq<Visitor>, i: int)
    requires
        0 <= i < s.len(),
    ensures
        visitor_run_bytes(s).len() == 6 * s.len(),
        visitor_run_bytes(s).subrange(6 * i, 6 * i + 6) == visitor_bytes(s[i]),
    decreases s.len(),
{
    lemma_u32_round_trip(s.last().shape_id as u32);
    reveal_with_fuel(pow256, 3);
    lemma_le_round_trip(s.last().generation as nat, 2);
    if i < s.len() - 1 {
        lemma_visitor_run_layout(s.drop_last(), i);
        assert(visitor_run_bytes(s).subrange(6 * i, 6 * i + 6) =~= visitor_run_bytes(s.drop_last()).subrange(6 * i, 6 * i + 6));
    } else {
        if s.len() > 1 {
            lemma_visitor_run_layout(s.drop_last(), 0);
        }
        assert(visitor_run_bytes(s).subrange(6 * i, 6 * i + 6) =~= visitor_bytes(s.last()));
    }
}

/// A visitor list reads back unchanged from where it was written, and the
/// reader ends right after it.
pub proof fn law_visitors_round_trip(s: Seq<Visitor>, d: Seq<u8>, c: int)
    requires
        s.len() <= i32::MAX,
        0 <= c,
        c + visitors_bytes(s).len() <= d.len(),
        d.subrange(c, c + visitors_bytes(s).len()) == visitors_bytes(s),
    ensures
        visitors_bytes(s).len() == 4 + 6 * s.len(),
        visitors_read(d, true, c) == (s, true, c + visitors_bytes(s).len()),
{
    let n = s.len() as int;
    let b = visitors_bytes(s);
    if n > 0 {
        lemma_visitor_run_layout(s, 0);
    }
    lemma_u32_round_trip((n as i32) as u32);
    lemma_i32_bits(n as i32);
    assert(b.len() == 6 * n + 4);
    assert(d.subrange(c, c + 4) =~= b.subrange(0, 4));
    assert(b.subrange(0, 4) =~= i32_bytes(n as i32));
    assert(word_at(d, true, c, 0) as i32 == n);
    let got = Seq::new(n as nat, |k: int| visitor_at(d, true, c + 4, k));
    assert forall|k: int| 0 <= k < n implies got[k] == s[k] by {
        lemma_visitor_run_layout(s, k);
        lemma_u32_round_trip(s[k].shape_id as u32);
        lemma_i32_bits(s[k].shape_id);
        reveal_with_fuel(pow256, 3);
        lemma_le_round_trip(s[k].generation as nat, 2);
        let at = c + 4 + 6 * k;
        assert(d.subrange(at, at + 6) =~= b.subrange(4 + 6 * k, 10 + 6 * k));
        assert(b.subrange(4 + 6 * k, 10 + 6 * k) =~= visitor_bytes(s[k]));
        assert(d.subrange(at, at + 4) =~= i32_bytes(s[k].shape_id));
        assert(d.subrange(at + 4, at + 6) =~= visitor_bytes(s[k]).subrange(4, 6));
        assert(visitor_bytes(s[k]).subrange(4, 6) =~= u16_bytes(s[k].generation));
    }
    assert(got =~= s);
}

/// A sensor reads back unchanged from where it was written.
pub proof fn law_sensor_round_trip(shape_id: i32, hits: Seq<Visitor>, overlaps1: Seq<Visitor>, overlaps2: Seq<Visitor>, d: Seq<u8>, c: int)
    requires
        hits.len() <= i32::MAX,
        overlaps1.len() <= i32::MAX,
        overlaps2.len() <= i32::MAX,
        0 <= c,
        c + sensor_bytes(shape_id, hits, overlaps1, overlaps2).len() <= d.len(),
        d.subrange(c, c + sensor_bytes(shape_id, hits, overlaps1, overlaps2).len()) == sensor_bytes(shape_id, hits, overlaps1, overlaps2),
    ensures
        ({
            let a = visitors_read(d, true, c + 4);
            let b = visitors_read(d, a.1, a.2);
            let e = visitors_read(d, b.1, b.2);
            &&& word_at(d, true, c, 0) as i32 == shape_id
            &&& a.0 == hits
            &&& b.0 == overlaps1
            &&& e.0 == overlaps2
            &&& e.1
            &&& e.2 == c + sensor_bytes(shape_id, hits, overlaps1, overlaps2).len()
        }),
{
    let all = sensor_bytes(shape_id, hits, overlaps1, overlaps2);
    let l1 = visitors_bytes(hits).len() as int;
    let l2 = visitors_bytes(overlaps1).len() as int;
    let l3 = visitors_bytes(overlaps2).len() as int;
    lemma_visitor_run_len(hits);
    lemma_visitor_run_len(overlaps1);
    lemma_visitor_run_len(overlaps2);
    lemma_u32_round_trip(shape_id as u32);
    lemma_i32_bits(shape_id);
    assert(d.subrange(c, c + 4) =~= i32_bytes(shape_id));
    assert(i32_bytes(shape_id).len() == 4);
    assert(all.len() == 4 + l1 + l2 + l3);
    assert(d.subrange(c + 4, c + 4 + l1) =~= all.subrange(4, 4 + l1));
    assert(all.subrange(4, 4 + l1) =~= visitors_bytes(hits));
    law_visitors_round_trip(hits, d, c + 4);
    assert(d.subrange(c + 4 + l1, c + 4 + l1 + l2) =~= all.subrange(4 + l1, 4 + l1 + l2));
    assert(all.subrange(4 + l1, 4 + l1 + l2) =~= visitors_bytes(overlaps1));
    law_visitors_round_trip(overlaps1, d, c + 4 + l1);
    assert(d.subrange(c + 4 + l1 + l2, c + 4 + l1 + l2 + l3) =~= all.subrange(4 + l1 + l2, 4 + l1 + l2 + l3));
    assert(all.subrange(4 + l1 + l2, 4 + l1 + l2 + l3) =~= visitors_bytes(overlaps2));
    law_visitors_round_trip(overlaps2, d, c + 4 + l1 + l2);
}

} // verus!
