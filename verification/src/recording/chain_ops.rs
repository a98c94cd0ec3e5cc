use vstd::prelude::*;
use super::decode::{
    body_id_read, bool_read, filter_read, i32_read, law_body_id_round_trip, law_filter_round_trip,
    law_material_round_trip, law_vec2s_round_trip, lemma_bool_read_back, lemma_i32_read_back, lemma_split,
    lemma_u64_read_back, material_read, read_bool, read_i32, read_material, read_u64, read_vec2s, u64_read_at,
    vec2s_read,
};
use crate::id::pack_id64;
use super::REC_MAX_PAYLOAD;
use crate::write::{
    bool_byte, chain_def_bytes, filter_bytes, i32_bytes, id64_bytes, lemma_materials_len, lemma_vec2s_len,
    material_bytes, materials_bytes, u64_bytes, vec2s_bytes,
};
use super::read::r_filter;
use super::shape_ops::{chain_id_read, chain_id_from};
use crate::containers::count_fits;
use crate::geometry::Vec2;
use crate::id::{BodyId, ChainId};
use crate::snapshot::SnapReader;
use crate::types::{ChainDef, Filter, SurfaceMaterial};

verus! {

// The chain create record read back. Its definition carries its points and
// materials inline, each run behind a count; a count that fails the guard
// stops the definition there, and the rest stays as the world's default
// chain definition has it.

/// `n` materials read in turn from `(ok, c)`.
pub open spec fn materials_read(d: Seq<u8>, ok: bool, c: int, n: nat) -> (Seq<SurfaceMaterial>, (bool, int))
    decreases n,
{
    if n == 0 {
        (Seq::empty(), (ok, c))
    } else {
        let (prev, s) = materials_read(d, ok, c, (n - 1) as nat);
        let (m, s2) = material_read(d, s.0, s.1);
        (prev.push(m), s2)
    }
}

/// Read `n` materials in turn.
fn read_materials(r: &mut SnapReader, n: usize) -> (ms: Vec<SurfaceMaterial>)
    ensures
        final(r).data@ == old(r).data@,
        (ms@, (final(r).ok, final(r).cursor as int)) == materials_read(old(r).data@, old(r).ok, old(r).cursor as int, n as nat),
{
    let ghost d = old(r).data@;
    let ghost s0 = (old(r).ok, old(r).cursor as int);
    let mut ms: Vec<SurfaceMaterial> = Vec::new();
    let mut i: usize = 0;
    while i < n
        invariant
            0 <= i <= n,
            r.data@ == d,
            (ms@, (r.ok, r.cursor as int)) == materials_read(d, s0.0, s0.1, i as nat),
        decreases n - i,
    {
        let m = read_material(r);
        ms.push(m);
        i = i + 1;
    }
    ms
}

/// A chain definition as far as its record reads.
#[derive(Debug)]
pub enum ChainDefRead {
    /// Every field read.
    Whole(ChainDef),
    /// The point count failed the guard: only the user data was read.
    NoPoints { user_data: u64 },
    /// The material count failed the guard: the user data and the points
    /// were read.
    NoMaterials { user_data: u64, points: Vec<Vec2> },
}

/// A chain definition as far as its record reads, as the contracts see it.
pub enum ChainDefReadView {
    Whole {
        user_data: u64,
        points: Seq<Vec2>,
        materials: Seq<SurfaceMaterial>,
        filter: Filter,
        is_loop: bool,
        enable_sensor_events: bool,
    },
    NoPoints { user_data: u64 },
    NoMaterials { user_data: u64, points: Seq<Vec2> },
}

impl View for ChainDefRead {
    type V = ChainDefReadView;

    open spec fn view(&self) -> ChainDefReadView {
        match self {
            ChainDefRead::Whole(d) => ChainDefReadView::Whole {
                user_data: d.user_data,
                points: d.points@,
                materials: d.materials@,
                filter: d.filter,
                is_loop: d.is_loop,
                enable_sensor_events: d.enable_sensor_events,
            },
            ChainDefRead::NoPoints { user_data } => ChainDefReadView::NoPoints { user_data: *user_data },
            ChainDefRead::NoMaterials { user_data, points } => ChainDefReadView::NoMaterials {
                user_data: *user_data,
                points: points@,
            },
        }
    }
}

/// A chain definition read at `(ok, c)`: user data, a point count and the
/// points (eight bytes each), a material count and the materials (28 bytes
/// each), filter, loop and sensor event switches.
pub open spec fn chain_def_read(d: Seq<u8>, ok: bool, c: int) -> (ChainDefReadView, (bool, int)) {
    let (user_data, s1) = u64_read_at(d, ok, c);
    let (n, s2) = i32_read(d, s1.0, s1.1);
    if !count_fits(d, s2.0, s2.1, 0, n, 8) {
        (ChainDefReadView::NoPoints { user_data }, (false, s2.1))
    } else {
        let (points, s3) = vec2s_read(d, s2.0, s2.1, n as nat);
        let (m, s4) = i32_read(d, s3.0, s3.1);
        if !count_fits(d, s4.0, s4.1, 0, m, 28) {
            (ChainDefReadView::NoMaterials { user_data, points }, (false, s4.1))
        } else {
            let (materials, s5) = materials_read(d, s4.0, s4.1, m as nat);
            let (filter, s6) = filter_read(d, s5.0, s5.1);
            let (is_loop, s7) = bool_read(d, s6.0, s6.1);
            let (enable_sensor_events, s8) = bool_read(d, s7.0, s7.1);
            (ChainDefReadView::Whole { user_data, points, materials, filter, is_loop, enable_sensor_events }, s8)
        }
    }
}

/// Read a chain definition, as far as its counts pass the guard.
pub fn r_chain_def(r: &mut SnapReader) -> (def: ChainDefRead)
    ensures
        final(r).data@ == old(r).data@,
        (def@, (final(r).ok, final(r).cursor as int)) == chain_def_read(old(r).data@, old(r).ok, old(r).cursor as int),
{
    let user_data = read_u64(r);
    let n = read_i32(r);
    if !r.check_count(n, 8) {
        return ChainDefRead::NoPoints { user_data };
    }
    let points = read_vec2s(r, n as usize);
    let m = read_i32(r);
    if !r.check_count(m, 28) {
        return ChainDefRead::NoMaterials { user_data, points };
    }
    let materials = read_materials(r, m as usize);
    let filter = r_filter(r);
    let is_loop = read_bool(r);
    let enable_sensor_events = read_bool(r);
    ChainDefRead::Whole(ChainDef { user_data, points, materials, filter, is_loop, enable_sensor_events })
}

/// A chain create record read back: the body, the definition as far as it
/// reads, and the id the world returned when the call was recorded.
#[derive(Debug)]
pub struct ChainCreate {
    pub body: BodyId,
    pub def: ChainDefRead,
    pub id: ChainId,
}

/// A chain create record read at `(ok, c)`.
pub open spec fn chain_create_read(d: Seq<u8>, ok: bool, c: int) -> (BodyId, ChainDefReadView, ChainId, (bool, int)) {
    let (body, s1) = body_id_read(d, ok, c);
    let (def, s2) = chain_def_read(d, s1.0, s1.1);
    let (id, s3) = chain_id_read(d, s2.0, s2.1);
    (body, def, id, s3)
}

/// Read a chain create record whose opcode was already read.
pub fn read_chain_create(r: &mut SnapReader) -> (cc: ChainCreate)
    ensures
        final(r).data@ == old(r).data@,
        (cc.body, cc.def@, cc.id, (final(r).ok, final(r).cursor as int)) == chain_create_read(
            old(r).data@,
            old(r).ok,
            old(r).cursor as int,
        ),
{
    let body = BodyId::load(read_u64(r));
    let def = r_chain_def(r);
    let id = ChainId::load(read_u64(r));
    ChainCreate { body, def, id }
}

/// A run of materials reads back from its encoding.
proof fn lemma_materials_round_trip(s: Seq<SurfaceMaterial>, d: Seq<u8>, c: int)
    requires
        0 <= c,
        c + 28 * s.len() <= d.len(),
        d.subrange(c, c + 28 * s.len()) == materials_bytes(s),
    ensures
        materials_read(d, true, c, s.len()) == (s, (true, c + 28 * s.len())),
    decreases s.len(),
{
    if s.len() > 0 {
        let prev = s.drop_last();
        lemma_materials_len(prev);
        broadcast use crate::write::lemma_le_bytes_len;
        assert(material_bytes(s.last()).len() == 28);
        lemma_split(d, c, materials_bytes(prev), material_bytes(s.last()));
        lemma_materials_round_trip(prev, d, c);
        law_material_round_trip(s.last(), d, c + 28 * prev.len());
        assert(prev.push(s.last()) =~= s);
    }
}

/// The payload a chain create call is recorded with.
pub open spec fn chain_create_bytes(body: BodyId, def: ChainDef, id: ChainId) -> Seq<u8> {
    id64_bytes(body.index1, body.world0, body.generation) + chain_def_bytes(def) + id64_bytes(
        id.index1,
        id.world0,
        id.generation,
    )
}

/// Replaying a chain create record gives back the call that was recorded:
/// the body, the whole definition (its user data, which is not recorded, as
/// zero) and the recorded id, for any definition a record can hold.
#[verifier::spinoff_prover]
#[verifier::rlimit(30)]
pub proof fn law_chain_create_round_trip(body: BodyId, def: ChainDef, id: ChainId, d: Seq<u8>, c: int)
    requires
        54 + 8 * def.points@.len() + 28 * def.materials@.len() <= REC_MAX_PAYLOAD,
        0 <= c,
        c + chain_create_bytes(body, def, id).len() <= d.len(),
        d.subrange(c, c + chain_create_bytes(body, def, id).len()) == chain_create_bytes(body, def, id),
    ensures
        chain_create_read(d, true, c) == (
            body,
            ChainDefReadView::Whole {
                user_data: 0,
                points: def.points@,
                materials: def.materials@,
                filter: def.filter,
                is_loop: def.is_loop,
                enable_sensor_events: def.enable_sensor_events,
            },
            id,
            (true, c + chain_create_bytes(body, def, id).len()),
        ),
{
    broadcast use crate::write::lemma_le_bytes_len;
    let n = def.points@.len();
    let m = def.materials@.len();
    lemma_vec2s_len(def.points@);
    lemma_materials_len(def.materials@);
    let a = id64_bytes(body.index1, body.world0, body.generation);
    let u = u64_bytes(0);
    let nb = i32_bytes(n as i32);
    let pb = vec2s_bytes(def.points@);
    let mb = i32_bytes(m as i32);
    let ms = materials_bytes(def.materials@);
    let fb = filter_bytes(def.filter);
    let tb = seq![bool_byte(def.is_loop), bool_byte(def.enable_sensor_events)];
    let e = id64_bytes(id.index1, id.world0, id.generation);
    assert(chain_def_bytes(def) == u + nb + pb + mb + ms + fb + tb);
    assert(chain_create_bytes(body, def, id) =~= a + u + nb + pb + mb + ms + fb + tb + e);
    let c1 = c + 8;
    let c2 = c1 + 8;
    let c3 = c2 + 4;
    let c4 = c3 + 8 * n;
    let c5 = c4 + 4;
    let c6 = c5 + 28 * m;
    let c7 = c6 + 20;
    let c8 = c7 + 2;
    lemma_split(d, c, a + u + nb + pb + mb + ms + fb + tb, e);
    lemma_split(d, c, a + u + nb + pb + mb + ms + fb, tb);
    lemma_split(d, c, a + u + nb + pb + mb + ms, fb);
    lemma_split(d, c, a + u + nb + pb + mb, ms);
    lemma_split(d, c, a + u + nb + pb, mb);
    lemma_split(d, c, a + u + nb, pb);
    lemma_split(d, c, a + u, nb);
    lemma_split(d, c, a, u);
    law_body_id_round_trip(body, d, c);
    lemma_u64_read_back(0, d, c1);
    lemma_i32_read_back(n as i32, d, c2);
    assert((n as i32) as nat == n);
    law_vec2s_round_trip(def.points@, d, c3);
    lemma_i32_read_back(m as i32, d, c4);
    assert((m as i32) as nat == m);
    lemma_materials_round_trip(def.materials@, d, c5);
    law_filter_round_trip(def.filter, d, c6);
    assert(d[c7] == tb[0] && d[c7 + 1] == tb[1]) by {
        assert(d[c7] == d.subrange(c7, c7 + 2)[0]);
        assert(d[c7 + 1] == d.subrange(c7, c7 + 2)[1]);
    }
    lemma_u64_read_back(pack_id64(id.index1, id.world0, id.generation), d, c8);
    crate::id::lemma_id64_round_trip(id.index1, id.world0, id.generation);
}

} // verus!
