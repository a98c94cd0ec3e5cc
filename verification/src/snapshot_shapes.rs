use vstd::prelude::*;
use crate::geometry::{Aabb, Circle, Vec2};
use crate::recording::decode::{
    aabb_read, bool_read, capsule_read, chain_segment_read, circle_read, filter_read, i32_read, lemma_byte_at,
    lemma_i32_read_back, lemma_split, lemma_u32_read_back, lemma_u64_read_back, law_aabb_round_trip,
    law_capsule_round_trip, law_chain_segment_round_trip, law_circle_round_trip, law_filter_round_trip,
    law_material_round_trip, law_polygon_round_trip, law_segment_round_trip, law_vec2_round_trip, material_read,
    polygon_read, r_aabb, r_capsule, r_chain_segment, r_circle, r_polygon, r_segment, r_vec2, read_bool, read_i32,
    read_material, read_u32, read_u64, segment_read, u16_read, u32_read, u64_read_at, u8_read, vec2_read,
};
use crate::recording::read::r_filter;
use crate::shape::{Shape, ShapeGeometry};
use crate::snapshot::SnapReader;
use crate::write::{
    aabb_bytes, bool_byte, capsule_bytes, chain_segment_bytes, circle_bytes, filter_bytes, i32_bytes, le_value,
    lemma_le_round_trip, lemma_vec2s_len, material_bytes, polygon_bytes, pow256, rec_w_aabb, rec_w_bool,
    rec_w_capsule, rec_w_chainseg, rec_w_circle, rec_w_filter, rec_w_i32, rec_w_material, rec_w_polygon,
    rec_w_segment, rec_w_u16, rec_w_u32, rec_w_u64, rec_w_u8, rec_w_vec2, segment_bytes, u16_bytes, u32_bytes,
    u64_bytes, vec2_bytes,
};

verus! {

broadcast use crate::write::lemma_le_bytes_len;

// Shapes in a world image: each shape slot with its geometry, the geometry
// tagged by kind (0 circle, 1 capsule, 2 segment, 3 polygon, 4 chain
// segment).

/// The tag a geometry kind travels under in a world image.
pub open spec fn geometry_tag(g: ShapeGeometry) -> u8 {
    match g {
        ShapeGeometry::Circle(_) => 0,
        ShapeGeometry::Capsule(_) => 1,
        ShapeGeometry::Segment(_) => 2,
        ShapeGeometry::Polygon(_) => 3,
        ShapeGeometry::ChainSegment(_) => 4,
    }
}

/// The payload of a geometry, without its tag.
pub open spec fn geometry_payload(g: ShapeGeometry) -> Seq<u8> {
    match g {
        ShapeGeometry::Circle(c) => circle_bytes(c),
        ShapeGeometry::Capsule(c) => capsule_bytes(c),
        ShapeGeometry::Segment(s) => segment_bytes(s),
        ShapeGeometry::Polygon(p) => polygon_bytes(p),
        ShapeGeometry::ChainSegment(c) => chain_segment_bytes(c),
    }
}

/// Image form of a geometry: its tag, then its payload.
pub open spec fn geometry_image(g: ShapeGeometry) -> Seq<u8> {
    seq![geometry_tag(g)] + geometry_payload(g)
}

/// How many bytes a geometry's payload takes.
pub open spec fn geometry_payload_len(g: ShapeGeometry) -> int {
    match g {
        ShapeGeometry::Circle(_) => 12,
        ShapeGeometry::Capsule(_) => 20,
        ShapeGeometry::Segment(_) => 16,
        ShapeGeometry::Polygon(_) => 144,
        ShapeGeometry::ChainSegment(_) => 36,
    }
}

/// A geometry's payload is as long as its kind says.
pub proof fn lemma_geometry_payload_len(g: ShapeGeometry)
    ensures
        geometry_payload(g).len() == geometry_payload_len(g),
{
    if let ShapeGeometry::Polygon(p) = g {
        lemma_vec2s_len(p.vertices@);
        lemma_vec2s_len(p.normals@);
    }
}

/// Append a geometry's image: its tag, then its payload.
pub fn ser_geometry(buf: &mut Vec<u8>, g: &ShapeGeometry)
    ensures
        final(buf)@ == old(buf)@ + geometry_image(*g),
{
    match g {
        ShapeGeometry::Circle(c) => {
            rec_w_u8(buf, 0);
            rec_w_circle(buf, *c);
        },
        ShapeGeometry::Capsule(c) => {
            rec_w_u8(buf, 1);
            rec_w_capsule(buf, *c);
        },
        ShapeGeometry::Segment(s) => {
            rec_w_u8(buf, 2);
            rec_w_segment(buf, *s);
        },
        ShapeGeometry::Polygon(p) => {
            rec_w_u8(buf, 3);
            rec_w_polygon(buf, p);
        },
        ShapeGeometry::ChainSegment(c) => {
            rec_w_u8(buf, 4);
            rec_w_chainseg(buf, *c);
        },
    }
    assert(buf@ =~= old(buf)@ + geometry_image(*g));
}

/// A geometry read at `(ok, c)`: a tag, then the payload of that kind; a
/// tag past the known kinds reads a chain segment.
pub open spec fn geometry_read(d: Seq<u8>, ok: bool, c: int) -> (ShapeGeometry, (bool, int)) {
    let (t, s1) = u8_read(d, ok, c);
    if t == 0 {
        let (x, s) = circle_read(d, s1.0, s1.1);
        (ShapeGeometry::Circle(x), s)
    } else if t == 1 {
        let (x, s) = capsule_read(d, s1.0, s1.1);
        (ShapeGeometry::Capsule(x), s)
    } else if t == 2 {
        let (x, s) = segment_read(d, s1.0, s1.1);
        (ShapeGeometry::Segment(x), s)
    } else if t == 3 {
        let (x, s) = polygon_read(d, s1.0, s1.1);
        (ShapeGeometry::Polygon(x), s)
    } else {
        let (x, s) = chain_segment_read(d, s1.0, s1.1);
        (ShapeGeometry::ChainSegment(x), s)
    }
}

/// Read a geometry from its image.
pub fn des_geometry(r: &mut SnapReader) -> (g: ShapeGeometry)
    ensures
        final(r).data@ == old(r).data@,
        (g, (final(r).ok, final(r).cursor as int)) == geometry_read(old(r).data@, old(r).ok, old(r).cursor as int),
{
    let t = r.r_u8();
    if t == 0 {
        ShapeGeometry::Circle(r_circle(r))
    } else if t == 1 {
        ShapeGeometry::Capsule(r_capsule(r))
    } else if t == 2 {
        ShapeGeometry::Segment(r_segment(r))
    } else if t == 3 {
        ShapeGeometry::Polygon(r_polygon(r))
    } else {
        ShapeGeometry::ChainSegment(r_chain_segment(r))
    }
}

/// A geometry reads back from its image.
pub proof fn law_geometry_round_trip(g: ShapeGeometry, d: Seq<u8>, c: int)
    requires
        0 <= c,
        c + 1 + geometry_payload_len(g) <= d.len(),
        d.subrange(c, c + 1 + geometry_payload_len(g)) == geometry_image(g),
    ensures
        geometry_read(d, true, c) == (g, (true, c + 1 + geometry_payload_len(g))),
{
    lemma_geometry_payload_len(g);
    lemma_split(d, c, seq![geometry_tag(g)], geometry_payload(g));
    assert(d[c] == d.subrange(c, c + 1)[0]);
    match g {
        ShapeGeometry::Circle(x) => law_circle_round_trip(x, d, c + 1),
        ShapeGeometry::Capsule(x) => law_capsule_round_trip(x, d, c + 1),
        ShapeGeometry::Segment(x) => law_segment_round_trip(x, d, c + 1),
        ShapeGeometry::Polygon(x) => law_polygon_round_trip(x, d, c + 1),
        ShapeGeometry::ChainSegment(x) => law_chain_segment_round_trip(x, d, c + 1),
    }
}

/// The fixed head of a shape's image: indices, material, density, margin,
/// the two boxes, centroid, proxy key, filter, and the user data as zero.
pub open spec fn shape_head_image(s: Shape) -> Seq<u8> {
    i32_bytes(s.id) + i32_bytes(s.body_id) + i32_bytes(s.prev_shape_id) + i32_bytes(s.next_shape_id) + i32_bytes(
        s.sensor_index,
    ) + material_bytes(s.material) + u32_bytes(s.density) + u32_bytes(s.aabb_margin) + aabb_bytes(s.aabb)
        + aabb_bytes(s.fat_aabb) + vec2_bytes(s.local_centroid) + i32_bytes(s.proxy_key) + filter_bytes(s.filter)
        + u64_bytes(0)
}

/// The end of a shape's image: generation and the six switches.
pub open spec fn shape_tail_image(s: Shape) -> Seq<u8> {
    u16_bytes(s.generation) + seq![bool_byte(s.enable_sensor_events), bool_byte(s.enable_contact_events),
        bool_byte(s.enable_custom_filtering), bool_byte(s.enable_hit_events), bool_byte(s.enable_pre_solve_events),
        bool_byte(s.enlarged_aabb)]
}

/// Image form of a shape. The user data travels as zero.
pub open spec fn shape_image(s: Shape) -> Seq<u8> {
    shape_head_image(s) + geometry_image(s.geometry) + shape_tail_image(s)
}

/// Append the fixed head of a shape's image.
fn ser_shape_head(buf: &mut Vec<u8>, s: &Shape)
    ensures
        final(buf)@ == old(buf)@ + shape_head_image(*s),
{
    rec_w_i32(buf, s.id);
    rec_w_i32(buf, s.body_id);
    rec_w_i32(buf, s.prev_shape_id);
    rec_w_i32(buf, s.next_shape_id);
    rec_w_i32(buf, s.sensor_index);
    let ghost b1 = buf@;
    assert(b1 =~= old(buf)@ + (i32_bytes(s.id) + i32_bytes(s.body_id) + i32_bytes(s.prev_shape_id) + i32_bytes(
        s.next_shape_id,
    ) + i32_bytes(s.sensor_index)));
    rec_w_material(buf, s.material);
    rec_w_u32(buf, s.density);
    rec_w_u32(buf, s.aabb_margin);
    rec_w_aabb(buf, s.aabb);
    rec_w_aabb(buf, s.fat_aabb);
    let ghost b2 = buf@;
    assert(b2 =~= b1 + (material_bytes(s.material) + u32_bytes(s.density) + u32_bytes(s.aabb_margin) + aabb_bytes(
        s.aabb,
    ) + aabb_bytes(s.fat_aabb)));
    rec_w_vec2(buf, s.local_centroid);
    rec_w_i32(buf, s.proxy_key);
    rec_w_filter(buf, s.filter);
    rec_w_u64(buf, 0);
    assert(buf@ =~= b2 + (vec2_bytes(s.local_centroid) + i32_bytes(s.proxy_key) + filter_bytes(s.filter) + u64_bytes(
        0,
    )));
    assert(buf@ =~= old(buf)@ + shape_head_image(*s));
}

/// Append the end of a shape's image.
fn ser_shape_tail(buf: &mut Vec<u8>, s: &Shape)
    ensures
        final(buf)@ == old(buf)@ + shape_tail_image(*s),
{
    rec_w_u16(buf, s.generation);
    rec_w_bool(buf, s.enable_sensor_events);
    rec_w_bool(buf, s.enable_contact_events);
    rec_w_bool(buf, s.enable_custom_filtering);
    rec_w_bool(buf, s.enable_hit_events);
    rec_w_bool(buf, s.enable_pre_solve_events);
    rec_w_bool(buf, s.enlarged_aabb);
    assert(buf@ =~= old(buf)@ + shape_tail_image(*s));
}

/// Append a shape's image.
pub fn ser_shape(buf: &mut Vec<u8>, s: &Shape)
    ensures
        final(buf)@ == old(buf)@ + shape_image(*s),
{
    ser_shape_head(buf, s);
    ser_geometry(buf, &s.geometry);
    ser_shape_tail(buf, s);
    proof {
        let h = shape_head_image(*s);
        let g = geometry_image(s.geometry);
        let t = shape_tail_image(*s);
        vstd::seq_lib::lemma_concat_associative(old(buf)@, h, g);
        vstd::seq_lib::lemma_concat_associative(old(buf)@, h + g, t);
    }
}

/// The shape a reader starts from before its fields are read.
pub open spec fn blank_shape() -> Shape {
    let zero = Vec2 { x: 0, y: 0 };
    let zero_box = Aabb { lower_bound: zero, upper_bound: zero };
    Shape {
        id: 0,
        body_id: 0,
        prev_shape_id: 0,
        next_shape_id: 0,
        sensor_index: 0,
        material: material_read(Seq::empty(), false, 0).0,
        density: 0,
        aabb_margin: 0,
        aabb: zero_box,
        fat_aabb: zero_box,
        local_centroid: zero,
        proxy_key: 0,
        filter: filter_read(Seq::empty(), false, 0).0,
        user_data: 0,
        geometry: ShapeGeometry::Circle(Circle { center: zero, radius: 0 }),
        generation: 0,
        enable_sensor_events: false,
        enable_contact_events: false,
        enable_custom_filtering: false,
        enable_hit_events: false,
        enable_pre_solve_events: false,
        enlarged_aabb: false,
    }
}

/// The head of a shape read at `(ok, c)`; the other fields are blank.
pub open spec fn shape_head_read(d: Seq<u8>, ok: bool, c: int) -> (Shape, (bool, int)) {
    let (id, s1) = i32_read(d, ok, c);
    let (body_id, s2) = i32_read(d, s1.0, s1.1);
    let (prev_shape_id, s3) = i32_read(d, s2.0, s2.1);
    let (next_shape_id, s4) = i32_read(d, s3.0, s3.1);
    let (sensor_index, s5) = i32_read(d, s4.0, s4.1);
    let (material, s6) = material_read(d, s5.0, s5.1);
    let (density, s7) = u32_read(d, s6.0, s6.1);
    let (aabb_margin, s8) = u32_read(d, s7.0, s7.1);
    let (aabb, s9) = aabb_read(d, s8.0, s8.1);
    let (fat_aabb, s10) = aabb_read(d, s9.0, s9.1);
    let (local_centroid, s11) = vec2_read(d, s10.0, s10.1);
    let (proxy_key, s12) = i32_read(d, s11.0, s11.1);
    let (filter, s13) = filter_read(d, s12.0, s12.1);
    let (user_data, s14) = u64_read_at(d, s13.0, s13.1);
    (Shape {
        id,
        body_id,
        prev_shape_id,
        next_shape_id,
        sensor_index,
        material,
        density,
        aabb_margin,
        aabb,
        fat_aabb,
        local_centroid,
        proxy_key,
        filter,
        user_data,
        ..blank_shape()
    }, s14)
}

/// The rest of a shape read at `(ok, c)` onto `head`: geometry, generation,
/// switches.
pub open spec fn shape_tail_read(head: Shape, d: Seq<u8>, ok: bool, c: int) -> (Shape, (bool, int)) {
    let (geometry, s1) = geometry_read(d, ok, c);
    let (generation, s2) = u16_read(d, s1.0, s1.1);
    let (enable_sensor_events, s3) = bool_read(d, s2.0, s2.1);
    let (enable_contact_events, s4) = bool_read(d, s3.0, s3.1);
    let (enable_custom_filtering, s5) = bool_read(d, s4.0, s4.1);
    let (enable_hit_events, s6) = bool_read(d, s5.0, s5.1);
    let (enable_pre_solve_events, s7) = bool_read(d, s6.0, s6.1);
    let (enlarged_aabb, s8) = bool_read(d, s7.0, s7.1);
    (Shape {
        geometry,
        generation,
        enable_sensor_events,
        enable_contact_events,
        enable_custom_filtering,
        enable_hit_events,
        enable_pre_solve_events,
        enlarged_aabb,
        ..head
    }, s8)
}

/// A shape read at `(ok, c)`.
pub open spec fn shape_read(d: Seq<u8>, ok: bool, c: int) -> (Shape, (bool, int)) {
    let (head, s) = shape_head_read(d, ok, c);
    shape_tail_read(head, d, s.0, s.1)
}

/// Read a 2-byte word.
fn read_u16(r: &mut SnapReader) -> (v: u16)
    ensures
        final(r).data@ == old(r).data@,
        (v, (final(r).ok, final(r).cursor as int)) == u16_read(old(r).data@, old(r).ok, old(r).cursor as int),
{
    r.r_u16()
}

/// Read a shape from its image.
pub fn des_shape(r: &mut SnapReader) -> (s: Shape)
    ensures
        final(r).data@ == old(r).data@,
        (s, (final(r).ok, final(r).cursor as int)) == shape_read(old(r).data@, old(r).ok, old(r).cursor as int),
{
    let id = read_i32(r);
    let body_id = read_i32(r);
    let prev_shape_id = read_i32(r);
    let next_shape_id = read_i32(r);
    let sensor_index = read_i32(r);
    let material = read_material(r);
    let density = read_u32(r);
    let aabb_margin = read_u32(r);
    let aabb = r_aabb(r);
    let fat_aabb = r_aabb(r);
    let local_centroid = r_vec2(r);
    let proxy_key = read_i32(r);
    let filter = r_filter(r);
    let user_data = read_u64(r);
    let geometry = des_geometry(r);
    let generation = read_u16(r);
    let enable_sensor_events = read_bool(r);
    let enable_contact_events = read_bool(r);
    let enable_custom_filtering = read_bool(r);
    let enable_hit_events = read_bool(r);
    let enable_pre_solve_events = read_bool(r);
    let enlarged_aabb = read_bool(r);
    Shape {
        id,
        body_id,
        prev_shape_id,
        next_shape_id,
        sensor_index,
        material,
        density,
        aabb_margin,
        aabb,
        fat_aabb,
        local_centroid,
        proxy_key,
        filter,
        user_data,
        geometry,
        generation,
        enable_sensor_events,
        enable_contact_events,
        enable_custom_filtering,
        enable_hit_events,
        enable_pre_solve_events,
        enlarged_aabb,
    }
}

/// The head of a shape reads back from its image.
proof fn lemma_shape_head_round_trip(s: Shape, d: Seq<u8>, c: int)
    requires
        0 <= c,
        c + 128 <= d.len(),
        d.subrange(c, c + 128) == shape_head_image(s),
    ensures
        shape_head_read(d, true, c).1 == (true, c + 128),
        ({
            let h = shape_head_read(d, true, c).0;
            &&& h.id == s.id
            &&& h.body_id == s.body_id
            &&& h.prev_shape_id == s.prev_shape_id
            &&& h.next_shape_id == s.next_shape_id
            &&& h.sensor_index == s.sensor_index
            &&& h.material == s.material
            &&& h.density == s.density
            &&& h.aabb_margin == s.aabb_margin
            &&& h.aabb == s.aabb
            &&& h.fat_aabb == s.fat_aabb
            &&& h.local_centroid == s.local_centroid
            &&& h.proxy_key == s.proxy_key
            &&& h.filter == s.filter
            &&& h.user_data == 0
        }),
{
    let a = i32_bytes(s.id);
    let b = i32_bytes(s.body_id);
    let e = i32_bytes(s.prev_shape_id);
    let f = i32_bytes(s.next_shape_id);
    let g = i32_bytes(s.sensor_index);
    let h = material_bytes(s.material);
    let i = u32_bytes(s.density);
    let j = u32_bytes(s.aabb_margin);
    let k = aabb_bytes(s.aabb);
    let l = aabb_bytes(s.fat_aabb);
    let m = vec2_bytes(s.local_centroid);
    let n = i32_bytes(s.proxy_key);
    let o = filter_bytes(s.filter);
    lemma_split(d, c, a + b + e + f + g + h + i + j + k + l + m + n + o, u64_bytes(0));
    lemma_split(d, c, a + b + e + f + g + h + i + j + k + l + m + n, o);
    lemma_split(d, c, a + b + e + f + g + h + i + j + k + l + m, n);
    lemma_split(d, c, a + b + e + f + g + h + i + j + k + l, m);
    lemma_split(d, c, a + b + e + f + g + h + i + j + k, l);
    lemma_split(d, c, a + b + e + f + g + h + i + j, k);
    lemma_split(d, c, a + b + e + f + g + h + i, j);
    lemma_split(d, c, a + b + e + f + g + h, i);
    lemma_split(d, c, a + b + e + f + g, h);
    lemma_split(d, c, a + b + e + f, g);
    lemma_split(d, c, a + b + e, f);
    lemma_split(d, c, a + b, e);
    lemma_split(d, c, a, b);
    lemma_i32_read_back(s.id, d, c);
    lemma_i32_read_back(s.body_id, d, c + 4);
    lemma_i32_read_back(s.prev_shape_id, d, c + 8);
    lemma_i32_read_back(s.next_shape_id, d, c + 12);
    lemma_i32_read_back(s.sensor_index, d, c + 16);
    law_material_round_trip(s.material, d, c + 20);
    lemma_u32_read_back(s.density, d, c + 48);
    lemma_u32_read_back(s.aabb_margin, d, c + 52);
    law_aabb_round_trip(s.aabb, d, c + 56);
    law_aabb_round_trip(s.fat_aabb, d, c + 72);
    law_vec2_round_trip(s.local_centroid, d, c + 88);
    lemma_i32_read_back(s.proxy_key, d, c + 96);
    law_filter_round_trip(s.filter, d, c + 100);
    lemma_u64_read_back(0, d, c + 120);
}

/// The end of a shape reads back from its image.
proof fn lemma_shape_tail_round_trip(head: Shape, s: Shape, d: Seq<u8>, c: int)
    requires
        0 <= c,
        c + 9 + geometry_payload_len(s.geometry) <= d.len(),
        d.subrange(c, c + 9 + geometry_payload_len(s.geometry)) == geometry_image(s.geometry) + shape_tail_image(s),
    ensures
        shape_tail_read(head, d, true, c) == (Shape {
            geometry: s.geometry,
            generation: s.generation,
            enable_sensor_events: s.enable_sensor_events,
            enable_contact_events: s.enable_contact_events,
            enable_custom_filtering: s.enable_custom_filtering,
            enable_hit_events: s.enable_hit_events,
            enable_pre_solve_events: s.enable_pre_solve_events,
            enlarged_aabb: s.enlarged_aabb,
            ..head
        }, (true, c + 9 + geometry_payload_len(s.geometry))),
{
    let g = geometry_image(s.geometry);
    let t = shape_tail_image(s);
    let e = c + 1 + geometry_payload_len(s.geometry);
    lemma_geometry_payload_len(s.geometry);
    lemma_split(d, c, g, t);
    law_geometry_round_trip(s.geometry, d, c);
    assert(t =~= u16_bytes(s.generation) + t.subrange(2, 8));
    lemma_split(d, e, u16_bytes(s.generation), t.subrange(2, 8));
    reveal_with_fuel(pow256, 3);
    lemma_le_round_trip(s.generation as nat, 2);
    lemma_byte_at(d, e, t, 2);
    lemma_byte_at(d, e, t, 3);
    lemma_byte_at(d, e, t, 4);
    lemma_byte_at(d, e, t, 5);
    lemma_byte_at(d, e, t, 6);
    lemma_byte_at(d, e, t, 7);
}

/// A shape reads back from its image, its user data as zero.
pub proof fn law_shape_round_trip(s: Shape, d: Seq<u8>, c: int)
    requires
        0 <= c,
        c + 137 + geometry_payload_len(s.geometry) <= d.len(),
        d.subrange(c, c + 137 + geometry_payload_len(s.geometry)) == shape_image(s),
    ensures
        shape_read(d, true, c) == (Shape { user_data: 0, ..s }, (true, c + 137 + geometry_payload_len(s.geometry))),
{
    lemma_geometry_payload_len(s.geometry);
    let h = shape_head_image(s);
    let rest = geometry_image(s.geometry) + shape_tail_image(s);
    assert(shape_image(s) =~= h + rest);
    lemma_split(d, c, h, rest);
    lemma_shape_head_round_trip(s, d, c);
    let head = shape_head_read(d, true, c).0;
    lemma_shape_tail_round_trip(head, s, d, c + 128);
}

} // verus!
