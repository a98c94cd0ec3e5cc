use vstd::prelude::*;
use super::decode::{
    body_id_read, bool_read, capsule_read, chain_segment_read, circle_read, filter_read, i32_read,
    law_body_id_round_trip, law_capsule_round_trip, law_chain_segment_round_trip, law_circle_round_trip,
    law_filter_round_trip, law_material_round_trip, law_polygon_round_trip, law_segment_round_trip,
    law_shape_def_round_trip, law_shape_id_round_trip, law_vec2_round_trip, lemma_bool_read_back,
    lemma_i32_read_back, lemma_split, lemma_u32_read_back, lemma_u64_read_back, material_read, polygon_read,
    r_capsule, r_chain_segment, r_circle, r_polygon, r_segment, r_shape_def, r_shape_id, r_vec2, read_bool,
    read_i32, read_material, read_u32, read_u64, segment_read, shape_def_read, shape_id_read, u32_read, u64_read_at,
    vec2_read,
};
use super::ops::{
    geometry_bytes, OP_CHAIN_SET_SURFACE_MATERIAL, OP_CREATE_CAPSULE_SHAPE, OP_CREATE_CHAIN_SEGMENT_SHAPE,
    OP_CREATE_CIRCLE_SHAPE, OP_CREATE_POLYGON_SHAPE, OP_CREATE_SEGMENT_SHAPE, OP_DESTROY_CHAIN, OP_DESTROY_SHAPE,
    OP_SHAPE_APPLY_WIND, OP_SHAPE_ENABLE_CONTACT_EVENTS, OP_SHAPE_ENABLE_HIT_EVENTS,
    OP_SHAPE_ENABLE_PRE_SOLVE_EVENTS, OP_SHAPE_ENABLE_SENSOR_EVENTS, OP_SHAPE_SET_CAPSULE,
    OP_SHAPE_SET_CHAIN_SEGMENT, OP_SHAPE_SET_CIRCLE, OP_SHAPE_SET_DENSITY, OP_SHAPE_SET_FILTER,
    OP_SHAPE_SET_FRICTION, OP_SHAPE_SET_POLYGON, OP_SHAPE_SET_RESTITUTION, OP_SHAPE_SET_SEGMENT,
    OP_SHAPE_SET_SURFACE_MATERIAL, OP_SHAPE_SET_USER_MATERIAL,
};
use crate::geometry::Vec2;
use crate::id::{pack_id64, unpack_id64, BodyId, ChainId, ShapeId};
use crate::shape::ShapeGeometry;
use crate::snapshot::SnapReader;
use crate::snapshot_shapes::{geometry_payload_len, lemma_geometry_payload_len};
use crate::types::{Filter, ShapeDef, SurfaceMaterial};
use crate::write::{
    bool_byte, filter_bytes, i32_bytes, id64_bytes, material_bytes, shape_def_bytes, u32_bytes, u64_bytes,
    vec2_bytes,
};

verus! {

broadcast use crate::write::lemma_le_bytes_len;

/// A shape or chain record read back: the call it recorded, with its
/// arguments. Records that differ only in which switch or which real they
/// set share a variant and keep their opcode.
#[derive(Clone, Copy, Debug)]
pub enum ShapeCommand {
    /// A shape created on `body` from `def` and `geometry`; `id` is the id
    /// the world returned when the call was recorded.
    Create { body: BodyId, def: ShapeDef, geometry: ShapeGeometry, id: ShapeId },
    Destroy { shape: ShapeId, update_body_mass: bool },
    SetDensity { shape: ShapeId, density: u32, update_body_mass: bool },
    /// Friction or restitution.
    SetReal { opcode: u8, shape: ShapeId, value: u32 },
    SetUserMaterial { shape: ShapeId, material: u64 },
    SetSurfaceMaterial { shape: ShapeId, material: SurfaceMaterial },
    SetFilter { shape: ShapeId, filter: Filter },
    /// One of the four event switches.
    Enable { opcode: u8, shape: ShapeId, flag: bool },
    /// New geometry, of the kind the opcode names.
    SetGeometry { shape: ShapeId, geometry: ShapeGeometry },
    ApplyWind { shape: ShapeId, wind: Vec2, drag: u32, lift: u32, wake: bool },
    DestroyChain { chain: ChainId },
    ChainSetSurfaceMaterial { chain: ChainId, material: SurfaceMaterial, material_index: i32 },
}

/// Index of a geometry kind: circle, capsule, segment, polygon, chain
/// segment.
pub open spec fn geometry_kind(g: ShapeGeometry) -> u8 {
    match g {
        ShapeGeometry::Circle(_) => 0,
        ShapeGeometry::Capsule(_) => 1,
        ShapeGeometry::Segment(_) => 2,
        ShapeGeometry::Polygon(_) => 3,
        ShapeGeometry::ChainSegment(_) => 4,
    }
}

/// A geometry of kind `k` read at `(ok, c)`.
pub open spec fn geometry_of_kind_read(k: u8, d: Seq<u8>, ok: bool, c: int) -> (ShapeGeometry, (bool, int)) {
    if k == 0 {
        let (x, s) = circle_read(d, ok, c);
        (ShapeGeometry::Circle(x), s)
    } else if k == 1 {
        let (x, s) = capsule_read(d, ok, c);
        (ShapeGeometry::Capsule(x), s)
    } else if k == 2 {
        let (x, s) = segment_read(d, ok, c);
        (ShapeGeometry::Segment(x), s)
    } else if k == 3 {
        let (x, s) = polygon_read(d, ok, c);
        (ShapeGeometry::Polygon(x), s)
    } else {
        let (x, s) = chain_segment_read(d, ok, c);
        (ShapeGeometry::ChainSegment(x), s)
    }
}

/// Read a geometry of kind `k`, `0 <= k <= 4`.
fn read_geometry_of_kind(k: u8, r: &mut SnapReader) -> (g: ShapeGeometry)
    ensures
        final(r).data@ == old(r).data@,
        (g, (final(r).ok, final(r).cursor as int)) == geometry_of_kind_read(k, old(r).data@, old(r).ok, old(r).cursor as int),
{
    if k == 0 {
        ShapeGeometry::Circle(r_circle(r))
    } else if k == 1 {
        ShapeGeometry::Capsule(r_capsule(r))
    } else if k == 2 {
        ShapeGeometry::Segment(r_segment(r))
    } else if k == 3 {
        ShapeGeometry::Polygon(r_polygon(r))
    } else {
        ShapeGeometry::ChainSegment(r_chain_segment(r))
    }
}

/// A geometry reads back from its payload, under its kind.
proof fn lemma_geometry_read_back(g: ShapeGeometry, d: Seq<u8>, c: int)
    requires
        0 <= c,
        c + geometry_payload_len(g) <= d.len(),
        d.subrange(c, c + geometry_payload_len(g)) == geometry_bytes(g),
    ensures
        geometry_of_kind_read(geometry_kind(g), d, true, c) == (g, (true, c + geometry_payload_len(g))),
{
    match g {
        ShapeGeometry::Circle(x) => law_circle_round_trip(x, d, c),
        ShapeGeometry::Capsule(x) => law_capsule_round_trip(x, d, c),
        ShapeGeometry::Segment(x) => law_segment_round_trip(x, d, c),
        ShapeGeometry::Polygon(x) => law_polygon_round_trip(x, d, c),
        ShapeGeometry::ChainSegment(x) => law_chain_segment_round_trip(x, d, c),
    }
}

/// The chain id a packed 64-bit word names.
pub open spec fn chain_id_from(x: u64) -> ChainId {
    ChainId { index1: unpack_id64(x).0, world0: unpack_id64(x).1, generation: unpack_id64(x).2 }
}

/// A chain id read at `(ok, c)`: its packed 64-bit form.
pub open spec fn chain_id_read(d: Seq<u8>, ok: bool, c: int) -> (ChainId, (bool, int)) {
    let (x, s) = u64_read_at(d, ok, c);
    (chain_id_from(x), s)
}

/// Read a chain id in its packed 64-bit form.
fn read_chain_id(r: &mut SnapReader) -> (id: ChainId)
    ensures
        final(r).data@ == old(r).data@,
        (id, (final(r).ok, final(r).cursor as int)) == chain_id_read(old(r).data@, old(r).ok, old(r).cursor as int),
{
    ChainId::load(read_u64(r))
}

/// Read a body id in its packed 64-bit form.
fn read_body_id(r: &mut SnapReader) -> (id: BodyId)
    ensures
        final(r).data@ == old(r).data@,
        (id, (final(r).ok, final(r).cursor as int)) == body_id_read(old(r).data@, old(r).ok, old(r).cursor as int),
{
    BodyId::load(read_u64(r))
}

/// The shape or chain record under `opcode` read at `(ok, c)`, or `None`
/// when the opcode is not one of this family.
pub open spec fn shape_command_read(opcode: u8, d: Seq<u8>, ok: bool, c: int) -> Option<(ShapeCommand, (bool, int))> {
    if OP_CREATE_CIRCLE_SHAPE <= opcode <= OP_CREATE_CHAIN_SEGMENT_SHAPE {
        let (body, s1) = body_id_read(d, ok, c);
        let (def, s2) = shape_def_read(d, s1.0, s1.1);
        let (geometry, s3) = geometry_of_kind_read((opcode - OP_CREATE_CIRCLE_SHAPE) as u8, d, s2.0, s2.1);
        let (id, s4) = shape_id_read(d, s3.0, s3.1);
        Some((ShapeCommand::Create { body, def, geometry, id }, s4))
    } else if opcode == OP_DESTROY_SHAPE {
        let (shape, s1) = shape_id_read(d, ok, c);
        let (update_body_mass, s2) = bool_read(d, s1.0, s1.1);
        Some((ShapeCommand::Destroy { shape, update_body_mass }, s2))
    } else if opcode == OP_SHAPE_SET_DENSITY {
        let (shape, s1) = shape_id_read(d, ok, c);
        let (density, s2) = u32_read(d, s1.0, s1.1);
        let (update_body_mass, s3) = bool_read(d, s2.0, s2.1);
        Some((ShapeCommand::SetDensity { shape, density, update_body_mass }, s3))
    } else if opcode == OP_SHAPE_SET_FRICTION || opcode == OP_SHAPE_SET_RESTITUTION {
        let (shape, s1) = shape_id_read(d, ok, c);
        let (value, s2) = u32_read(d, s1.0, s1.1);
        Some((ShapeCommand::SetReal { opcode, shape, value }, s2))
    } else if opcode == OP_SHAPE_SET_USER_MATERIAL {
        let (shape, s1) = shape_id_read(d, ok, c);
        let (material, s2) = u64_read_at(d, s1.0, s1.1);
        Some((ShapeCommand::SetUserMaterial { shape, material }, s2))
    } else if opcode == OP_SHAPE_SET_SURFACE_MATERIAL {
        let (shape, s1) = shape_id_read(d, ok, c);
        let (material, s2) = material_read(d, s1.0, s1.1);
        Some((ShapeCommand::SetSurfaceMaterial { shape, material }, s2))
    } else if opcode == OP_SHAPE_SET_FILTER {
        let (shape, s1) = shape_id_read(d, ok, c);
        let (filter, s2) = filter_read(d, s1.0, s1.1);
        Some((ShapeCommand::SetFilter { shape, filter }, s2))
    } else if OP_SHAPE_ENABLE_SENSOR_EVENTS <= opcode <= OP_SHAPE_ENABLE_HIT_EVENTS {
        let (shape, s1) = shape_id_read(d, ok, c);
        let (flag, s2) = bool_read(d, s1.0, s1.1);
        Some((ShapeCommand::Enable { opcode, shape, flag }, s2))
    } else if OP_SHAPE_SET_CIRCLE <= opcode <= OP_SHAPE_SET_CHAIN_SEGMENT {
        let (shape, s1) = shape_id_read(d, ok, c);
        let (geometry, s2) = geometry_of_kind_read((opcode - OP_SHAPE_SET_CIRCLE) as u8, d, s1.0, s1.1);
        Some((ShapeCommand::SetGeometry { shape, geometry }, s2))
    } else if opcode == OP_SHAPE_APPLY_WIND {
        let (shape, s1) = shape_id_read(d, ok, c);
        let (wind, s2) = vec2_read(d, s1.0, s1.1);
        let (drag, s3) = u32_read(d, s2.0, s2.1);
        let (lift, s4) = u32_read(d, s3.0, s3.1);
        let (wake, s5) = bool_read(d, s4.0, s4.1);
        Some((ShapeCommand::ApplyWind { shape, wind, drag, lift, wake }, s5))
    } else if opcode == OP_DESTROY_CHAIN {
        let (chain, s1) = chain_id_read(d, ok, c);
        Some((ShapeCommand::DestroyChain { chain }, s1))
    } else if opcode == OP_CHAIN_SET_SURFACE_MATERIAL {
        let (chain, s1) = chain_id_read(d, ok, c);
        let (material, s2) = material_read(d, s1.0, s1.1);
        let (material_index, s3) = i32_read(d, s2.0, s2.1);
        Some((ShapeCommand::ChainSetSurfaceMaterial { chain, material, material_index }, s3))
    } else {
        None
    }
}

/// Read the arguments of a shape or chain record whose opcode was already
/// read. `None`, with the reader untouched, when the opcode is not one of
/// this family. Reading goes on past a short payload, giving zeros, as
/// every reader does.
pub fn read_shape_command(opcode: u8, r: &mut SnapReader) -> (cmd: Option<ShapeCommand>)
    ensures
        final(r).data@ == old(r).data@,
        match shape_command_read(opcode, old(r).data@, old(r).ok, old(r).cursor as int) {
            Some((x, s)) => cmd == Some(x) && (final(r).ok, final(r).cursor as int) == s,
            None => cmd is None && final(r).ok == old(r).ok && final(r).cursor == old(r).cursor,
        },
{
    if OP_CREATE_CIRCLE_SHAPE <= opcode && opcode <= OP_CREATE_CHAIN_SEGMENT_SHAPE {
        let body = read_body_id(r);
        let def = r_shape_def(r);
        let geometry = read_geometry_of_kind(opcode - OP_CREATE_CIRCLE_SHAPE, r);
        let id = r_shape_id(r);
        Some(ShapeCommand::Create { body, def, geometry, id })
    } else if opcode == OP_DESTROY_SHAPE {
        let shape = r_shape_id(r);
        let update_body_mass = read_bool(r);
        Some(ShapeCommand::Destroy { shape, update_body_mass })
    } else if opcode == OP_SHAPE_SET_DENSITY {
        let shape = r_shape_id(r);
        let density = read_u32(r);
        let update_body_mass = read_bool(r);
        Some(ShapeCommand::SetDensity { shape, density, update_body_mass })
    } else if opcode == OP_SHAPE_SET_FRICTION || opcode == OP_SHAPE_SET_RESTITUTION {
        let shape = r_shape_id(r);
        let value = read_u32(r);
        Some(ShapeCommand::SetReal { opcode, shape, value })
    } else if opcode == OP_SHAPE_SET_USER_MATERIAL {
        let shape = r_shape_id(r);
        let material = read_u64(r);
        Some(ShapeCommand::SetUserMaterial { shape, material })
    } else if opcode == OP_SHAPE_SET_SURFACE_MATERIAL {
        let shape = r_shape_id(r);
        let material = read_material(r);
        Some(ShapeCommand::SetSurfaceMaterial { shape, material })
    } else if opcode == OP_SHAPE_SET_FILTER {
        let shape = r_shape_id(r);
        let filter = super::read::r_filter(r);
        Some(ShapeCommand::SetFilter { shape, filter })
    } else if OP_SHAPE_ENABLE_SENSOR_EVENTS <= opcode && opcode <= OP_SHAPE_ENABLE_HIT_EVENTS {
        let shape = r_shape_id(r);
        let flag = read_bool(r);
        Some(ShapeCommand::Enable { opcode, shape, flag })
    } else if OP_SHAPE_SET_CIRCLE <= opcode && opcode <= OP_SHAPE_SET_CHAIN_SEGMENT {
        let shape = r_shape_id(r);
        let geometry = read_geometry_of_kind(opcode - OP_SHAPE_SET_CIRCLE, r);
        Some(ShapeCommand::SetGeometry { shape, geometry })
    } else if opcode == OP_SHAPE_APPLY_WIND {
        let shape = r_shape_id(r);
        let wind = r_vec2(r);
        let drag = read_u32(r);
        let lift = read_u32(r);
        let wake = read_bool(r);
        Some(ShapeCommand::ApplyWind { shape, wind, drag, lift, wake })
    } else if opcode == OP_DESTROY_CHAIN {
        let chain = read_chain_id(r);
        Some(ShapeCommand::DestroyChain { chain })
    } else if opcode == OP_CHAIN_SET_SURFACE_MATERIAL {
        let chain = read_chain_id(r);
        let material = read_material(r);
        let material_index = read_i32(r);
        Some(ShapeCommand::ChainSetSurfaceMaterial { chain, material, material_index })
    } else {
        None
    }
}

/// The opcode a shape or chain command is recorded under.
pub open spec fn shape_command_opcode(cmd: ShapeCommand) -> u8 {
    match cmd {
        ShapeCommand::Create { geometry, .. } => (OP_CREATE_CIRCLE_SHAPE + geometry_kind(geometry)) as u8,
        ShapeCommand::Destroy { .. } => OP_DESTROY_SHAPE,
        ShapeCommand::SetDensity { .. } => OP_SHAPE_SET_DENSITY,
        ShapeCommand::SetReal { opcode, .. } => opcode,
        ShapeCommand::SetUserMaterial { .. } => OP_SHAPE_SET_USER_MATERIAL,
        ShapeCommand::SetSurfaceMaterial { .. } => OP_SHAPE_SET_SURFACE_MATERIAL,
        ShapeCommand::SetFilter { .. } => OP_SHAPE_SET_FILTER,
        ShapeCommand::Enable { opcode, .. } => opcode,
        ShapeCommand::SetGeometry { geometry, .. } => (OP_SHAPE_SET_CIRCLE + geometry_kind(geometry)) as u8,
        ShapeCommand::ApplyWind { .. } => OP_SHAPE_APPLY_WIND,
        ShapeCommand::DestroyChain { .. } => OP_DESTROY_CHAIN,
        ShapeCommand::ChainSetSurfaceMaterial { .. } => OP_CHAIN_SET_SURFACE_MATERIAL,
    }
}

/// Whether the opcode a command carries names a record of its kind.
pub open spec fn shape_command_ok(cmd: ShapeCommand) -> bool {
    match cmd {
        ShapeCommand::SetReal { opcode, .. } => opcode == OP_SHAPE_SET_FRICTION || opcode == OP_SHAPE_SET_RESTITUTION,
        ShapeCommand::Enable { opcode, .. } => OP_SHAPE_ENABLE_SENSOR_EVENTS <= opcode <= OP_SHAPE_ENABLE_HIT_EVENTS,
        _ => true,
    }
}

/// The payload a shape or chain command is recorded with, as the op
/// writers lay it down.
pub open spec fn shape_command_bytes(cmd: ShapeCommand) -> Seq<u8> {
    match cmd {
        ShapeCommand::Create { body, def, geometry, id } => id64_bytes(body.index1, body.world0, body.generation)
            + shape_def_bytes(def) + geometry_bytes(geometry) + id64_bytes(id.index1, id.world0, id.generation),
        ShapeCommand::Destroy { shape, update_body_mass } => id64_bytes(shape.index1, shape.world0, shape.generation)
            + seq![bool_byte(update_body_mass)],
        ShapeCommand::SetDensity { shape, density, update_body_mass } => id64_bytes(
            shape.index1,
            shape.world0,
            shape.generation,
        ) + u32_bytes(density) + seq![bool_byte(update_body_mass)],
        ShapeCommand::SetReal { shape, value, .. } => id64_bytes(shape.index1, shape.world0, shape.generation)
            + u32_bytes(value),
        ShapeCommand::SetUserMaterial { shape, material } => id64_bytes(shape.index1, shape.world0, shape.generation)
            + u64_bytes(material),
        ShapeCommand::SetSurfaceMaterial { shape, material } => id64_bytes(
            shape.index1,
            shape.world0,
            shape.generation,
        ) + material_bytes(material),
        ShapeCommand::SetFilter { shape, filter } => id64_bytes(shape.index1, shape.world0, shape.generation)
            + filter_bytes(filter),
        ShapeCommand::Enable { shape, flag, .. } => id64_bytes(shape.index1, shape.world0, shape.generation)
            + seq![bool_byte(flag)],
        ShapeCommand::SetGeometry { shape, geometry } => id64_bytes(shape.index1, shape.world0, shape.generation)
            + geometry_bytes(geometry),
        ShapeCommand::ApplyWind { shape, wind, drag, lift, wake } => id64_bytes(
            shape.index1,
            shape.world0,
            shape.generation,
        ) + vec2_bytes(wind) + u32_bytes(drag) + u32_bytes(lift) + seq![bool_byte(wake)],
        ShapeCommand::DestroyChain { chain } => id64_bytes(chain.index1, chain.world0, chain.generation),
        ShapeCommand::ChainSetSurfaceMaterial { chain, material, material_index } => id64_bytes(
            chain.index1,
            chain.world0,
            chain.generation,
        ) + material_bytes(material) + i32_bytes(material_index),
    }
}

/// A command as a recording carries it: a shape definition's user data is
/// not recorded and reads back as zero.
pub open spec fn shape_command_recorded(cmd: ShapeCommand) -> ShapeCommand {
    match cmd {
        ShapeCommand::Create { body, def, geometry, id } => ShapeCommand::Create {
            body,
            def: ShapeDef { user_data: 0, ..def },
            geometry,
            id,
        },
        _ => cmd,
    }
}

/// A geometry's payload is as long as its kind says.
proof fn lemma_geometry_bytes_len(g: ShapeGeometry)
    ensures
        geometry_bytes(g).len() == geometry_payload_len(g),
{
    lemma_geometry_payload_len(g);
}

/// Replaying a shape or chain record gives back the call that was
/// recorded: the payload a command is recorded with, read under its opcode,
/// is that command (less what is not recorded), and reading ends at the
/// payload's end.
#[verifier::spinoff_prover]
#[verifier::rlimit(30)]
pub proof fn law_shape_command_round_trip(cmd: ShapeCommand, d: Seq<u8>, c: int)
    requires
        shape_command_ok(cmd),
        0 <= c,
        c + shape_command_bytes(cmd).len() <= d.len(),
        d.subrange(c, c + shape_command_bytes(cmd).len()) == shape_command_bytes(cmd),
    ensures
        shape_command_read(shape_command_opcode(cmd), d, true, c) == Some(
            (shape_command_recorded(cmd), (true, c + shape_command_bytes(cmd).len())),
        ),
{
    match cmd {
        ShapeCommand::Create { body, def, geometry, id } => {
            let a = id64_bytes(body.index1, body.world0, body.generation);
            let b = shape_def_bytes(def);
            let g = geometry_bytes(geometry);
            let e = id64_bytes(id.index1, id.world0, id.generation);
            lemma_geometry_bytes_len(geometry);
            assert(b.len() == 68);
            lemma_split(d, c, a + b + g, e);
            lemma_split(d, c, a + b, g);
            lemma_split(d, c, a, b);
            law_body_id_round_trip(body, d, c);
            law_shape_def_round_trip(def, d, c + 8);
            lemma_geometry_read_back(geometry, d, c + 76);
            law_shape_id_round_trip(id, d, c + 76 + g.len());
        },
        ShapeCommand::Destroy { shape, update_body_mass } => {
            let a = id64_bytes(shape.index1, shape.world0, shape.generation);
            lemma_split(d, c, a, seq![bool_byte(update_body_mass)]);
            law_shape_id_round_trip(shape, d, c);
            lemma_bool_read_back(update_body_mass, d, c + 8);
        },
        ShapeCommand::SetDensity { shape, density, update_body_mass } => {
            let a = id64_bytes(shape.index1, shape.world0, shape.generation);
            lemma_split(d, c, a + u32_bytes(density), seq![bool_byte(update_body_mass)]);
            lemma_split(d, c, a, u32_bytes(density));
            law_shape_id_round_trip(shape, d, c);
            lemma_u32_read_back(density, d, c + 8);
            lemma_bool_read_back(update_body_mass, d, c + 12);
        },
        ShapeCommand::SetReal { shape, value, .. } => {
            let a = id64_bytes(shape.index1, shape.world0, shape.generation);
            lemma_split(d, c, a, u32_bytes(value));
            law_shape_id_round_trip(shape, d, c);
            lemma_u32_read_back(value, d, c + 8);
        },
        ShapeCommand::SetUserMaterial { shape, material } => {
            let a = id64_bytes(shape.index1, shape.world0, shape.generation);
            lemma_split(d, c, a, u64_bytes(material));
            law_shape_id_round_trip(shape, d, c);
            lemma_u64_read_back(material, d, c + 8);
        },
        ShapeCommand::SetSurfaceMaterial { shape, material } => {
            let a = id64_bytes(shape.index1, shape.world0, shape.generation);
            lemma_split(d, c, a, material_bytes(material));
            law_shape_id_round_trip(shape, d, c);
            law_material_round_trip(material, d, c + 8);
        },
        ShapeCommand::SetFilter { shape, filter } => {
            let a = id64_bytes(shape.index1, shape.world0, shape.generation);
            lemma_split(d, c, a, filter_bytes(filter));
            law_shape_id_round_trip(shape, d, c);
            law_filter_round_trip(filter, d, c + 8);
        },
        ShapeCommand::Enable { shape, flag, .. } => {
            let a = id64_bytes(shape.index1, shape.world0, shape.generation);
            lemma_split(d, c, a, seq![bool_byte(flag)]);
            law_shape_id_round_trip(shape, d, c);
            lemma_bool_read_back(flag, d, c + 8);
        },
        ShapeCommand::SetGeometry { shape, geometry } => {
            let a = id64_bytes(shape.index1, shape.world0, shape.generation);
            lemma_geometry_bytes_len(geometry);
            lemma_split(d, c, a, geometry_bytes(geometry));
            law_shape_id_round_trip(shape, d, c);
            lemma_geometry_read_back(geometry, d, c + 8);
        },
        ShapeCommand::ApplyWind { shape, wind, drag, lift, wake } => {
            let a = id64_bytes(shape.index1, shape.world0, shape.generation);
            let w = vec2_bytes(wind);
            lemma_split(d, c, a + w + u32_bytes(drag) + u32_bytes(lift), seq![bool_byte(wake)]);
            lemma_split(d, c, a + w + u32_bytes(drag), u32_bytes(lift));
            lemma_split(d, c, a + w, u32_bytes(drag));
            lemma_split(d, c, a, w);
            law_shape_id_round_trip(shape, d, c);
            law_vec2_round_trip(wind, d, c + 8);
            lemma_u32_read_back(drag, d, c + 16);
            lemma_u32_read_back(lift, d, c + 20);
            lemma_bool_read_back(wake, d, c + 24);
        },
        ShapeCommand::DestroyChain { chain } => {
            lemma_u64_read_back(pack_id64(chain.index1, chain.world0, chain.generation), d, c);
            crate::id::lemma_id64_round_trip(chain.index1, chain.world0, chain.generation);
        },
        ShapeCommand::ChainSetSurfaceMaterial { chain, material, material_index } => {
            let a = id64_bytes(chain.index1, chain.world0, chain.generation);
            lemma_split(d, c, a + material_bytes(material), i32_bytes(material_index));
            lemma_split(d, c, a, material_bytes(material));
            lemma_u64_read_back(pack_id64(chain.index1, chain.world0, chain.generation), d, c);
            crate::id::lemma_id64_round_trip(chain.index1, chain.world0, chain.generation);
            law_material_round_trip(material, d, c + 8);
            lemma_i32_read_back(material_index, d, c + 36);
        },
    }
}

} // verus!
