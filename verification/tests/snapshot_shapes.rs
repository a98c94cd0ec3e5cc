use lib::geometry::{Aabb, Capsule, ChainSegment, Circle, Polygon, Segment, Vec2};
use lib::shape::{Shape, ShapeGeometry, ShapeType};
use lib::snapshot::SnapReader;
use lib::snapshot_shapes::{des_geometry, des_shape, ser_geometry, ser_shape};
use lib::types::{Filter, SurfaceMaterial};

fn v2(x: f32, y: f32) -> Vec2 {
    Vec2 { x: x.to_bits(), y: y.to_bits() }
}

fn triangle() -> Polygon {
    let mut vertices = [v2(0.0, 0.0); 8];
    vertices[0] = v2(-1.0, 0.0);
    vertices[1] = v2(1.0, 0.0);
    vertices[2] = v2(0.0, 2.0);
    let mut normals = [v2(0.0, 0.0); 8];
    normals[0] = v2(0.0, -1.0);
    Polygon { vertices, normals, centroid: v2(0.0, 0.5), radius: 0, count: 3 }
}

fn geometries() -> Vec<ShapeGeometry> {
    let segment = Segment { point1: v2(0.0, 0.0), point2: v2(4.0, 0.0) };
    vec![
        ShapeGeometry::Circle(Circle { center: v2(1.0, 2.0), radius: 0.5f32.to_bits() }),
        ShapeGeometry::Capsule(Capsule { center1: v2(-1.0, 0.0), center2: v2(1.0, 0.0), radius: 0.25f32.to_bits() }),
        ShapeGeometry::Segment(segment),
        ShapeGeometry::Polygon(triangle()),
        ShapeGeometry::ChainSegment(ChainSegment { ghost1: v2(-4.0, 0.0), segment, ghost2: v2(8.0, 0.0), chain_id: 3 }),
    ]
}

fn shape(geometry: ShapeGeometry) -> Shape {
    Shape {
        id: 4,
        body_id: 2,
        prev_shape_id: 1,
        next_shape_id: -1,
        sensor_index: -1,
        material: SurfaceMaterial {
            friction: 0.6f32.to_bits(),
            restitution: 0.1f32.to_bits(),
            rolling_resistance: 0,
            tangent_speed: 0,
            user_material_id: 8,
            custom_color: 0xABCDEF,
        },
        density: 2.0f32.to_bits(),
        aabb_margin: 0.1f32.to_bits(),
        aabb: Aabb { lower_bound: v2(-1.0, -1.0), upper_bound: v2(1.0, 1.0) },
        fat_aabb: Aabb { lower_bound: v2(-1.1, -1.1), upper_bound: v2(1.1, 1.1) },
        local_centroid: v2(0.0, 0.25),
        proxy_key: 17,
        filter: Filter { category_bits: 2, mask_bits: 0xFF, group_index: -1 },
        user_data: 555,
        geometry,
        generation: 9,
        enable_sensor_events: true,
        enable_contact_events: false,
        enable_custom_filtering: true,
        enable_hit_events: false,
        enable_pre_solve_events: true,
        enlarged_aabb: true,
    }
}

fn image(s: &Shape) -> Vec<u8> {
    let mut buf = Vec::new();
    ser_shape(&mut buf, s);
    buf
}

#[test]
fn geometry_image_starts_with_its_kind() {
    let sizes = [12, 20, 16, 144, 36];
    for (tag, g) in geometries().iter().enumerate() {
        let mut buf = Vec::new();
        ser_geometry(&mut buf, g);
        assert_eq!(buf[0] as usize, tag);
        assert_eq!(buf.len(), 1 + sizes[tag]);
        let mut r = SnapReader::new(&buf);
        let back = des_geometry(&mut r);
        assert!(r.ok);
        assert_eq!(r.cursor, buf.len());
        let mut again = Vec::new();
        ser_geometry(&mut again, &back);
        assert_eq!(again, buf);
    }
}

#[test]
fn unknown_geometry_tag_reads_a_chain_segment() {
    let mut buf = vec![9u8];
    buf.extend_from_slice(&[0u8; 36]);
    let mut r = SnapReader::new(&buf);
    match des_geometry(&mut r) {
        ShapeGeometry::ChainSegment(c) => assert_eq!(c.chain_id, 0),
        _ => panic!("expected a chain segment"),
    }
    assert!(r.ok);
}

#[test]
fn shape_round_trip_drops_user_data() {
    for g in geometries() {
        let s = shape(g);
        let buf = image(&s);
        let mut r = SnapReader::new(&buf);
        let back = des_shape(&mut r);
        assert!(r.ok);
        assert_eq!(r.cursor, buf.len());
        assert_eq!(back.user_data, 0);
        assert_eq!(back.id, 4);
        assert_eq!(back.prev_shape_id, 1);
        assert_eq!(back.proxy_key, 17);
        assert_eq!(back.fat_aabb, s.fat_aabb);
        assert_eq!(back.filter, s.filter);
        assert_eq!(back.material, s.material);
        assert_eq!(back.generation, 9);
        assert!(back.enlarged_aabb && back.enable_pre_solve_events && !back.enable_hit_events);
        assert_eq!(back.shape_type(), s.shape_type());
        assert_eq!(image(&back), buf);
    }
}

#[test]
fn shape_image_layout() {
    let s = shape(ShapeGeometry::Circle(Circle { center: v2(0.0, 0.0), radius: 1.0f32.to_bits() }));
    let buf = image(&s);
    assert_eq!(buf.len(), 137 + 12);
    assert_eq!(&buf[0..4], &[4, 0, 0, 0]);
    assert_eq!(&buf[12..16], &[0xFF; 4]);
    // user data travels as zero
    assert_eq!(&buf[120..128], &[0u8; 8]);
    assert_eq!(buf[128], 0);
    assert_eq!(&buf[141..143], &[9, 0]);
    assert_eq!(&buf[143..149], &[1, 0, 1, 0, 1, 1]);
}

#[test]
fn truncated_shape_image_marks_the_reader() {
    let s = shape(ShapeGeometry::Polygon(triangle()));
    let buf = image(&s);
    let mut r = SnapReader::new(&buf[..100]);
    let back = des_shape(&mut r);
    assert!(!r.ok);
    assert_eq!(back.id, 4);
    // the proxy key ends at byte 100; the filter after it is past the end
    assert_eq!(back.proxy_key, 17);
    assert_eq!(back.filter, Filter { category_bits: 0, mask_bits: 0, group_index: 0 });
    assert_eq!(back.shape_type(), ShapeType::Circle);
}
