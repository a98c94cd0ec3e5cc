use lib::world::BroadPhase;
use lib::snapshot_tree::{Capacity as WorldCapacity, WorldConfig as Settings};
use lib::chain::chain_segments;
use lib::containers::{des_bitset, des_hashset, des_id_pool, ser_bitset, ser_hashset, ser_id_pool, BitSet, HashSet, IdPool};
use lib::geometry::{Aabb, Rot, Transform, Vec2};
use lib::id::{BodyId, ChainId, ShapeId};
use lib::recording::query::QueryRecorder;
use lib::recording::read::{body_ids_match, chain_ids_match, shape_ids_match};
use lib::recording::Recording;
use lib::snapshot::SnapReader;
use lib::snapshot_bodies::{
    des_body, des_body_sim, des_contact, des_contact_sim, ser_body, ser_body_sim, ser_contact, ser_contact_sim,
    BodySim, Contact, ContactEdge, ContactSim, Manifold, ManifoldPoint, SimplexCache,
};
use lib::snapshot_structs::IslandSim;
use lib::snapshot_tree::{
    des_tree, des_world_config, ser_tree, ser_world_config, Capacity, DynamicTree, TreeNode, WorldConfig,
};
use lib::snapshot_world::{des_solver_set, ser_solver_set};
use lib::types::{BodyType, SurfaceMaterial};
use lib::world::{Body, SolverSet, World};

fn b(v: f32) -> u32 {
    v.to_bits()
}

fn v2(x: f32, y: f32) -> Vec2 {
    Vec2 { x: b(x), y: b(y) }
}

fn body_sim(k: i32) -> BodySim {
    BodySim {
        transform: Transform { p: v2(1.0, 2.0), q: Rot { c: b(1.0), s: 0 } },
        center: v2(1.0, 2.5),
        rotation0: Rot { c: b(1.0), s: 0 },
        center0: v2(1.0, 2.4),
        local_center: v2(0.0, 0.5),
        force: v2(0.0, -9.8),
        torque: b(0.25),
        inv_mass: b(0.5),
        inv_inertia: b(2.0),
        min_extent: b(0.1),
        max_extent: b(1.0),
        linear_damping: 0,
        angular_damping: b(0.05),
        gravity_scale: b(1.0),
        body_id: k,
        flags: 0x21,
    }
}

fn manifold_point(id: u16) -> ManifoldPoint {
    ManifoldPoint {
        anchor_a: v2(0.1, 0.2),
        anchor_b: v2(-0.1, 0.2),
        separation: b(-0.01),
        base_separation: b(-0.02),
        normal_impulse: b(3.0),
        tangent_impulse: b(0.5),
        total_normal_impulse: b(3.5),
        normal_velocity: b(-1.0),
        id,
        persisted: true,
    }
}

fn contact_sim() -> ContactSim {
    ContactSim {
        contact_id: 4,
        cached_rotation_a: Rot { c: b(1.0), s: 0 },
        cached_rotation_b: Rot { c: 0, s: b(1.0) },
        cached_relative_pose: Transform { p: v2(0.0, 1.0), q: Rot { c: b(1.0), s: 0 } },
        body_id_a: 1,
        body_id_b: 2,
        body_sim_index_a: 0,
        body_sim_index_b: 1,
        shape_id_a: 3,
        shape_id_b: 5,
        inv_mass_a: b(1.0),
        inv_i_a: b(2.0),
        inv_mass_b: 0,
        inv_i_b: 0,
        manifold: Manifold {
            normal: v2(0.0, 1.0),
            rolling_impulse: b(0.1),
            points: [manifold_point(7), manifold_point(9)],
            point_count: 2,
        },
        friction: b(0.6),
        restitution: 0,
        rolling_resistance: 0,
        tangent_speed: 0,
        sim_flags: 0x3,
        cache: SimplexCache { count: 2, index_a: [0, 1, 0], index_b: [2, 0, 0] },
    }
}

#[test]
fn body_sim_and_contact_sim_images_read_back() {
    let mut buf = Vec::new();
    ser_body_sim(&mut buf, &body_sim(3));
    ser_contact_sim(&mut buf, &contact_sim());
    assert_eq!(buf.len(), 96 + 206);
    let mut r = SnapReader::new(&buf);
    assert_eq!(des_body_sim(&mut r), body_sim(3));
    let c = des_contact_sim(&mut r);
    assert!(r.ok && r.cursor == buf.len());
    assert_eq!(c.manifold.points[1].id, 9);
    assert_eq!(c.manifold.points[0].normal_impulse, b(3.0));
    assert_eq!(c.cache.index_b, [2, 0, 0]);
    assert_eq!(c.cached_rotation_b, Rot { c: 0, s: b(1.0) });
    assert_eq!(c.sim_flags, 3);
}

#[test]
fn contact_image_reads_back() {
    let e = |k: i32| ContactEdge { body_id: k, prev_key: -1, next_key: 2 * k };
    let c = Contact {
        edges: [e(1), e(2)],
        island_id: 3,
        island_index: 0,
        set_index: 1,
        color_index: -1,
        local_index: 5,
        shape_id_a: 6,
        shape_id_b: 7,
        contact_id: 8,
        flags: 0x10,
        generation: 42,
    };
    let mut buf = Vec::new();
    ser_contact(&mut buf, &c);
    assert_eq!(buf.len(), 64);
    let mut r = SnapReader::new(&buf);
    let d = des_contact(&mut r);
    assert!(r.ok && r.cursor == 64);
    assert_eq!(d.edges[1], e(2));
    assert_eq!((d.generation, d.contact_id, d.color_index), (42, 8, -1));
}

#[test]
fn body_image_reads_back_with_its_name() {
    let body = Body {
        user_data: 99,
        set_index: 2,
        local_index: 0,
        head_contact_key: -1,
        contact_count: 0,
        head_shape_id: 4,
        shape_count: 1,
        head_chain_id: -1,
        head_joint_key: -1,
        joint_count: 0,
        island_id: 3,
        island_index: 0,
        mass: b(2.0),
        inertia: b(0.5),
        sleep_threshold: b(0.05),
        sleep_time: b(0.0),
        body_move_index: 0,
        id: 7,
        flags: 0x40,
        type_: BodyType::Kinematic,
        generation: 3,
        name: String::from("lever"),
    };
    let mut buf = Vec::new();
    ser_body(&mut buf, &body);
    assert_eq!(buf.len(), 86 + 2 + 5);
    let mut r = SnapReader::new(&buf);
    let d = des_body(&mut r);
    assert!(r.ok && r.cursor == buf.len());
    assert_eq!(d.user_data, 0);
    assert_eq!(d.name, "lever");
    assert_eq!(d.type_, BodyType::Kinematic);
    assert_eq!((d.id, d.generation, d.flags, d.mass), (7, 3, 0x40, b(2.0)));
}

#[test]
fn solver_set_image_reads_back() {
    let set = SolverSet {
        set_index: 2,
        body_sims: vec![body_sim(0), body_sim(1)],
        body_states: vec![],
        joint_sims: vec![],
        contact_sims: vec![contact_sim()],
        island_sims: vec![IslandSim { island_id: 5 }],
    };
    let mut buf = Vec::new();
    ser_solver_set(&mut buf, &set);
    assert_eq!(buf.len(), 4 + 4 + 2 * 96 + 4 + 4 + 4 + 206 + 4 + 4);
    let mut r = SnapReader::new(&buf);
    let d = des_solver_set(&mut r);
    assert!(r.ok && r.cursor == buf.len());
    assert_eq!(d.set_index, 2);
    assert_eq!(d.body_sims, vec![body_sim(0), body_sim(1)]);
    assert_eq!(d.contact_sims.len(), 1);
    assert_eq!(d.island_sims, vec![IslandSim { island_id: 5 }]);
}

#[test]
fn solver_set_with_a_bad_count_stops_there() {
    let mut buf = Vec::new();
    buf.extend_from_slice(&2i32.to_le_bytes());
    buf.extend_from_slice(&1000i32.to_le_bytes());
    let mut r = SnapReader::new(&buf);
    let d = des_solver_set(&mut r);
    assert!(!r.ok);
    assert_eq!(d.set_index, 2);
    assert!(d.body_sims.is_empty() && d.island_sims.is_empty());
}

#[test]
fn tree_and_config_images_read_back() {
    let node = |k: i32| TreeNode {
        aabb: Aabb { lower_bound: v2(0.0, 0.0), upper_bound: v2(1.0, k as f32) },
        category_bits: 1,
        child1: k + 1,
        child2: k + 2,
        user_data: 77,
        parent: -1,
        next: 3,
        height: 1,
        flags: 2,
    };
    let tree = DynamicTree { root: 0, node_count: 2, free_list: -1, proxy_count: 1, nodes: vec![node(0), node(1)] };
    let mut buf = Vec::new();
    ser_tree(&mut buf, &tree);
    assert_eq!(buf.len(), 20 + 2 * 52);
    let mut r = SnapReader::new(&buf);
    let t = des_tree(&mut r).expect("tree");
    assert!(r.ok && r.cursor == buf.len());
    assert_eq!(t.nodes, vec![node(0), node(1)]);
    assert_eq!((t.root, t.node_count, t.free_list, t.proxy_count), (0, 2, -1, 1));
    // a node pool larger than the bytes left fails
    let mut bad = buf.clone();
    bad[16..20].copy_from_slice(&100i32.to_le_bytes());
    let mut r = SnapReader::new(&bad);
    assert!(des_tree(&mut r).is_none());
    assert!(!r.ok);

    let config = WorldConfig {
        gravity: v2(0.0, -10.0),
        hit_event_threshold: b(1.0),
        restitution_threshold: b(1.0),
        max_linear_speed: b(400.0),
        contact_speed: b(3.0),
        contact_hertz: b(30.0),
        contact_damping_ratio: b(10.0),
        contact_recycle_distance: b(0.1),
        step_index: 1234,
        split_island_id: -1,
        inv_h: b(240.0),
        inv_dt: b(60.0),
        end_event_array_index: 1,
        max_capacity: Capacity {
            static_shape_count: 8,
            dynamic_shape_count: 16,
            static_body_count: 4,
            dynamic_body_count: 12,
            contact_count: 64,
        },
        enable_sleep: true,
        enable_warm_starting: false,
        enable_contact_softening: true,
        enable_continuous: true,
        enable_speculative: false,
    };
    let mut buf = Vec::new();
    ser_world_config(&mut buf, &config);
    assert_eq!(buf.len(), 81);
    assert_eq!(buf[80], 0x01 | 0x04 | 0x08);
    let mut r = SnapReader::new(&buf);
    assert_eq!(des_world_config(&mut r), config);
    assert!(r.ok && r.cursor == 81);
}

#[test]
fn container_images_say_where_they_end() {
    let mut pool = IdPool::new();
    pool.free_array = vec![2, 4];
    pool.next_index = 6;
    let mut bs = BitSet::new(200);
    bs.block_count = 4;
    bs.blocks[0] = 1 << 3;
    bs.blocks[2] = 1 << 2;
    let mut hs = HashSet::new(16);
    hs.count = 1;
    let mut buf = Vec::new();
    ser_id_pool(&mut buf, &pool);
    ser_bitset(&mut buf, &bs);
    ser_hashset(&mut buf, &hs);
    let mut r = SnapReader::new(&buf);
    let p = des_id_pool(&mut r);
    assert_eq!(r.cursor, 4 + 4 * 2 + 4);
    assert_eq!((p.free_array, p.next_index), (vec![2, 4], 6));
    let c = r.cursor;
    let b2 = des_bitset(&mut r);
    assert_eq!(r.cursor, c + 8 + 8 * bs.blocks.len());
    assert_eq!(b2.blocks, bs.blocks);
    let c = r.cursor;
    let h2 = des_hashset(&mut r);
    assert_eq!(r.cursor, c + 8 + 8 * hs.items.len());
    assert_eq!(r.cursor, buf.len());
    assert_eq!(h2.count, 1);
}

#[test]
fn created_ids_are_held_to_the_recorded_ones() {
    let rec = BodyId { index1: 3, world0: 0, generation: 2 };
    assert!(body_ids_match(BodyId { index1: 3, world0: 5, generation: 2 }, rec));
    assert!(!body_ids_match(BodyId { index1: 3, world0: 0, generation: 1 }, rec));
    let chain = ChainId { index1: 1, world0: 0, generation: 1 };
    assert!(chain_ids_match(chain, chain));
    assert!(!chain_ids_match(ChainId { index1: 2, ..chain }, chain));
    let s = ShapeId { index1: 4, world0: 0, generation: 9 };
    assert!(shape_ids_match(s, s));
    assert!(!shape_ids_match(ShapeId { generation: 8, ..s }, s));
}

fn material(k: u32) -> SurfaceMaterial {
    SurfaceMaterial { friction: k, restitution: 0, rolling_resistance: 0, tangent_speed: 0, user_material_id: k as u64, custom_color: 0 }
}

#[test]
fn chain_segments_follow_the_points() {
    let points: Vec<Vec2> = (0..5).map(|k| v2(k as f32, 0.0)).collect();
    let materials: Vec<SurfaceMaterial> = (0..5).map(material).collect();
    let open = chain_segments(&points, &materials, false, 7);
    assert_eq!(open.len(), 2);
    assert_eq!(open[0].0.ghost1, points[0]);
    assert_eq!(open[0].0.segment.point1, points[1]);
    assert_eq!(open[0].0.segment.point2, points[2]);
    assert_eq!(open[0].0.ghost2, points[3]);
    assert_eq!(open[0].0.chain_id, 7);
    assert_eq!(open[1].1, material(2));
    let looped = chain_segments(&points, &materials, true, 7);
    assert_eq!(looped.len(), 5);
    assert_eq!(looped[0].0.ghost1, points[4]);
    assert_eq!(looped[4].0.segment.point1, points[4]);
    assert_eq!(looped[4].0.segment.point2, points[0]);
    assert_eq!(looped[4].0.ghost2, points[1]);
    assert_eq!(looped[3].0.ghost2, points[0]);
    assert_eq!(looped[3].1, material(3));
    let shared = chain_segments(&points, &[material(9)], true, 7);
    assert!(shared.iter().all(|s| s.1 == material(9)));
}

#[test]
fn recorders_append_what_they_are_given() {
    let mut rec = Recording::new(0);
    rec.begin_record(0x21);
    rec.append_payload(&[1, 2, 3]);
    rec.end_record();
    assert_eq!(rec.buffer, vec![0x21, 3, 0, 0, 1, 2, 3]);

    let mut world = World {
        world_id: 0,
        generation: 1,
        locked: false,
        recording: Some(Recording::new(0)),
        bodies: vec![],
        shapes: vec![],
        chain_shapes: vec![],
        joints: vec![],
        sensors: vec![],
        solver_sets: vec![],
        graph_colors: vec![],
        ..blank_world()
    };
    let mut q = QueryRecorder::begin(&world, &[]);
    q.record_hit(&[6, 0, 0, 0, 5, 0, 0, 0, 1]);
    assert_eq!(q.hits, 1);
    q.commit(&mut world, 0xE0, None);
    let buf = world.recording.as_ref().unwrap().buffer.clone();
    // opcode, size, world word, count 1, the hit
    assert_eq!(&buf[..4], &[0xE0, 17, 0, 0]);
    assert_eq!(&buf[8..12], &[1, 0, 0, 0]);
    assert_eq!(&buf[12..], &[6, 0, 0, 0, 5, 0, 0, 0, 1]);
}

/// A world with empty tables, settings and broad phase.
fn blank_world() -> World {
    World {
        world_id: 0,
        generation: 1,
        locked: false,
        recording: None,
        bodies: vec![],
        shapes: vec![],
        chain_shapes: vec![],
        joints: vec![],
        sensors: vec![],
        solver_sets: vec![],
        graph_colors: vec![],
        config: Settings {
            gravity: Vec2 { x: 0, y: 0 },
            hit_event_threshold: 0,
            restitution_threshold: 0,
            max_linear_speed: 0,
            contact_speed: 0,
            contact_hertz: 0,
            contact_damping_ratio: 0,
            contact_recycle_distance: 0,
            step_index: 0,
            split_island_id: -1,
            inv_h: 0,
            inv_dt: 0,
            end_event_array_index: 0,
            max_capacity: WorldCapacity {
                static_shape_count: 0,
                dynamic_shape_count: 0,
                static_body_count: 0,
                dynamic_body_count: 0,
                contact_count: 0,
            },
            enable_sleep: true,
            enable_warm_starting: true,
            enable_contact_softening: false,
            enable_continuous: true,
            enable_speculative: true,
        },
        body_id_pool: IdPool::new(),
        shape_id_pool: IdPool::new(),
        chain_id_pool: IdPool::new(),
        contact_id_pool: IdPool::new(),
        joint_id_pool: IdPool::new(),
        island_id_pool: IdPool::new(),
        solver_set_id_pool: IdPool::new(),
        contacts: vec![],
        islands: vec![],
        broad_phase: BroadPhase { trees: vec![], moved_proxies: vec![], move_array: vec![], pair_set: HashSet::new(16) },
    }
}
