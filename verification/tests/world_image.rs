use lib::containers::{BitSet, HashSet, IdPool};
use lib::geometry::{Rot, Transform, Vec2};
use lib::recording::{fnv_mix_float, fnv_mix_int, fnv_mix_position, SNAP_FNV_INIT};
use lib::snapshot_bodies::{
    BodySim, BodyState, Contact, ContactEdge, ContactSim, Manifold, ManifoldPoint, SimplexCache,
};
use lib::snapshot_structs::{ContactLink, Island, IslandSim, JointLink};
use lib::snapshot_tree::{Capacity, DynamicTree, WorldConfig};
use lib::types::BodyType;
use lib::world::{Body, BroadPhase, GraphColor, SolverSet, World};
use lib::world_hash::{hash_world_state, hash_world_state_deep};
use lib::world_image::{serialize_world, world_snapshot};
use lib::world_restore::{replay_seed, world_restore};
use lib::recording::{RecHeader, REC_MAGIC, REC_VERSION_MAJOR, REC_VERSION_MINOR};

fn b(v: f32) -> u32 {
    v.to_bits()
}

fn v2(x: f32, y: f32) -> Vec2 {
    Vec2 { x: b(x), y: b(y) }
}

fn body_sim(k: i32) -> BodySim {
    BodySim {
        transform: Transform { p: v2(1.0 + k as f32, 2.0), q: Rot { c: b(1.0), s: 0 } },
        center: v2(1.0, 2.5),
        rotation0: Rot { c: b(1.0), s: 0 },
        center0: v2(1.0, 2.4),
        local_center: v2(0.0, 0.5),
        force: v2(0.0, -9.8),
        torque: b(0.25),
        inv_mass: b(0.5),
        inv_inertia: b(2.0),
        min_extent: b(0.1),
        max_extent: b(1.0),
        linear_damping: 0,
        angular_damping: b(0.05),
        gravity_scale: b(1.0),
        body_id: k,
        flags: 0x21,
    }
}

fn body_state() -> BodyState {
    BodyState {
        linear_velocity: v2(3.0, -1.0),
        angular_velocity: b(0.5),
        flags: 0,
        delta_position: v2(0.0, 0.0),
        delta_rotation: Rot { c: b(1.0), s: 0 },
    }
}

fn manifold_point(id: u16) -> ManifoldPoint {
    ManifoldPoint {
        anchor_a: v2(0.1, 0.2),
        anchor_b: v2(-0.1, 0.2),
        separation: b(-0.01),
        base_separation: b(-0.02),
        normal_impulse: b(3.0),
        tangent_impulse: b(0.5),
        total_normal_impulse: b(3.5),
        normal_velocity: b(-1.0),
        id,
        persisted: true,
    }
}

fn contact_sim() -> ContactSim {
    ContactSim {
        contact_id: 0,
        cached_rotation_a: Rot { c: b(1.0), s: 0 },
        cached_rotation_b: Rot { c: 0, s: b(1.0) },
        cached_relative_pose: Transform { p: v2(0.0, 1.0), q: Rot { c: b(1.0), s: 0 } },
        body_id_a: 0,
        body_id_b: 1,
        body_sim_index_a: 0,
        body_sim_index_b: 1,
        shape_id_a: 3,
        shape_id_b: 5,
        inv_mass_a: b(1.0),
        inv_i_a: b(2.0),
        inv_mass_b: 0,
        inv_i_b: 0,
        manifold: Manifold {
            normal: v2(0.0, 1.0),
            rolling_impulse: b(0.1),
            points: [manifold_point(7), manifold_point(9)],
            point_count: 1,
        },
        friction: b(0.6),
        restitution: 0,
        rolling_resistance: 0,
        tangent_speed: 0,
        sim_flags: 0x3,
        cache: SimplexCache { count: 2, index_a: [0, 1, 0], index_b: [2, 0, 0] },
    }
}

fn body(id: i32, set_index: i32, local_index: i32, name: &str) -> Body {
    Body {
        user_data: 0,
        set_index,
        local_index,
        head_contact_key: -1,
        contact_count: 0,
        head_shape_id: -1,
        shape_count: 0,
        head_chain_id: -1,
        head_joint_key: -1,
        joint_count: 0,
        island_id: -1,
        island_index: -1,
        mass: b(2.0),
        inertia: b(0.5),
        sleep_threshold: b(0.05),
        sleep_time: 0,
        body_move_index: -1,
        id,
        flags: 0,
        type_: BodyType::Dynamic,
        generation: 1,
        name: String::from(name),
    }
}

fn empty_set(set_index: i32) -> SolverSet {
    SolverSet { set_index, body_sims: vec![], body_states: vec![], joint_sims: vec![], contact_sims: vec![], island_sims: vec![] }
}

fn config() -> WorldConfig {
    WorldConfig {
        gravity: v2(0.0, -10.0),
        hit_event_threshold: b(1.0),
        restitution_threshold: b(1.0),
        max_linear_speed: b(400.0),
        contact_speed: b(3.0),
        contact_hertz: b(30.0),
        contact_damping_ratio: b(10.0),
        contact_recycle_distance: b(0.1),
        step_index: 77,
        split_island_id: -1,
        inv_h: b(240.0),
        inv_dt: b(60.0),
        end_event_array_index: 1,
        max_capacity: Capacity {
            static_shape_count: 8,
            dynamic_shape_count: 16,
            static_body_count: 4,
            dynamic_body_count: 12,
            contact_count: 64,
        },
        enable_sleep: true,
        enable_warm_starting: true,
        enable_contact_softening: false,
        enable_continuous: true,
        enable_speculative: true,
    }
}

fn tree() -> DynamicTree {
    DynamicTree { root: -1, node_count: 0, free_list: -1, proxy_count: 0, nodes: vec![] }
}

fn pool(free: Vec<i32>, next_index: i32) -> IdPool {
    IdPool { free_array: free, next_index }
}

/// A blank world of the given id: empty tables, three trees, 24 colors.
fn blank(world_id: u16) -> World {
    World {
        world_id,
        generation: 1,
        locked: false,
        recording: None,
        bodies: vec![],
        shapes: vec![],
        chain_shapes: vec![],
        joints: vec![],
        sensors: vec![],
        solver_sets: vec![],
        graph_colors: (0..24).map(|_| GraphColor { body_set: BitSet::new(0), contact_sims: vec![], joint_sims: vec![] }).collect(),
        config: WorldConfig { step_index: 0, ..config() },
        body_id_pool: IdPool::new(),
        shape_id_pool: IdPool::new(),
        chain_id_pool: IdPool::new(),
        contact_id_pool: IdPool::new(),
        joint_id_pool: IdPool::new(),
        island_id_pool: IdPool::new(),
        solver_set_id_pool: IdPool::new(),
        contacts: vec![],
        islands: vec![],
        broad_phase: BroadPhase {
            trees: vec![tree(), tree(), tree()],
            moved_proxies: vec![BitSet::new(64), BitSet::new(64), BitSet::new(64)],
            move_array: vec![],
            pair_set: HashSet::new(16),
        },
    }
}

/// Two bodies, one sleeping in set 3 and one awake, a contact in the
/// awake set, an island, a few free ids and moved proxies.
fn scene() -> World {
    let mut w = blank(1);
    w.bodies = vec![body(0, 3, 0, "ground"), body(1, 2, 0, "ball"), body(-1, 0, 0, "")];
    let mut awake = empty_set(2);
    awake.body_sims = vec![body_sim(1)];
    awake.body_states = vec![body_state()];
    awake.contact_sims = vec![contact_sim()];
    awake.island_sims = vec![IslandSim { island_id: 0 }];
    let mut asleep = empty_set(3);
    asleep.body_sims = vec![body_sim(0)];
    w.solver_sets = vec![empty_set(0), empty_set(1), awake, asleep];
    let e = |k: i32| ContactEdge { body_id: k, prev_key: -1, next_key: -1 };
    w.contacts = vec![Contact {
        edges: [e(0), e(1)],
        island_id: 0,
        island_index: 0,
        set_index: 2,
        color_index: -1,
        local_index: 0,
        shape_id_a: 3,
        shape_id_b: 5,
        contact_id: 0,
        flags: 0x1,
        generation: 4,
    }];
    w.islands = vec![Island {
        set_index: 2,
        local_index: 0,
        island_id: 0,
        constraint_remove_count: 0,
        bodies: vec![1],
        contacts: vec![ContactLink { contact_id: 0, body_id_a: 0, body_id_b: 1 }],
        joints: vec![JointLink { joint_id: -1, body_id_a: 0, body_id_b: 1 }],
    }];
    w.config = config();
    w.body_id_pool = pool(vec![2], 3);
    w.contact_id_pool = pool(vec![], 1);
    w.island_id_pool = pool(vec![], 1);
    w.solver_set_id_pool = pool(vec![], 4);
    w.broad_phase.moved_proxies[2].blocks[0] = 0b101;
    w.broad_phase.move_array = vec![4, 9];
    w.broad_phase.pair_set.items[3] = 0x0000_0003_0000_0009;
    w.broad_phase.pair_set.count = 1;
    w
}

#[test]
fn a_restored_world_writes_the_same_image() {
    let w = scene();
    let image = world_snapshot(&w);
    let mut restored = blank(5);
    assert!(world_restore(&mut restored, &image));
    assert_eq!(restored.world_id, 5);
    assert_eq!(restored.bodies.len(), 3);
    assert_eq!(restored.bodies[1].name, "ball");
    assert_eq!(restored.solver_sets[2].body_states, vec![body_state()]);
    assert_eq!(restored.broad_phase.move_array, vec![4, 9]);
    assert_eq!(restored.config.step_index, 77);
    assert_eq!(world_snapshot(&restored), image);
    assert_eq!(hash_world_state(&restored), hash_world_state(&w));
    assert_eq!(hash_world_state_deep(&restored), hash_world_state_deep(&w));
}

#[test]
fn serialize_world_appends_to_what_is_there() {
    let w = scene();
    let mut buf = vec![0xAA, 0xBB];
    serialize_world(&w, &mut buf);
    assert_eq!(&buf[..2], &[0xAA, 0xBB]);
    assert_eq!(buf[2..].to_vec(), world_snapshot(&w));
}

#[test]
fn a_cut_image_leaves_the_world_as_it_was() {
    let image = world_snapshot(&scene());
    let mut target = blank(7);
    target.config.step_index = 5;
    let before = world_snapshot(&target);
    for cut in [0, 10, image.len() / 2, image.len() - 1] {
        assert!(!world_restore(&mut target, &image[..cut]));
        assert_eq!(world_snapshot(&target), before);
    }
}

#[test]
fn a_foreign_header_is_refused() {
    let mut image = world_snapshot(&scene());
    image[0] ^= 0xFF;
    let mut target = blank(7);
    assert!(!world_restore(&mut target, &image));
    assert_eq!(target.bodies.len(), 0);
}

#[test]
fn a_count_past_the_data_is_refused() {
    let mut image = world_snapshot(&blank(1));
    let tables_at = 16 + 81 + 7 * 8;
    image[tables_at..tables_at + 4].copy_from_slice(&1_000_000i32.to_le_bytes());
    let mut target = blank(2);
    assert!(!world_restore(&mut target, &image));
}

#[test]
fn state_hash_mixes_live_bodies_only() {
    assert_eq!(hash_world_state(&blank(1)), SNAP_FNV_INIT);
    let w = scene();
    let mut h = SNAP_FNV_INIT;
    // slot 0: asleep in set 3
    let s0 = body_sim(0);
    h = fnv_mix_position(h, s0.transform.p);
    h = fnv_mix_float(h, s0.transform.q.c);
    h = fnv_mix_float(h, s0.transform.q.s);
    // slot 1: awake
    let s1 = body_sim(1);
    h = fnv_mix_position(h, s1.transform.p);
    h = fnv_mix_float(h, s1.transform.q.c);
    h = fnv_mix_float(h, s1.transform.q.s);
    let v = body_state();
    h = fnv_mix_float(h, v.linear_velocity.x);
    h = fnv_mix_float(h, v.linear_velocity.y);
    h = fnv_mix_float(h, v.angular_velocity);
    assert_eq!(hash_world_state(&w), h);
}

#[test]
fn deep_hash_adds_bookkeeping_impulses_and_pools() {
    let w = scene();
    let mut h = SNAP_FNV_INIT;
    for (k, set_index) in [(0, 3), (1, 2)] {
        let s = body_sim(k);
        h = fnv_mix_position(h, s.transform.p);
        h = fnv_mix_float(h, s.transform.q.c);
        h = fnv_mix_float(h, s.transform.q.s);
        if set_index == 2 {
            let v = body_state();
            h = fnv_mix_float(h, v.linear_velocity.x);
            h = fnv_mix_float(h, v.linear_velocity.y);
            h = fnv_mix_float(h, v.angular_velocity);
        }
        h = fnv_mix_int(h, set_index);
        h = fnv_mix_int(h, 0);
    }
    h = fnv_mix_int(h, 2);
    h = fnv_mix_int(h, -1);
    h = fnv_mix_int(h, 0);
    h = fnv_mix_int(h, 1);
    let p = manifold_point(7);
    h = fnv_mix_float(h, p.normal_impulse);
    h = fnv_mix_float(h, p.tangent_impulse);
    h = fnv_mix_float(h, p.total_normal_impulse);
    for (next, count) in [(3, 2), (0, 0), (0, 0), (1, 1), (0, 0), (1, 1), (4, 4)] {
        h = fnv_mix_int(h, next);
        h = fnv_mix_int(h, count);
    }
    h = fnv_mix_int(h, 4);
    assert_eq!(hash_world_state_deep(&w), h);
    assert_ne!(hash_world_state_deep(&w), hash_world_state(&w));
}

fn recording_of(image: &[u8], magic: u32) -> Vec<u8> {
    let header = RecHeader {
        magic,
        version_major: REC_VERSION_MAJOR,
        version_minor: REC_VERSION_MINOR,
        length_scale: b(1.0),
        pointer_width: 8,
        big_endian: 0,
        validation_enabled: 0,
        snapshot_size: image.len() as u64,
    };
    let mut data = Vec::new();
    header.write(&mut data);
    data.extend_from_slice(image);
    data.extend_from_slice(&[0xFF, 0, 0, 0]);
    data
}

#[test]
fn a_replay_is_seeded_from_the_image_after_the_header() {
    let image = world_snapshot(&scene());
    let data = recording_of(&image, REC_MAGIC);
    let mut world = blank(3);
    assert_eq!(replay_seed(&mut world, &data), Some(32 + image.len()));
    assert_eq!(world_snapshot(&world), image);
    assert_eq!(world.world_id, 3);
}

#[test]
fn a_replay_with_a_foreign_or_short_header_is_not_seeded() {
    let image = world_snapshot(&scene());
    let mut world = blank(3);
    assert_eq!(replay_seed(&mut world, &recording_of(&image, 0x1234)), None);
    assert_eq!(replay_seed(&mut world, &recording_of(&image, REC_MAGIC)[..20]), None);
    let mut cut = recording_of(&image, REC_MAGIC);
    cut.truncate(32 + image.len() - 1);
    assert_eq!(replay_seed(&mut world, &cut), None);
    assert_eq!(world.bodies.len(), 0);
}
