use vstd::prelude::*;
use crate::containers::count_fits;
use crate::geometry::{Aabb, Vec2};
use crate::recording::decode::{
    aabb_read, i32_read, law_aabb_round_trip, law_vec2_round_trip, lemma_i32_read_back, lemma_split,
    lemma_u32_read_back, lemma_u64_read_back, r_aabb, r_vec2, read_i32, read_u32, read_u64, u16_read, u32_read,
    u64_read_at, u8_read, vec2_read,
};
use crate::snapshot::SnapReader;
use crate::write::{
    aabb_bytes, i32_bytes, le_bytes, lemma_le_round_trip, pow256, rec_w_aabb, rec_w_i32, rec_w_u16, rec_w_u32,
    rec_w_u64, rec_w_u8, rec_w_vec2, u16_bytes, u32_bytes, u64_bytes, vec2_bytes,
};

verus! {

broadcast use crate::write::lemma_le_bytes_len;

// Images of a world's broad-phase trees and of its scalar configuration.

fn read_u16(r: &mut SnapReader) -> (v: u16)
    ensures
        final(r).data@ == old(r).data@,
        (v, (final(r).ok, final(r).cursor as int)) == u16_read(old(r).data@, old(r).ok, old(r).cursor as int),
{
    r.r_u16()
}

fn read_u8(r: &mut SnapReader) -> (v: u8)
    ensures
        final(r).data@ == old(r).data@,
        (v, (final(r).ok, final(r).cursor as int)) == u8_read(old(r).data@, old(r).ok, old(r).cursor as int),
{
    r.r_u8()
}

proof fn lemma_u16_read_back(v: u16, d: Seq<u8>, c: int)
    requires
        0 <= c,
        c + 2 <= d.len(),
        d.subrange(c, c + 2) == u16_bytes(v),
    ensures
        u16_read(d, true, c) == (v, (true, c + 2)),
{
    reveal_with_fuel(pow256, 3);
    lemma_le_round_trip(v as nat, 2);
}

/// A node of a dynamic tree: its box, category bits, children, user data, parent or free-list link, height and flags.
#[derive(Clone, Copy, Debug, PartialEq, Eq, Structural)]
pub struct TreeNode {
    pub aabb: Aabb,
    pub category_bits: u64,
    pub child1: i32,
    pub child2: i32,
    pub user_data: u64,
    pub parent: i32,
    pub next: i32,
    pub height: u16,
    pub flags: u16,
}

/// Image form of a tree node: its fields in order, 52 bytes.
pub open spec fn tree_node_image(v: TreeNode) -> Seq<u8> {
    aabb_bytes(v.aabb) + u64_bytes(v.category_bits) + i32_bytes(v.child1) + i32_bytes(v.child2) + u64_bytes(v.user_data) + i32_bytes(v.parent) + i32_bytes(v.next) + u16_bytes(v.height) + u16_bytes(v.flags)
}

/// A tree node read at `(ok, c)`, its fields in order.
pub open spec fn tree_node_read(d: Seq<u8>, ok: bool, c: int) -> (TreeNode, (bool, int)) {
    let (x0, s1) = aabb_read(d, ok, c);
    let (x1, s2) = u64_read_at(d, s1.0, s1.1);
    let (x2, s3) = i32_read(d, s2.0, s2.1);
    let (x3, s4) = i32_read(d, s3.0, s3.1);
    let (x4, s5) = u64_read_at(d, s4.0, s4.1);
    let (x5, s6) = i32_read(d, s5.0, s5.1);
    let (x6, s7) = i32_read(d, s6.0, s6.1);
    let (x7, s8) = u16_read(d, s7.0, s7.1);
    let (x8, s9) = u16_read(d, s8.0, s8.1);
    (TreeNode { aabb: x0, category_bits: x1, child1: x2, child2: x3, user_data: x4, parent: x5, next: x6, height: x7, flags: x8 }, s9)
}

/// Append the image of a tree node.
pub fn ser_tree_node(buf: &mut Vec<u8>, v: &TreeNode)
    ensures
        final(buf)@ == old(buf)@ + tree_node_image(*v),
{
    ser_tree_node_into(buf, *v);
}

fn ser_tree_node_into(buf: &mut Vec<u8>, v: TreeNode)
    ensures
        final(buf)@ == old(buf)@ + tree_node_image(v),
{
    rec_w_aabb(buf, v.aabb);
    rec_w_u64(buf, v.category_bits);
    rec_w_i32(buf, v.child1);
    rec_w_i32(buf, v.child2);
    rec_w_u64(buf, v.user_data);
    rec_w_i32(buf, v.parent);
    rec_w_i32(buf, v.next);
    rec_w_u16(buf, v.height);
    rec_w_u16(buf, v.flags);
    assert(buf@ =~= old(buf)@ + tree_node_image(v));
}

/// Read a tree node from its image.
pub fn des_tree_node(r: &mut SnapReader) -> (v: TreeNode)
    ensures
        final(r).data@ == old(r).data@,
        (v, (final(r).ok, final(r).cursor as int)) == tree_node_read(old(r).data@, old(r).ok, old(r).cursor as int),
{
    let x0 = r_aabb(r);
    let x1 = read_u64(r);
    let x2 = read_i32(r);
    let x3 = read_i32(r);
    let x4 = read_u64(r);
    let x5 = read_i32(r);
    let x6 = read_i32(r);
    let x7 = read_u16(r);
    let x8 = read_u16(r);
    TreeNode { aabb: x0, category_bits: x1, child1: x2, child2: x3, user_data: x4, parent: x5, next: x6, height: x7, flags: x8 }
}

/// A tree node reads back unchanged from its image.
#[verifier::spinoff_prover]
pub proof fn law_tree_node_round_trip(v: TreeNode, d: Seq<u8>, c: int)
    requires
        0 <= c,
        c + 52 <= d.len(),
        d.subrange(c, c + 52) == tree_node_image(v),
    ensures
        tree_node_read(d, true, c) == (v, (true, c + 52)),
{
    lemma_split(d, c, aabb_bytes(v.aabb) + u64_bytes(v.category_bits) + i32_bytes(v.child1) + i32_bytes(v.child2) + u64_bytes(v.user_data) + i32_bytes(v.parent) + i32_bytes(v.next) + u16_bytes(v.height), u16_bytes(v.flags));
    lemma_split(d, c, aabb_bytes(v.aabb) + u64_bytes(v.category_bits) + i32_bytes(v.child1) + i32_bytes(v.child2) + u64_bytes(v.user_data) + i32_bytes(v.parent) + i32_bytes(v.next), u16_bytes(v.height));
    lemma_split(d, c, aabb_bytes(v.aabb) + u64_bytes(v.category_bits) + i32_bytes(v.child1) + i32_bytes(v.child2) + u64_bytes(v.user_data) + i32_bytes(v.parent), i32_bytes(v.next));
    lemma_split(d, c, aabb_bytes(v.aabb) + u64_bytes(v.category_bits) + i32_bytes(v.child1) + i32_bytes(v.child2) + u64_bytes(v.user_data), i32_bytes(v.parent));
    lemma_split(d, c, aabb_bytes(v.aabb) + u64_bytes(v.category_bits) + i32_bytes(v.child1) + i32_bytes(v.child2), u64_bytes(v.user_data));
    lemma_split(d, c, aabb_bytes(v.aabb) + u64_bytes(v.category_bits) + i32_bytes(v.child1), i32_bytes(v.child2));
    lemma_split(d, c, aabb_bytes(v.aabb) + u64_bytes(v.category_bits), i32_bytes(v.child1));
    lemma_split(d, c, aabb_bytes(v.aabb), u64_bytes(v.category_bits));
    law_aabb_round_trip(v.aabb, d, c + 0);
    lemma_u64_read_back(v.category_bits, d, c + 16);
    lemma_i32_read_back(v.child1, d, c + 24);
    lemma_i32_read_back(v.child2, d, c + 28);
    lemma_u64_read_back(v.user_data, d, c + 32);
    lemma_i32_read_back(v.parent, d, c + 40);
    lemma_i32_read_back(v.next, d, c + 44);
    lemma_u16_read_back(v.height, d, c + 48);
    lemma_u16_read_back(v.flags, d, c + 50);
}

/// `n` tree nodes read in turn from `(ok, c)`.
pub open spec fn tree_node_run_read(d: Seq<u8>, ok: bool, c: int, n: nat) -> (Seq<TreeNode>, (bool, int))
    decreases n,
{
    if n == 0 {
        (Seq::empty(), (ok, c))
    } else {
        let (prev, s) = tree_node_run_read(d, ok, c, (n - 1) as nat);
        let (x, s2) = tree_node_read(d, s.0, s.1);
        (prev.push(x), s2)
    }
}

/// Images of tree nodes, one after the other.
pub open spec fn tree_node_run_image(s: Seq<TreeNode>) -> Seq<u8>
    decreases s.len(),
{
    if s.len() == 0 {
        Seq::empty()
    } else {
        tree_node_run_image(s.drop_last()) + tree_node_image(s.last())
    }
}

/// Read `n` tree nodes in turn.
pub fn read_tree_node_run(r: &mut SnapReader, n: usize) -> (v: Vec<TreeNode>)
    ensures
        final(r).data@ == old(r).data@,
        (v@, (final(r).ok, final(r).cursor as int)) == tree_node_run_read(old(r).data@, old(r).ok, old(r).cursor as int, n as nat),
{
    let ghost d = old(r).data@;
    let ghost s0 = (old(r).ok, old(r).cursor as int);
    let mut v: Vec<TreeNode> = Vec::new();
    let mut i: usize = 0;
    while i < n
        invariant
            0 <= i <= n,
            r.data@ == d,
            (v@, (r.ok, r.cursor as int)) == tree_node_run_read(d, s0.0, s0.1, i as nat),
        decreases n - i,
    {
        let x = des_tree_node(r);
        v.push(x);
        i = i + 1;
    }
    v
}

/// Append the images of tree nodes, in order.
pub fn ser_tree_node_run(buf: &mut Vec<u8>, v: &Vec<TreeNode>)
    ensures
        final(buf)@ == old(buf)@ + tree_node_run_image(v@),
{
    let mut i: usize = 0;
    while i < v.len()
        invariant
            0 <= i <= v@.len(),
            buf@ == old(buf)@ + tree_node_run_image(v@.take(i as int)),
        decreases v@.len() - i,
    {
        ser_tree_node(buf, &v[i]);
        i = i + 1;
        assert(v@.take(i as int).drop_last() =~= v@.take(i - 1));
        assert(buf@ =~= old(buf)@ + tree_node_run_image(v@.take(i as int)));
    }
    assert(v@.take(v@.len() as int) =~= v@);
}

/// A run of tree nodes reads back from its images.
#[verifier::spinoff_prover]
#[verifier::rlimit(40)]
pub proof fn law_tree_node_run_round_trip(s: Seq<TreeNode>, d: Seq<u8>, c: int)
    requires
        0 <= c,
        c + tree_node_run_image(s).len() <= d.len(),
        d.subrange(c, c + tree_node_run_image(s).len()) == tree_node_run_image(s),
    ensures
        tree_node_run_read(d, true, c, s.len()) == (s, (true, c + tree_node_run_image(s).len())),
    decreases s.len(),
{
    if s.len() > 0 {
        let prev = s.drop_last();
        let p = tree_node_run_image(prev);
        assert(tree_node_image(s.last()).len() == 52);
        lemma_split(d, c, p, tree_node_image(s.last()));
        law_tree_node_run_round_trip(prev, d, c);
        law_tree_node_round_trip(s.last(), d, c + p.len());
        assert(prev.push(s.last()) =~= s);
    }
}

/// A dynamic tree as a snapshot keeps it: root, node count, free list,
/// proxy count and the node pool. (The scratch of a rebuild is rebuilt on
/// demand and not kept.)
#[derive(Debug)]
pub struct DynamicTree {
    pub root: i32,
    pub node_count: i32,
    pub free_list: i32,
    pub proxy_count: i32,
    pub nodes: Vec<TreeNode>,
}

/// A dynamic tree as the contracts see it.
pub struct DynamicTreeView {
    pub root: i32,
    pub node_count: i32,
    pub free_list: i32,
    pub proxy_count: i32,
    pub nodes: Seq<TreeNode>,
}

impl View for DynamicTree {
    type V = DynamicTreeView;

    open spec fn view(&self) -> DynamicTreeView {
        DynamicTreeView {
            root: self.root,
            node_count: self.node_count,
            free_list: self.free_list,
            proxy_count: self.proxy_count,
            nodes: self.nodes@,
        }
    }
}

/// Image form of a tree: root, node count, free list, proxy count, then
/// the node pool behind its size.
pub open spec fn tree_image(t: DynamicTreeView) -> Seq<u8> {
    i32_bytes(t.root) + i32_bytes(t.node_count) + i32_bytes(t.free_list) + i32_bytes(t.proxy_count) + i32_bytes(
        t.nodes.len() as i32,
    ) + tree_node_run_image(t.nodes)
}

/// A tree read at `(ok, c)`, or `None` when the node pool's size fails the
/// guard (at least 48 bytes a node); the reader is then bad.
pub open spec fn tree_read(d: Seq<u8>, ok: bool, c: int) -> (Option<DynamicTreeView>, (bool, int)) {
    let (root, s1) = i32_read(d, ok, c);
    let (node_count, s2) = i32_read(d, s1.0, s1.1);
    let (free_list, s3) = i32_read(d, s2.0, s2.1);
    let (proxy_count, s4) = i32_read(d, s3.0, s3.1);
    let (n, s5) = i32_read(d, s4.0, s4.1);
    if !count_fits(d, s5.0, s5.1, 0, n, 48) {
        (None, (false, s5.1))
    } else {
        let (nodes, s6) = tree_node_run_read(d, s5.0, s5.1, n as nat);
        (Some(DynamicTreeView { root, node_count, free_list, proxy_count, nodes }), s6)
    }
}

/// Append a tree's image. The node pool must be countable in an `i32`.
pub fn ser_tree(buf: &mut Vec<u8>, tree: &DynamicTree)
    requires
        tree.nodes@.len() <= i32::MAX,
    ensures
        final(buf)@ == old(buf)@ + tree_image(tree@),
{
    rec_w_i32(buf, tree.root);
    rec_w_i32(buf, tree.node_count);
    rec_w_i32(buf, tree.free_list);
    rec_w_i32(buf, tree.proxy_count);
    rec_w_i32(buf, tree.nodes.len() as i32);
    ser_tree_node_run(buf, &tree.nodes);
    assert(buf@ =~= old(buf)@ + tree_image(tree@));
}

/// Read a tree from its image; `None` when its node pool's size fails the
/// guard, which makes the image unusable.
pub fn des_tree(r: &mut SnapReader) -> (t: Option<DynamicTree>)
    ensures
        final(r).data@ == old(r).data@,
        (match t {
            Some(x) => Some(x@),
            None => None,
        }, (final(r).ok, final(r).cursor as int)) == tree_read(old(r).data@, old(r).ok, old(r).cursor as int),
{
    let root = read_i32(r);
    let node_count = read_i32(r);
    let free_list = read_i32(r);
    let proxy_count = read_i32(r);
    let n = read_i32(r);
    if !r.check_count(n, 48) {
        return None;
    }
    let nodes = read_tree_node_run(r, n as usize);
    Some(DynamicTree { root, node_count, free_list, proxy_count, nodes })
}

/// A tree reads back from its image.
#[verifier::spinoff_prover]
#[verifier::rlimit(30)]
pub proof fn law_tree_round_trip(t: DynamicTreeView, d: Seq<u8>, c: int)
    requires
        t.nodes.len() <= i32::MAX,
        0 <= c,
        c + tree_image(t).len() <= d.len(),
        d.subrange(c, c + tree_image(t).len()) == tree_image(t),
    ensures
        tree_read(d, true, c) == (Some(t), (true, c + tree_image(t).len())),
{
    let n = t.nodes.len();
    lemma_tree_node_run_len(t.nodes);
    let h = i32_bytes(t.root) + i32_bytes(t.node_count) + i32_bytes(t.free_list) + i32_bytes(t.proxy_count);
    lemma_split(d, c, h + i32_bytes(n as i32), tree_node_run_image(t.nodes));
    lemma_split(d, c, h, i32_bytes(n as i32));
    lemma_split(d, c, i32_bytes(t.root) + i32_bytes(t.node_count) + i32_bytes(t.free_list), i32_bytes(t.proxy_count));
    lemma_split(d, c, i32_bytes(t.root) + i32_bytes(t.node_count), i32_bytes(t.free_list));
    lemma_split(d, c, i32_bytes(t.root), i32_bytes(t.node_count));
    lemma_i32_read_back(t.root, d, c);
    lemma_i32_read_back(t.node_count, d, c + 4);
    lemma_i32_read_back(t.free_list, d, c + 8);
    lemma_i32_read_back(t.proxy_count, d, c + 12);
    lemma_i32_read_back(n as i32, d, c + 16);
    assert((n as i32) as nat == n);
    law_tree_node_run_round_trip(t.nodes, d, c + 20);
}

/// A run of tree nodes takes 52 bytes a node.
proof fn lemma_tree_node_run_len(s: Seq<TreeNode>)
    ensures
        tree_node_run_image(s).len() == 52 * s.len(),
    decreases s.len(),
{
    if s.len() > 0 {
        lemma_tree_node_run_len(s.drop_last());
        assert(tree_node_image(s.last()).len() == 52);
    }
}

/// The limits a world was sized for.
#[derive(Clone, Copy, Debug, PartialEq, Eq, Structural)]
pub struct Capacity {
    pub static_shape_count: i32,
    pub dynamic_shape_count: i32,
    pub static_body_count: i32,
    pub dynamic_body_count: i32,
    pub contact_count: i32,
}

/// A world's simulation settings: gravity, thresholds, contact tuning, the
/// step counter and scaling, the end-event parity, the capacity it was
/// sized for, and five switches. Host wiring (callbacks, user data) is not
/// part of it. Real values are IEEE-754 single precision bit patterns.
#[derive(Clone, Copy, Debug, PartialEq, Eq, Structural)]
pub struct WorldConfig {
    pub gravity: Vec2,
    pub hit_event_threshold: u32,
    pub restitution_threshold: u32,
    pub max_linear_speed: u32,
    pub contact_speed: u32,
    pub contact_hertz: u32,
    pub contact_damping_ratio: u32,
    pub contact_recycle_distance: u32,
    pub step_index: u64,
    pub split_island_id: i32,
    pub inv_h: u32,
    pub inv_dt: u32,
    pub end_event_array_index: i32,
    pub max_capacity: Capacity,
    pub enable_sleep: bool,
    pub enable_warm_starting: bool,
    pub enable_contact_softening: bool,
    pub enable_continuous: bool,
    pub enable_speculative: bool,
}

/// The switch byte of a configuration: sleep 0x01, warm starting 0x02,
/// contact softening 0x04, continuous 0x08, speculative 0x10.
pub open spec fn config_flags(w: WorldConfig) -> u8 {
    ((if w.enable_sleep { 1u8 } else { 0u8 }) | (if w.enable_warm_starting { 2u8 } else { 0u8 }) | (
    if w.enable_contact_softening { 4u8 } else { 0u8 }) | (if w.enable_continuous { 8u8 } else { 0u8 }) | (
    if w.enable_speculative { 16u8 } else { 0u8 })) as u8
}

/// Image form of a configuration: its fields in order, the switches packed
/// into one byte; 81 bytes.
pub open spec fn world_config_image(w: WorldConfig) -> Seq<u8> {
    vec2_bytes(w.gravity) + u32_bytes(w.hit_event_threshold) + u32_bytes(w.restitution_threshold) + u32_bytes(
        w.max_linear_speed,
    ) + u32_bytes(w.contact_speed) + u32_bytes(w.contact_hertz) + u32_bytes(w.contact_damping_ratio) + u32_bytes(
        w.contact_recycle_distance,
    ) + u64_bytes(w.step_index) + i32_bytes(w.split_island_id) + u32_bytes(w.inv_h) + u32_bytes(w.inv_dt)
        + i32_bytes(w.end_event_array_index) + i32_bytes(w.max_capacity.static_shape_count) + i32_bytes(
        w.max_capacity.dynamic_shape_count,
    ) + i32_bytes(w.max_capacity.static_body_count) + i32_bytes(w.max_capacity.dynamic_body_count) + i32_bytes(
        w.max_capacity.contact_count,
    ) + seq![config_flags(w)]
}

/// A configuration read at `(ok, c)`, its fields in order, each switch the
/// bit of the last byte that it owns.
pub open spec fn world_config_read(d: Seq<u8>, ok: bool, c: int) -> (WorldConfig, (bool, int)) {
    let (gravity, s1) = vec2_read(d, ok, c);
    let (hit_event_threshold, s2) = u32_read(d, s1.0, s1.1);
    let (restitution_threshold, s3) = u32_read(d, s2.0, s2.1);
    let (max_linear_speed, s4) = u32_read(d, s3.0, s3.1);
    let (contact_speed, s5) = u32_read(d, s4.0, s4.1);
    let (contact_hertz, s6) = u32_read(d, s5.0, s5.1);
    let (contact_damping_ratio, s7) = u32_read(d, s6.0, s6.1);
    let (contact_recycle_distance, s8) = u32_read(d, s7.0, s7.1);
    let (step_index, s9) = u64_read_at(d, s8.0, s8.1);
    let (split_island_id, s10) = i32_read(d, s9.0, s9.1);
    let (inv_h, s11) = u32_read(d, s10.0, s10.1);
    let (inv_dt, s12) = u32_read(d, s11.0, s11.1);
    let (end_event_array_index, s13) = i32_read(d, s12.0, s12.1);
    let (a, s14) = i32_read(d, s13.0, s13.1);
    let (b, s15) = i32_read(d, s14.0, s14.1);
    let (e, s16) = i32_read(d, s15.0, s15.1);
    let (f, s17) = i32_read(d, s16.0, s16.1);
    let (g, s18) = i32_read(d, s17.0, s17.1);
    let (flags, s19) = u8_read(d, s18.0, s18.1);
    (WorldConfig {
        gravity,
        hit_event_threshold,
        restitution_threshold,
        max_linear_speed,
        contact_speed,
        contact_hertz,
        contact_damping_ratio,
        contact_recycle_distance,
        step_index,
        split_island_id,
        inv_h,
        inv_dt,
        end_event_array_index,
        max_capacity: Capacity {
            static_shape_count: a,
            dynamic_shape_count: b,
            static_body_count: e,
            dynamic_body_count: f,
            contact_count: g,
        },
        enable_sleep: flags & 1 != 0,
        enable_warm_starting: flags & 2 != 0,
        enable_contact_softening: flags & 4 != 0,
        enable_continuous: flags & 8 != 0,
        enable_speculative: flags & 16 != 0,
    }, s19)
}

/// Append a configuration's image.
pub fn ser_world_config(buf: &mut Vec<u8>, w: &WorldConfig)
    ensures
        final(buf)@ == old(buf)@ + world_config_image(*w),
{
    rec_w_vec2(buf, w.gravity);
    rec_w_u32(buf, w.hit_event_threshold);
    rec_w_u32(buf, w.restitution_threshold);
    rec_w_u32(buf, w.max_linear_speed);
    rec_w_u32(buf, w.contact_speed);
    rec_w_u32(buf, w.contact_hertz);
    rec_w_u32(buf, w.contact_damping_ratio);
    rec_w_u32(buf, w.contact_recycle_distance);
    rec_w_u64(buf, w.step_index);
    rec_w_i32(buf, w.split_island_id);
    rec_w_u32(buf, w.inv_h);
    rec_w_u32(buf, w.inv_dt);
    rec_w_i32(buf, w.end_event_array_index);
    rec_w_i32(buf, w.max_capacity.static_shape_count);
    rec_w_i32(buf, w.max_capacity.dynamic_shape_count);
    rec_w_i32(buf, w.max_capacity.static_body_count);
    rec_w_i32(buf, w.max_capacity.dynamic_body_count);
    rec_w_i32(buf, w.max_capacity.contact_count);
    let flags: u8 = (if w.enable_sleep { 1u8 } else { 0u8 }) | (if w.enable_warm_starting { 2u8 } else { 0u8 }) | (
    if w.enable_contact_softening { 4u8 } else { 0u8 }) | (if w.enable_continuous { 8u8 } else { 0u8 }) | (
    if w.enable_speculative { 16u8 } else { 0u8 });
    rec_w_u8(buf, flags);
    assert(buf@ =~= old(buf)@ + world_config_image(*w));
}

/// Read a configuration from its image.
pub fn des_world_config(r: &mut SnapReader) -> (w: WorldConfig)
    ensures
        final(r).data@ == old(r).data@,
        (w, (final(r).ok, final(r).cursor as int)) == world_config_read(old(r).data@, old(r).ok, old(r).cursor as int),
{
    let gravity = r_vec2(r);
    let hit_event_threshold = read_u32(r);
    let restitution_threshold = read_u32(r);
    let max_linear_speed = read_u32(r);
    let contact_speed = read_u32(r);
    let contact_hertz = read_u32(r);
    let contact_damping_ratio = read_u32(r);
    let contact_recycle_distance = read_u32(r);
    let step_index = read_u64(r);
    let split_island_id = read_i32(r);
    let inv_h = read_u32(r);
    let inv_dt = read_u32(r);
    let end_event_array_index = read_i32(r);
    let a = read_i32(r);
    let b = read_i32(r);
    let e = read_i32(r);
    let f = read_i32(r);
    let g = read_i32(r);
    let flags = read_u8(r);
    WorldConfig {
        gravity,
        hit_event_threshold,
        restitution_threshold,
        max_linear_speed,
        contact_speed,
        contact_hertz,
        contact_damping_ratio,
        contact_recycle_distance,
        step_index,
        split_island_id,
        inv_h,
        inv_dt,
        end_event_array_index,
        max_capacity: Capacity {
            static_shape_count: a,
            dynamic_shape_count: b,
            static_body_count: e,
            dynamic_body_count: f,
            contact_count: g,
        },
        enable_sleep: flags & 1 != 0,
        enable_warm_starting: flags & 2 != 0,
        enable_contact_softening: flags & 4 != 0,
        enable_continuous: flags & 8 != 0,
        enable_speculative: flags & 16 != 0,
    }
}

/// Each switch comes back from the byte it was packed into.
proof fn lemma_config_flags(s: bool, w: bool, cs: bool, co: bool, sp: bool)
    ensures
        ({
            let x = ((if s { 1u8 } else { 0u8 }) | (if w { 2u8 } else { 0u8 }) | (if cs { 4u8 } else { 0u8 }) | (
            if co { 8u8 } else { 0u8 }) | (if sp { 16u8 } else { 0u8 })) as u8;
            &&& (x & 1 != 0) == s
            &&& (x & 2 != 0) == w
            &&& (x & 4 != 0) == cs
            &&& (x & 8 != 0) == co
            &&& (x & 16 != 0) == sp
        }),
{
    let a: u8 = if s { 1u8 } else { 0u8 };
    let b: u8 = if w { 2u8 } else { 0u8 };
    let e: u8 = if cs { 4u8 } else { 0u8 };
    let f: u8 = if co { 8u8 } else { 0u8 };
    let g: u8 = if sp { 16u8 } else { 0u8 };
    assert((a == 0 || a == 1) && (b == 0 || b == 2) && (e == 0 || e == 4) && (f == 0 || f == 8) && (g == 0 || g
        == 16) ==> {
        let x = a | b | e | f | g;
        &&& (x & 1 != 0) == (a == 1)
        &&& (x & 2 != 0) == (b == 2)
        &&& (x & 4 != 0) == (e == 4)
        &&& (x & 8 != 0) == (f == 8)
        &&& (x & 16 != 0) == (g == 16)
    }) by (bit_vector);
}

/// A configuration reads back from its image.
#[verifier::spinoff_prover]
#[verifier::rlimit(40)]
pub proof fn law_world_config_round_trip(w: WorldConfig, d: Seq<u8>, c: int)
    requires
        0 <= c,
        c + 81 <= d.len(),
        d.subrange(c, c + 81) == world_config_image(w),
    ensures
        world_config_read(d, true, c) == (w, (true, c + 81)),
{
    lemma_split(d, c, vec2_bytes(w.gravity) + u32_bytes(w.hit_event_threshold) + u32_bytes(w.restitution_threshold) + u32_bytes(w.max_linear_speed) + u32_bytes(w.contact_speed) + u32_bytes(w.contact_hertz) + u32_bytes(w.contact_damping_ratio) + u32_bytes(w.contact_recycle_distance) + u64_bytes(w.step_index) + i32_bytes(w.split_island_id) + u32_bytes(w.inv_h) + u32_bytes(w.inv_dt) + i32_bytes(w.end_event_array_index) + i32_bytes(w.max_capacity.static_shape_count) + i32_bytes(w.max_capacity.dynamic_shape_count) + i32_bytes(w.max_capacity.static_body_count) + i32_bytes(w.max_capacity.dynamic_body_count) + i32_bytes(w.max_capacity.contact_count), seq![config_flags(w)]);
    lemma_split(d, c, vec2_bytes(w.gravity) + u32_bytes(w.hit_event_threshold) + u32_bytes(w.restitution_threshold) + u32_bytes(w.max_linear_speed) + u32_bytes(w.contact_speed) + u32_bytes(w.contact_hertz) + u32_bytes(w.contact_damping_ratio) + u32_bytes(w.contact_recycle_distance) + u64_bytes(w.step_index) + i32_bytes(w.split_island_id) + u32_bytes(w.inv_h) + u32_bytes(w.inv_dt) + i32_bytes(w.end_event_array_index) + i32_bytes(w.max_capacity.static_shape_count) + i32_bytes(w.max_capacity.dynamic_shape_count) + i32_bytes(w.max_capacity.static_body_count) + i32_bytes(w.max_capacity.dynamic_body_count), i32_bytes(w.max_capacity.contact_count));
    lemma_split(d, c, vec2_bytes(w.gravity) + u32_bytes(w.hit_event_threshold) + u32_bytes(w.restitution_threshold) + u32_bytes(w.max_linear_speed) + u32_bytes(w.contact_speed) + u32_bytes(w.contact_hertz) + u32_bytes(w.contact_damping_ratio) + u32_bytes(w.contact_recycle_distance) + u64_bytes(w.step_index) + i32_bytes(w.split_island_id) + u32_bytes(w.inv_h) + u32_bytes(w.inv_dt) + i32_bytes(w.end_event_array_index) + i32_bytes(w.max_capacity.static_shape_count) + i32_bytes(w.max_capacity.dynamic_shape_count) + i32_bytes(w.max_capacity.static_body_count), i32_bytes(w.max_capacity.dynamic_body_count));
    lemma_split(d, c, vec2_bytes(w.gravity) + u32_bytes(w.hit_event_threshold) + u32_bytes(w.restitution_threshold) + u32_bytes(w.max_linear_speed) + u32_bytes(w.contact_speed) + u32_bytes(w.contact_hertz) + u32_bytes(w.contact_damping_ratio) + u32_bytes(w.contact_recycle_distance) + u64_bytes(w.step_index) + i32_bytes(w.split_island_id) + u32_bytes(w.inv_h) + u32_bytes(w.inv_dt) + i32_bytes(w.end_event_array_index) + i32_bytes(w.max_capacity.static_shape_count) + i32_bytes(w.max_capacity.dynamic_shape_count), i32_bytes(w.max_capacity.static_body_count));
    lemma_split(d, c, vec2_bytes(w.gravity) + u32_bytes(w.hit_event_threshold) + u32_bytes(w.restitution_threshold) + u32_bytes(w.max_linear_speed) + u32_bytes(w.contact_speed) + u32_bytes(w.contact_hertz) + u32_bytes(w.contact_damping_ratio) + u32_bytes(w.contact_recycle_distance) + u64_bytes(w.step_index) + i32_bytes(w.split_island_id) + u32_bytes(w.inv_h) + u32_bytes(w.inv_dt) + i32_bytes(w.end_event_array_index) + i32_bytes(w.max_capacity.static_shape_count), i32_bytes(w.max_capacity.dynamic_shape_count));
    lemma_split(d, c, vec2_bytes(w.gravity) + u32_bytes(w.hit_event_threshold) + u32_bytes(w.restitution_threshold) + u32_bytes(w.max_linear_speed) + u32_bytes(w.contact_speed) + u32_bytes(w.contact_hertz) + u32_bytes(w.contact_damping_ratio) + u32_bytes(w.contact_recycle_distance) + u64_bytes(w.step_index) + i32_bytes(w.split_island_id) + u32_bytes(w.inv_h) + u32_bytes(w.inv_dt) + i32_bytes(w.end_event_array_index), i32_bytes(w.max_capacity.static_shape_count));
    lemma_split(d, c, vec2_bytes(w.gravity) + u32_bytes(w.hit_event_threshold) + u32_bytes(w.restitution_threshold) + u32_bytes(w.max_linear_speed) + u32_bytes(w.contact_speed) + u32_bytes(w.contact_hertz) + u32_bytes(w.contact_damping_ratio) + u32_bytes(w.contact_recycle_distance) + u64_bytes(w.step_index) + i32_bytes(w.split_island_id) + u32_bytes(w.inv_h) + u32_bytes(w.inv_dt), i32_bytes(w.end_event_array_index));
    lemma_split(d, c, vec2_bytes(w.gravity) + u32_bytes(w.hit_event_threshold) + u32_bytes(w.restitution_threshold) + u32_bytes(w.max_linear_speed) + u32_bytes(w.contact_speed) + u32_bytes(w.contact_hertz) + u32_bytes(w.contact_damping_ratio) + u32_bytes(w.contact_recycle_distance) + u64_bytes(w.step_index) + i32_bytes(w.split_island_id) + u32_bytes(w.inv_h), u32_bytes(w.inv_dt));
    lemma_split(d, c, vec2_bytes(w.gravity) + u32_bytes(w.hit_event_threshold) + u32_bytes(w.restitution_threshold) + u32_bytes(w.max_linear_speed) + u32_bytes(w.contact_speed) + u32_bytes(w.contact_hertz) + u32_bytes(w.contact_damping_ratio) + u32_bytes(w.contact_recycle_distance) + u64_bytes(w.step_index) + i32_bytes(w.split_island_id), u32_bytes(w.inv_h));
    lemma_split(d, c, vec2_bytes(w.gravity) + u32_bytes(w.hit_event_threshold) + u32_bytes(w.restitution_threshold) + u32_bytes(w.max_linear_speed) + u32_bytes(w.contact_speed) + u32_bytes(w.contact_hertz) + u32_bytes(w.contact_damping_ratio) + u32_bytes(w.contact_recycle_distance) + u64_bytes(w.step_index), i32_bytes(w.split_island_id));
    lemma_split(d, c, vec2_bytes(w.gravity) + u32_bytes(w.hit_event_threshold) + u32_bytes(w.restitution_threshold) + u32_bytes(w.max_linear_speed) + u32_bytes(w.contact_speed) + u32_bytes(w.contact_hertz) + u32_bytes(w.contact_damping_ratio) + u32_bytes(w.contact_recycle_distance), u64_bytes(w.step_index));
    lemma_split(d, c, vec2_bytes(w.gravity) + u32_bytes(w.hit_event_threshold) + u32_bytes(w.restitution_threshold) + u32_bytes(w.max_linear_speed) + u32_bytes(w.contact_speed) + u32_bytes(w.contact_hertz) + u32_bytes(w.contact_damping_ratio), u32_bytes(w.contact_recycle_distance));
    lemma_split(d, c, vec2_bytes(w.gravity) + u32_bytes(w.hit_event_threshold) + u32_bytes(w.restitution_threshold) + u32_bytes(w.max_linear_speed) + u32_bytes(w.contact_speed) + u32_bytes(w.contact_hertz), u32_bytes(w.contact_damping_ratio));
    lemma_split(d, c, vec2_bytes(w.gravity) + u32_bytes(w.hit_event_threshold) + u32_bytes(w.restitution_threshold) + u32_bytes(w.max_linear_speed) + u32_bytes(w.contact_speed), u32_bytes(w.contact_hertz));
    lemma_split(d, c, vec2_bytes(w.gravity) + u32_bytes(w.hit_event_threshold) + u32_bytes(w.restitution_threshold) + u32_bytes(w.max_linear_speed), u32_bytes(w.contact_speed));
    lemma_split(d, c, vec2_bytes(w.gravity) + u32_bytes(w.hit_event_threshold) + u32_bytes(w.restitution_threshold), u32_bytes(w.max_linear_speed));
    lemma_split(d, c, vec2_bytes(w.gravity) + u32_bytes(w.hit_event_threshold), u32_bytes(w.restitution_threshold));
    lemma_split(d, c, vec2_bytes(w.gravity), u32_bytes(w.hit_event_threshold));
    law_vec2_round_trip(w.gravity, d, c + 0);
    lemma_u32_read_back(w.hit_event_threshold, d, c + 8);
    lemma_u32_read_back(w.restitution_threshold, d, c + 12);
    lemma_u32_read_back(w.max_linear_speed, d, c + 16);
    lemma_u32_read_back(w.contact_speed, d, c + 20);
    lemma_u32_read_back(w.contact_hertz, d, c + 24);
    lemma_u32_read_back(w.contact_damping_ratio, d, c + 28);
    lemma_u32_read_back(w.contact_recycle_distance, d, c + 32);
    lemma_u64_read_back(w.step_index, d, c + 36);
    lemma_i32_read_back(w.split_island_id, d, c + 44);
    lemma_u32_read_back(w.inv_h, d, c + 48);
    lemma_u32_read_back(w.inv_dt, d, c + 52);
    lemma_i32_read_back(w.end_event_array_index, d, c + 56);
    lemma_i32_read_back(w.max_capacity.static_shape_count, d, c + 60);
    lemma_i32_read_back(w.max_capacity.dynamic_shape_count, d, c + 64);
    lemma_i32_read_back(w.max_capacity.static_body_count, d, c + 68);
    lemma_i32_read_back(w.max_capacity.dynamic_body_count, d, c + 72);
    lemma_i32_read_back(w.max_capacity.contact_count, d, c + 76);
    assert(d[c + 80] == d.subrange(c + 80, c + 81)[0]);
    lemma_config_flags(w.enable_sleep, w.enable_warm_starting, w.enable_contact_softening, w.enable_continuous,
        w.enable_speculative);
}

} // verus!
