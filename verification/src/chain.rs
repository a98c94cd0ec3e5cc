use vstd::prelude::*;
use crate::id::{ChainId, ShapeId};
use crate::recording::ops::{write_chain_set_surface_material, OP_CHAIN_SET_SURFACE_MATERIAL};
use crate::sensor::NULL_INDEX;
use crate::shape::Shape;
use crate::types::SurfaceMaterial;
use crate::geometry::{ChainSegment, Segment, Vec2};
use crate::world::{recorded, World};
use crate::write::{i32_bytes, id64_bytes, material_bytes};

verus! {

/// Whether an id names a live chain: in range, used, and of the slot's
/// current generation.
pub fn chain_is_valid(world: &World, id: ChainId) -> (r: bool)
    requires
        world.wf(),
        id.index1 != i32::MIN,
    ensures
        r == world.valid_chain_id(id),
{
    let chain_id = id.index1 - 1;
    if chain_id < 0 || world.chain_shapes.len() as i32 <= chain_id {
        return false;
    }
    let chain = &world.chain_shapes[chain_id as usize];
    if chain.id == NULL_INDEX {
        return false;
    }
    proof {
        assert(world.chain_slot_ok(world.chain_shapes@[chain_id as int], chain_id as int));
    }
    id.generation == chain.generation
}

/// Validate a chain id and return the chain's index.
pub fn get_chain_index(world: &World, chain_id: ChainId) -> (index: i32)
    requires
        world.valid_chain_id(chain_id),
    ensures
        index == chain_id.index1 - 1,
{
    chain_id.index1 - 1
}

/// Number of segments of a chain.
pub fn chain_get_segment_count(world: &World, chain_id: ChainId) -> (r: i32)
    requires
        !world.locked,
        world.valid_chain_id(chain_id),
    ensures
        r == world.chain_shapes@[chain_id.index1 - 1].shape_indices@.len() as i32,
{
    if world.locked {
        return 0;
    }
    let chain_index = get_chain_index(world, chain_id);
    world.chain_shapes[chain_index as usize].shape_indices.len() as i32
}

/// The segment shapes of a chain, at most `capacity` of them, as ids of
/// this world.
pub fn chain_get_segments(world: &World, chain_id: ChainId, capacity: usize) -> (r: Vec<ShapeId>)
    requires
        world.wf(),
        !world.locked,
        world.valid_chain_id(chain_id),
    ensures
        ({
            let indices = world.chain_shapes@[chain_id.index1 - 1].shape_indices@;
            &&& r@.len() == if indices.len() < capacity { indices.len() } else { capacity as nat }
            &&& forall|k: int| 0 <= k < r@.len() ==> #[trigger] r@[k] == (ShapeId {
                index1: (indices[k] + 1) as i32,
                world0: world.world_id,
                generation: world.shapes@[indices[k] as int].generation,
            })
        }),
{
    if world.locked {
        return Vec::new();
    }
    let chain_index = get_chain_index(world, chain_id);
    let chain = &world.chain_shapes[chain_index as usize];
    proof {
        assert(world.chain_slot_ok(world.chain_shapes@[chain_index as int], chain_index as int));
    }
    let ghost indices = chain.shape_indices@;
    assert(forall|k: int| 0 <= k < indices.len() ==> 0 <= #[trigger] indices[k] < world.shapes@.len());
    let count = if chain.shape_indices.len() < capacity { chain.shape_indices.len() } else { capacity };
    let mut out: Vec<ShapeId> = Vec::new();
    let mut i: usize = 0;
    while i < count
        invariant
            world.wf(),
            chain.shape_indices@ == indices,
            forall|k: int| 0 <= k < indices.len() ==> 0 <= #[trigger] indices[k] < world.shapes@.len(),
            count <= chain.shape_indices@.len(),
            0 <= i <= count,
            out@.len() == i,
            forall|k: int| 0 <= k < i ==> #[trigger] out@[k] == (ShapeId {
                index1: (chain.shape_indices@[k] + 1) as i32,
                world0: world.world_id,
                generation: world.shapes@[chain.shape_indices@[k] as int].generation,
            }),
        decreases count - i,
    {
        let shape_id = chain.shape_indices[i];
        assert(0 <= indices[i as int] < world.shapes@.len());
        out.push(ShapeId { index1: shape_id + 1, world0: world.world_id, generation: world.shapes[shape_id as usize].generation });
        i = i + 1;
    }
    out
}

/// Number of materials of a chain: one shared, or one per segment.
pub fn chain_get_surface_material_count(world: &World, chain_id: ChainId) -> (r: i32)
    requires
        world.valid_chain_id(chain_id),
    ensures
        r == world.chain_shapes@[chain_id.index1 - 1].materials@.len() as i32,
{
    let chain_index = get_chain_index(world, chain_id);
    world.chain_shapes[chain_index as usize].materials.len() as i32
}

/// The material of one segment of a chain: the shared material when there
/// is only one.
pub fn chain_get_surface_material(world: &World, chain_id: ChainId, segment_index: usize) -> (m: SurfaceMaterial)
    requires
        world.wf(),
        world.valid_chain_id(chain_id),
        segment_index < world.chain_shapes@[chain_id.index1 - 1].shape_indices@.len(),
    ensures
        ({
            let materials = world.chain_shapes@[chain_id.index1 - 1].materials@;
            m == if materials.len() == 1 { materials[0] } else { materials[segment_index as int] }
        }),
{
    let chain_index = get_chain_index(world, chain_id);
    let chain = &world.chain_shapes[chain_index as usize];
    proof {
        assert(world.chain_slot_ok(world.chain_shapes@[chain_index as int], chain_index as int));
    }
    if chain.materials.len() == 1 {
        chain.materials[0]
    } else {
        chain.materials[segment_index]
    }
}

/// Whether shape `j` takes a chain material set at `material_index`: every
/// segment when the chain shares one material, otherwise the segment at
/// that index.
pub open spec fn takes_material(indices: Seq<i32>, material_count: nat, material_index: int, j: int) -> bool {
    if material_count == 1 {
        indices.contains(j as i32)
    } else {
        j == indices[material_index]
    }
}

/// Set one material of a chain and hand it to the segment shape(s) it
/// covers; refused while the world steps.
pub fn chain_set_surface_material(world: &mut World, chain_id: ChainId, material: SurfaceMaterial, material_index: usize)
    requires
        old(world).wf(),
        !old(world).locked,
        old(world).valid_chain_id(chain_id),
        material_index < old(world).chain_shapes@[chain_id.index1 - 1].materials@.len(),
    ensures
        ({
            let ci = chain_id.index1 - 1;
            let before = old(world).chain_shapes@[ci];
            let after = final(world).chain_shapes@[ci];
            &&& recorded(old(world).recording, final(world).recording, OP_CHAIN_SET_SURFACE_MATERIAL,
                id64_bytes(chain_id.index1, chain_id.world0, chain_id.generation) + material_bytes(material)
                + i32_bytes(material_index as i32))
            &&& final(world).chain_shapes@.len() == old(world).chain_shapes@.len()
            &&& forall|c: int| 0 <= c < final(world).chain_shapes@.len() && c != ci ==> final(world).chain_shapes@[c] == old(world).chain_shapes@[c]
            &&& after.materials@ == before.materials@.update(material_index as int, material)
            &&& after.id == before.id && after.body_id == before.body_id && after.next_chain_id == before.next_chain_id
            &&& after.generation == before.generation && after.shape_indices@ == before.shape_indices@
            &&& final(world).shapes@.len() == old(world).shapes@.len()
            &&& forall|j: int| 0 <= j < final(world).shapes@.len() ==> #[trigger] final(world).shapes@[j] == if takes_material(
                before.shape_indices@, before.materials@.len(), material_index as int, j) {
                Shape { material: material, ..old(world).shapes@[j] }
            } else {
                old(world).shapes@[j]
            }
            &&& final(world).world_id == old(world).world_id
            &&& final(world).generation == old(world).generation
            &&& final(world).locked == old(world).locked
            &&& final(world).bodies@ == old(world).bodies@
            &&& final(world).joints@ == old(world).joints@
            &&& final(world).solver_sets@ == old(world).solver_sets@
            &&& final(world).graph_colors@ == old(world).graph_colors@
            &&& final(world).sensors@ == old(world).sensors@
        }),
{
    if let Some(mut rec) = world.recording.take() {
        write_chain_set_surface_material(&mut rec, chain_id, material, material_index as i32);
        world.recording = Some(rec);
    }
    if world.locked {
        return;
    }
    let chain_index = get_chain_index(world, chain_id);
    let ghost ci = chain_index as int;
    proof {
        assert(world.chain_slot_ok(world.chain_shapes@[ci], ci));
    }
    world.chain_shapes[chain_index as usize].materials.set(material_index, material);
    let material_count = world.chain_shapes[chain_index as usize].materials.len();
    let count = world.chain_shapes[chain_index as usize].shape_indices.len();
    let ghost indices = world.chain_shapes@[ci].shape_indices@;
    let ghost shapes0 = world.shapes@;
    let ghost chains1 = world.chain_shapes@;
    let ghost rec1 = world.recording;
    assert(forall|k: int| 0 <= k < indices.len() ==> 0 <= #[trigger] indices[k] < shapes0.len());
    if material_count == 1 {
        let mut i: usize = 0;
        while i < count
            invariant
                0 <= ci < world.chain_shapes@.len(),
                ci == chain_index as int,
                count == indices.len(),
                world.chain_shapes@ == chains1,
                world.recording == rec1,
                world.world_id == old(world).world_id,
                world.generation == old(world).generation,
                world.locked == old(world).locked,
                world.bodies@ == old(world).bodies@,
                world.joints@ == old(world).joints@,
                world.sensors@ == old(world).sensors@,
                world.solver_sets@ == old(world).solver_sets@,
                world.graph_colors@ == old(world).graph_colors@,
                world.chain_shapes@[ci].shape_indices@ == indices,
                forall|k: int| 0 <= k < indices.len() ==> 0 <= #[trigger] indices[k] < shapes0.len(),
                0 <= i <= count,
                world.shapes@.len() == shapes0.len(),
                shapes0.len() <= i32::MAX,
                forall|j: int| 0 <= j < shapes0.len() ==> #[trigger] world.shapes@[j] == if indices.take(i as int).contains(j as i32) {
                    Shape { material: material, ..shapes0[j] }
                } else {
                    shapes0[j]
                },
            decreases count - i,
        {
            let shape_id = world.chain_shapes[chain_index as usize].shape_indices[i];
            assert(0 <= indices[i as int] < shapes0.len());
            let mut shape = world.shapes[shape_id as usize];
            shape.material = material;
            world.shapes.set(shape_id as usize, shape);
            i = i + 1;
            assert forall|j: int| 0 <= j < shapes0.len() implies #[trigger] world.shapes@[j] == if indices.take(i as int).contains(j as i32) {
                Shape { material: material, ..shapes0[j] }
            } else {
                shapes0[j]
            } by {
                assert(indices.take(i as int) =~= indices.take(i - 1).push(shape_id));
                if j == shape_id as int {
                    assert(indices.take(i as int).contains(j as i32)) by {
                        assert(indices.take(i as int)[i - 1] == shape_id);
                    }
                } else {
                    let cur = indices.take(i as int);
                    let prev = indices.take(i - 1);
                    assert(cur.contains(j as i32) == prev.contains(j as i32)) by {
                        if cur.contains(j as i32) {
                            let w = choose|w: int| 0 <= w < cur.len() && #[trigger] cur[w] == j as i32;
                            assert(cur[i - 1] == shape_id);
                            assert(w < i - 1);
                            assert(prev[w] == j as i32);
                        }
                        if prev.contains(j as i32) {
                            let w = choose|w: int| 0 <= w < prev.len() && #[trigger] prev[w] == j as i32;
                            assert(cur[w] == j as i32);
                        }
                    }
                }
            }
        }
        assert(indices.take(count as int) =~= indices);
    } else {
        let shape_id = world.chain_shapes[chain_index as usize].shape_indices[material_index];
        assert(0 <= indices[material_index as int] < shapes0.len());
        let mut shape = world.shapes[shape_id as usize];
        shape.material = material;
        world.shapes.set(shape_id as usize, shape);
    }
}

/// After a chain material is set, the chain reports it for each segment it
/// covers: every segment when shared, otherwise the segment at its index.
pub proof fn law_chain_material_reads_back(materials: Seq<SurfaceMaterial>, segments: nat, index: int, m: SurfaceMaterial, segment: int)
    requires
        0 <= index < materials.len(),
        materials.len() == 1 || materials.len() == segments,
        0 <= segment < segments,
        materials.len() == 1 || segment == index,
    ensures
        ({
            let after = materials.update(index, m);
            (if after.len() == 1 { after[0] } else { after[segment] }) == m
        }),
{
}

/// The material a chain gives the segment whose solid part starts at point
/// `i`: the one shared material, or the material of that point.
pub open spec fn chain_material_for(materials: Seq<SurfaceMaterial>, i: int) -> SurfaceMaterial {
    if materials.len() == 1 {
        materials[0]
    } else {
        materials[i]
    }
}

/// The `k`-th segment of a chain through `points`, with its material. A
/// loop has one segment per point, segment `k` running from point `k` to the
/// next with the points before and after as ghosts, all indices taken round
/// the loop; an open chain has three fewer, segment `k` running from point
/// `k + 1` to `k + 2` with points `k` and `k + 3` as ghosts.
pub open spec fn chain_segment_at(
    points: Seq<Vec2>,
    materials: Seq<SurfaceMaterial>,
    is_loop: bool,
    chain_id: i32,
    k: int,
) -> (ChainSegment, SurfaceMaterial) {
    let n = points.len() as int;
    if is_loop {
        (ChainSegment {
            ghost1: points[(k + n - 1) % n],
            segment: Segment { point1: points[k], point2: points[(k + 1) % n] },
            ghost2: points[(k + 2) % n],
            chain_id,
        }, chain_material_for(materials, k))
    } else {
        (ChainSegment {
            ghost1: points[k],
            segment: Segment { point1: points[k + 1], point2: points[k + 2] },
            ghost2: points[k + 3],
            chain_id,
        }, chain_material_for(materials, k + 1))
    }
}

/// How many segments a chain through `n` points has.
pub open spec fn chain_segment_count(n: int, is_loop: bool) -> int {
    if is_loop {
        n
    } else {
        n - 3
    }
}

/// The segments a chain through `points` is made of, in order, each with
/// the material it takes, for a chain of index `chain_id`. Creating each
/// segment's shape on the body is the world's work.
pub fn chain_segments(points: &[Vec2], materials: &[SurfaceMaterial], is_loop: bool, chain_id: i32) -> (s: Vec<(ChainSegment, SurfaceMaterial)>)
    requires
        points@.len() >= 4,
        materials@.len() == 1 || materials@.len() == points@.len(),
    ensures
        s@.len() == chain_segment_count(points@.len() as int, is_loop),
        forall|k: int| 0 <= k < s@.len() ==> #[trigger] s@[k] == chain_segment_at(points@, materials@, is_loop, chain_id, k),
{
    let n = points.len();
    let count = if is_loop { n } else { n - 3 };
    let mut s: Vec<(ChainSegment, SurfaceMaterial)> = Vec::new();
    let mut k: usize = 0;
    while k < count
        invariant
            n == points@.len(),
            n >= 4,
            materials@.len() == 1 || materials@.len() == n,
            count == chain_segment_count(n as int, is_loop),
            k <= count,
            s@.len() == k,
            forall|j: int| 0 <= j < k ==> #[trigger] s@[j] == chain_segment_at(points@, materials@, is_loop, chain_id, j),
        decreases count - k,
    {
        let (g1, p1, p2, g2, mi) = if is_loop {
            let g1 = if k == 0 { n - 1 } else { k - 1 };
            let p2 = if k == n - 1 { 0 } else { k + 1 };
            let g2 = if k >= n - 2 { k - (n - 2) } else { k + 2 };
            proof {
                let ki = k as int;
                let ni = n as int;
                assert(g1 as int == (ki + ni - 1) % ni) by {
                    if ki == 0 {
                        vstd::arithmetic::div_mod::lemma_small_mod((ni - 1) as nat, ni as nat);
                    } else {
                        assert((ki + ni - 1) % ni == ki - 1) by {
                            vstd::arithmetic::div_mod::lemma_mod_add_multiples_vanish(ki - 1, ni);
                            vstd::arithmetic::div_mod::lemma_small_mod((ki - 1) as nat, ni as nat);
                        }
                    }
                }
                assert(p2 as int == (ki + 1) % ni) by {
                    if ki + 1 == ni {
                        vstd::arithmetic::div_mod::lemma_mod_self_0(ni);
                    } else {
                        vstd::arithmetic::div_mod::lemma_small_mod((ki + 1) as nat, ni as nat);
                    }
                }
                assert(g2 as int == (ki + 2) % ni) by {
                    if ki + 2 >= ni {
                        vstd::arithmetic::div_mod::lemma_mod_sub_multiples_vanish(ki + 2, ni);
                        vstd::arithmetic::div_mod::lemma_small_mod((ki + 2 - ni) as nat, ni as nat);
                    } else {
                        vstd::arithmetic::div_mod::lemma_small_mod((ki + 2) as nat, ni as nat);
                    }
                }
            }
            (g1, k, p2, g2, k)
        } else {
            (k, k + 1, k + 2, k + 3, k + 1)
        };
        let material = if materials.len() == 1 { materials[0] } else { materials[mi] };
        let seg = ChainSegment {
            ghost1: points[g1],
            segment: Segment { point1: points[p1], point2: points[p2] },
            ghost2: points[g2],
            chain_id,
        };
        s.push((seg, material));
        k = k + 1;
    }
    s
}

} // verus!
