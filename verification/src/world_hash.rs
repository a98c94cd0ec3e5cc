use vstd::prelude::*;
use crate::containers::IdPool;
use crate::geometry::Vec2;
use crate::joint::{payload_type, Joint, JointPayload, JointSim, AWAKE_SET};
use crate::recording::{fnv64_bytes, fnv64_mix, fnv_mix_float, fnv_mix_int, fnv_mix_position, fnv_mix_vec2_bytes, SNAP_FNV_INIT};
use crate::sensor::NULL_INDEX;
use crate::snapshot_bodies::{Contact, ContactSim, Manifold};
use crate::world::World;
use crate::snapshot::lemma_u32_round_trip;
use crate::write::{u32_bytes, vec2_bytes};

verus! {

// The state hash that recording and replay compare after every step:
// FNV-1a over the bit patterns of every live body's transform, and of its
// velocities when it is awake.

/// Every live body names a solver set and a body sim in it, and an awake
/// body a body state of the awake set as well.
pub open spec fn bodies_located(w: World) -> bool {
    forall|i: int| 0 <= i < w.bodies@.len() && (#[trigger] w.bodies@[i]).id == i ==> {
        let b = w.bodies@[i];
        &&& 0 <= b.set_index < w.solver_sets@.len()
        &&& 0 <= b.local_index < w.solver_sets@[b.set_index as int].body_sims@.len()
        &&& b.set_index == AWAKE_SET ==> b.local_index < w.solver_sets@[AWAKE_SET as int].body_states@.len()
    }
}

/// The hash after the live body in slot `i` is mixed into `h`: its
/// position, the cosine and sine of its rotation, and, when it is awake,
/// its linear velocity and angular velocity.
pub open spec fn mix_body(w: World, h: u64, i: int) -> u64 {
    let b = w.bodies@[i];
    let sim = w.solver_sets@[b.set_index as int].body_sims@[b.local_index as int];
    let h1 = fnv64_mix(fnv64_mix(h, sim.transform.p.x as u64), sim.transform.p.y as u64);
    let h2 = fnv64_mix(fnv64_mix(h1, sim.transform.q.c as u64), sim.transform.q.s as u64);
    if b.set_index == AWAKE_SET {
        let state = w.solver_sets@[AWAKE_SET as int].body_states@[b.local_index as int];
        fnv64_mix(fnv64_mix(fnv64_mix(h2, state.linear_velocity.x as u64), state.linear_velocity.y as u64),
            state.angular_velocity as u64)
    } else {
        h2
    }
}

/// The hash over the first `n` body slots, free slots skipped.
pub open spec fn state_hash_upto(w: World, n: nat) -> u64
    decreases n,
{
    if n == 0 {
        SNAP_FNV_INIT
    } else {
        let h = state_hash_upto(w, (n - 1) as nat);
        if w.bodies@[n - 1].id == n - 1 {
            mix_body(w, h, n - 1)
        } else {
            h
        }
    }
}

/// The hash of the world's state over all its body slots.
pub open spec fn state_hash(w: World) -> u64 {
    state_hash_upto(w, w.bodies@.len())
}

/// Hash the transforms and velocities of all live bodies.
pub fn hash_world_state(world: &World) -> (hash: u64)
    requires
        bodies_located(*world),
    ensures
        hash == state_hash(*world),
{
    let mut hash = SNAP_FNV_INIT;
    let mut i: usize = 0;
    while i < world.bodies.len()
        invariant
            0 <= i <= world.bodies@.len(),
            bodies_located(*world),
            hash == state_hash_upto(*world, i as nat),
        decreases world.bodies@.len() - i,
    {
        let body = &world.bodies[i];
        if body.id >= 0 && body.id as usize == i {
            assert(world.bodies@[i as int].id == i);
            let set = &world.solver_sets[body.set_index as usize];
            let sim = &set.body_sims[body.local_index as usize];
            hash = fnv_mix_position(hash, sim.transform.p);
            hash = fnv_mix_float(hash, sim.transform.q.c);
            hash = fnv_mix_float(hash, sim.transform.q.s);
            if body.set_index == AWAKE_SET {
                let state = &world.solver_sets[AWAKE_SET as usize].body_states[body.local_index as usize];
                hash = fnv_mix_float(hash, state.linear_velocity.x);
                hash = fnv_mix_float(hash, state.linear_velocity.y);
                hash = fnv_mix_float(hash, state.angular_velocity);
            }
        }
        i = i + 1;
    }
    hash
}

/// An integer mixed in by its 32-bit pattern.
pub open spec fn mix_int(h: u64, v: i32) -> u64 {
    fnv64_mix(h, (v as u32) as u64)
}

/// A real mixed in by its bit pattern.
pub open spec fn mix_real(h: u64, bits: u32) -> u64 {
    fnv64_mix(h, bits as u64)
}

/// The deep hash after the live body in slot `i`: what the state hash
/// mixes, then its solver set and its index there.
pub open spec fn mix_body_deep(w: World, h: u64, i: int) -> u64 {
    let b = w.bodies@[i];
    mix_int(mix_int(mix_body(w, h, i), b.set_index), b.local_index)
}

/// The deep hash over the first `n` body slots, free slots skipped.
pub open spec fn deep_bodies_upto(w: World, n: nat) -> u64
    decreases n,
{
    if n == 0 {
        SNAP_FNV_INIT
    } else {
        let h = deep_bodies_upto(w, (n - 1) as nat);
        if w.bodies@[n - 1].id == n - 1 {
            mix_body_deep(w, h, n - 1)
        } else {
            h
        }
    }
}

/// Where a live contact's solver data sits: in its graph color when it
/// is awake and colored, else in its solver set.
pub open spec fn contact_sim_of(w: World, c: Contact) -> ContactSim {
    if c.set_index == AWAKE_SET && c.color_index != NULL_INDEX {
        w.graph_colors@[c.color_index as int].contact_sims@[c.local_index as int]
    } else {
        w.solver_sets@[c.set_index as int].contact_sims@[c.local_index as int]
    }
}

/// Where a live joint's solver data sits: in its graph color when it is
/// awake and colored, else in its solver set.
pub open spec fn joint_sim_of(w: World, j: Joint) -> JointSim {
    if j.set_index == AWAKE_SET && j.color_index != NULL_INDEX {
        w.graph_colors@[j.color_index as int].joint_sims@[j.local_index as int]
    } else {
        w.solver_sets@[j.set_index as int].joint_sims@[j.local_index as int]
    }
}

/// The normal, tangent and total normal impulses of the first `n` points
/// of a manifold, mixed in order.
pub open spec fn mix_points(h: u64, m: Manifold, n: int) -> u64
    decreases n,
{
    if n <= 0 {
        h
    } else {
        let p = m.points[n - 1];
        mix_real(mix_real(mix_real(mix_points(h, m, n - 1), p.normal_impulse), p.tangent_impulse), p.total_normal_impulse)
    }
}

/// The deep hash after the live contact in slot `i`: its solver set,
/// color and index, its point count, and its points' impulses.
pub open spec fn mix_contact(w: World, h: u64, i: int) -> u64 {
    let c = w.contacts@[i];
    let m = contact_sim_of(w, c).manifold;
    mix_points(mix_int(mix_int(mix_int(mix_int(h, c.set_index), c.color_index), c.local_index), m.point_count), m, m.point_count as int)
}

/// The deep hash after the contact slots `0..n`, free slots skipped.
pub open spec fn deep_contacts_upto(w: World, h: u64, n: nat) -> u64
    decreases n,
{
    if n == 0 {
        h
    } else {
        let h1 = deep_contacts_upto(w, h, (n - 1) as nat);
        if w.contacts@[n - 1].contact_id == n - 1 {
            mix_contact(w, h1, n - 1)
        } else {
            h1
        }
    }
}

/// The accumulated impulses of a joint, mixed by its type; a filter joint
/// has none.
pub open spec fn mix_payload(h: u64, p: JointPayload) -> u64 {
    match p {
        JointPayload::Distance(d) => mix_real(mix_real(mix_real(mix_real(h, d.impulse), d.lower_impulse), d.upper_impulse), d.motor_impulse),
        JointPayload::Motor(m) => mix_real(mix_real(mix_real(mix_real(mix_real(mix_real(h, m.linear_velocity_impulse.x),
            m.linear_velocity_impulse.y), m.angular_velocity_impulse), m.linear_spring_impulse.x), m.linear_spring_impulse.y),
            m.angular_spring_impulse),
        JointPayload::Prismatic(q) => mix_real(mix_real(mix_real(mix_real(fnv64_bytes(h, vec2_bytes(q.impulse)), q.spring_impulse),
            q.motor_impulse), q.lower_impulse), q.upper_impulse),
        JointPayload::Revolute(q) => mix_real(mix_real(mix_real(mix_real(fnv64_bytes(h, vec2_bytes(q.linear_impulse)), q.spring_impulse),
            q.motor_impulse), q.lower_impulse), q.upper_impulse),
        JointPayload::Weld(q) => mix_real(fnv64_bytes(h, vec2_bytes(q.linear_impulse)), q.angular_impulse),
        JointPayload::Wheel(q) => mix_real(mix_real(mix_real(mix_real(mix_real(h, q.perp_impulse), q.motor_impulse), q.spring_impulse),
            q.lower_impulse), q.upper_impulse),
        JointPayload::Filter => h,
    }
}

/// FNV-1a over a stream of words, each xored in whole and then multiplied
/// by the prime, from `hash`.
pub open spec fn fnv64_words(hash: u64, ws: Seq<u64>) -> u64
    decreases ws.len(),
{
    if ws.len() == 0 {
        hash
    } else {
        fnv64_mix(fnv64_words(hash, ws.drop_last()), ws.last())
    }
}

/// Bytes taken one by one as words of the stream.
pub open spec fn byte_words(s: Seq<u8>) -> Seq<u64> {
    s.map_values(|b: u8| b as u64)
}

/// The words that the deep hash takes from a joint's impulses, in order:
/// a vector impulse goes in byte by byte from its wire form, a scalar
/// impulse as its bit pattern; a filter joint gives none.
pub open spec fn payload_hash_words(p: JointPayload) -> Seq<u64> {
    match p {
        JointPayload::Distance(d) => seq![d.impulse as u64, d.lower_impulse as u64, d.upper_impulse as u64,
            d.motor_impulse as u64],
        JointPayload::Motor(m) => seq![m.linear_velocity_impulse.x as u64, m.linear_velocity_impulse.y as u64,
            m.angular_velocity_impulse as u64, m.linear_spring_impulse.x as u64, m.linear_spring_impulse.y as u64,
            m.angular_spring_impulse as u64],
        JointPayload::Prismatic(q) => byte_words(vec2_bytes(q.impulse)) + seq![q.spring_impulse as u64,
            q.motor_impulse as u64, q.lower_impulse as u64, q.upper_impulse as u64],
        JointPayload::Revolute(q) => byte_words(vec2_bytes(q.linear_impulse)) + seq![q.spring_impulse as u64,
            q.motor_impulse as u64, q.lower_impulse as u64, q.upper_impulse as u64],
        JointPayload::Weld(q) => byte_words(vec2_bytes(q.linear_impulse)) + seq![q.angular_impulse as u64],
        JointPayload::Wheel(q) => seq![q.perp_impulse as u64, q.motor_impulse as u64, q.spring_impulse as u64,
            q.lower_impulse as u64, q.upper_impulse as u64],
        JointPayload::Filter => Seq::empty(),
    }
}

/// Every impulse that the deep hash is meant to cover agrees between two
/// payloads of one joint type.
pub open spec fn same_impulses(p1: JointPayload, p2: JointPayload) -> bool {
    match (p1, p2) {
        (JointPayload::Distance(a), JointPayload::Distance(b)) => a.impulse == b.impulse && a.lower_impulse
            == b.lower_impulse && a.upper_impulse == b.upper_impulse && a.motor_impulse == b.motor_impulse,
        (JointPayload::Motor(a), JointPayload::Motor(b)) => a.linear_velocity_impulse == b.linear_velocity_impulse
            && a.angular_velocity_impulse == b.angular_velocity_impulse && a.linear_spring_impulse
            == b.linear_spring_impulse && a.angular_spring_impulse == b.angular_spring_impulse,
        (JointPayload::Prismatic(a), JointPayload::Prismatic(b)) => a.impulse == b.impulse && a.spring_impulse
            == b.spring_impulse && a.motor_impulse == b.motor_impulse && a.lower_impulse == b.lower_impulse
            && a.upper_impulse == b.upper_impulse,
        (JointPayload::Revolute(a), JointPayload::Revolute(b)) => a.linear_impulse == b.linear_impulse
            && a.spring_impulse == b.spring_impulse && a.motor_impulse == b.motor_impulse && a.lower_impulse
            == b.lower_impulse && a.upper_impulse == b.upper_impulse,
        (JointPayload::Weld(a), JointPayload::Weld(b)) => a.linear_impulse == b.linear_impulse && a.angular_impulse
            == b.angular_impulse,
        (JointPayload::Wheel(a), JointPayload::Wheel(b)) => a.perp_impulse == b.perp_impulse && a.motor_impulse
            == b.motor_impulse && a.spring_impulse == b.spring_impulse && a.lower_impulse == b.lower_impulse
            && a.upper_impulse == b.upper_impulse,
        (JointPayload::Filter, JointPayload::Filter) => true,
        _ => false,
    }
}

proof fn lemma_words_step(hash: u64, ws: Seq<u64>, k: int)
    requires
        0 < k <= ws.len(),
    ensures
        fnv64_words(hash, ws.take(k)) == fnv64_mix(fnv64_words(hash, ws.take(k - 1)), ws[k - 1]),
{
    assert(ws.take(k).drop_last() =~= ws.take(k - 1));
}

/// Unfold the stream over its first `n` words, one word at a time.
proof fn lemma_words_unfold(hash: u64, ws: Seq<u64>, n: int)
    requires
        0 <= n <= ws.len(),
    ensures
        forall|k: int| 0 < k <= n ==> #[trigger] fnv64_words(hash, ws.take(k)) == fnv64_mix(
            fnv64_words(hash, ws.take(k - 1)), ws[k - 1]),
        fnv64_words(hash, ws.take(0)) == hash,
    decreases n,
{
    assert(ws.take(0) =~= Seq::<u64>::empty());
    if n > 0 {
        lemma_words_unfold(hash, ws, n - 1);
        lemma_words_step(hash, ws, n);
    }
}

proof fn lemma_words_concat(hash: u64, a: Seq<u64>, b: Seq<u64>)
    ensures
        fnv64_words(hash, a + b) == fnv64_words(fnv64_words(hash, a), b),
    decreases b.len(),
{
    if b.len() == 0 {
        assert(a + b =~= a);
    } else {
        lemma_words_concat(hash, a, b.drop_last());
        assert((a + b).drop_last() =~= a + b.drop_last());
    }
}

proof fn lemma_bytes_as_words(hash: u64, s: Seq<u8>)
    ensures
        fnv64_bytes(hash, s) == fnv64_words(hash, byte_words(s)),
    decreases s.len(),
{
    if s.len() > 0 {
        lemma_bytes_as_words(hash, s.drop_last());
        assert(byte_words(s).drop_last() =~= byte_words(s.drop_last()));
    }
}

proof fn lemma_vec2_from_words(a: Vec2, b: Vec2)
    requires
        byte_words(vec2_bytes(a)) == byte_words(vec2_bytes(b)),
    ensures
        a == b,
{
    lemma_u32_round_trip(a.x);
    lemma_u32_round_trip(a.y);
    lemma_u32_round_trip(b.x);
    lemma_u32_round_trip(b.y);
    let sa = vec2_bytes(a);
    let sb = vec2_bytes(b);
    assert forall|i: int| 0 <= i < sa.len() implies sa[i] == sb[i] by {
        assert(byte_words(sa)[i] == byte_words(sb)[i]);
    }
    assert(sa =~= sb);
    assert(sa.subrange(0, 4) =~= u32_bytes(a.x));
    assert(sb.subrange(0, 4) =~= u32_bytes(b.x));
    assert(sa.subrange(4, 8) =~= u32_bytes(a.y));
    assert(sb.subrange(4, 8) =~= u32_bytes(b.y));
}

/// The deep hash mixes a joint's impulses as FNV-1a over the words
/// `payload_hash_words` lists: for a revolute joint, the eight bytes of its
/// linear impulse and then its spring, motor, lower and upper impulses.
pub proof fn law_payload_hash_is_fnv_over_its_words(hash: u64, p: JointPayload)
    ensures
        mix_payload(hash, p) == fnv64_words(hash, payload_hash_words(p)),
{
    let ws = payload_hash_words(p);
    match p {
        JointPayload::Prismatic(q) => {
            let bw = byte_words(vec2_bytes(q.impulse));
            let t = ws.subrange(8, 12);
            lemma_u32_round_trip(q.impulse.x);
            lemma_u32_round_trip(q.impulse.y);
            assert(ws =~= bw + t);
            lemma_words_concat(hash, bw, t);
            lemma_bytes_as_words(hash, vec2_bytes(q.impulse));
            lemma_words_unfold(fnv64_words(hash, bw), t, 4);
            assert(t.take(4) =~= t);
        },
        JointPayload::Revolute(q) => {
            let bw = byte_words(vec2_bytes(q.linear_impulse));
            let t = ws.subrange(8, 12);
            lemma_u32_round_trip(q.linear_impulse.x);
            lemma_u32_round_trip(q.linear_impulse.y);
            assert(ws =~= bw + t);
            lemma_words_concat(hash, bw, t);
            lemma_bytes_as_words(hash, vec2_bytes(q.linear_impulse));
            lemma_words_unfold(fnv64_words(hash, bw), t, 4);
            assert(t.take(4) =~= t);
        },
        JointPayload::Weld(q) => {
            let bw = byte_words(vec2_bytes(q.linear_impulse));
            let t = ws.subrange(8, 9);
            lemma_u32_round_trip(q.linear_impulse.x);
            lemma_u32_round_trip(q.linear_impulse.y);
            assert(ws =~= bw + t);
            lemma_words_concat(hash, bw, t);
            lemma_bytes_as_words(hash, vec2_bytes(q.linear_impulse));
            lemma_words_unfold(fnv64_words(hash, bw), t, 1);
            assert(t.take(1) =~= t);
        },
        JointPayload::Filter => {},
        _ => {
            lemma_words_unfold(hash, ws, ws.len() as int);
            assert(ws.take(ws.len() as int) =~= ws);
        },
    }
}

/// The words the deep hash takes from a joint's impulses determine every
/// one of those impulses: two payloads of one joint type with the same
/// words have the same impulses, so no impulse is left out of the hash.
pub proof fn law_payload_hash_words_cover_impulses(p1: JointPayload, p2: JointPayload)
    requires
        payload_type(p1) == payload_type(p2),
        payload_hash_words(p1) == payload_hash_words(p2),
    ensures
        same_impulses(p1, p2),
{
    let w1 = payload_hash_words(p1);
    let w2 = payload_hash_words(p2);
    match (p1, p2) {
        (JointPayload::Prismatic(a), JointPayload::Prismatic(b)) => {
            lemma_u32_round_trip(a.impulse.x);
            lemma_u32_round_trip(a.impulse.y);
            lemma_u32_round_trip(b.impulse.x);
            lemma_u32_round_trip(b.impulse.y);
            assert(w1.subrange(0, 8) =~= byte_words(vec2_bytes(a.impulse)));
            assert(w2.subrange(0, 8) =~= byte_words(vec2_bytes(b.impulse)));
            lemma_vec2_from_words(a.impulse, b.impulse);
            assert(w1[8] == w2[8] && w1[9] == w2[9] && w1[10] == w2[10] && w1[11] == w2[11]);
        },
        (JointPayload::Revolute(a), JointPayload::Revolute(b)) => {
            lemma_u32_round_trip(a.linear_impulse.x);
            lemma_u32_round_trip(a.linear_impulse.y);
            lemma_u32_round_trip(b.linear_impulse.x);
            lemma_u32_round_trip(b.linear_impulse.y);
            assert(w1.subrange(0, 8) =~= byte_words(vec2_bytes(a.linear_impulse)));
            assert(w2.subrange(0, 8) =~= byte_words(vec2_bytes(b.linear_impulse)));
            lemma_vec2_from_words(a.linear_impulse, b.linear_impulse);
            assert(w1[8] == w2[8] && w1[9] == w2[9] && w1[10] == w2[10] && w1[11] == w2[11]);
        },
        (JointPayload::Weld(a), JointPayload::Weld(b)) => {
            lemma_u32_round_trip(a.linear_impulse.x);
            lemma_u32_round_trip(a.linear_impulse.y);
            lemma_u32_round_trip(b.linear_impulse.x);
            lemma_u32_round_trip(b.linear_impulse.y);
            assert(w1.subrange(0, 8) =~= byte_words(vec2_bytes(a.linear_impulse)));
            assert(w2.subrange(0, 8) =~= byte_words(vec2_bytes(b.linear_impulse)));
            lemma_vec2_from_words(a.linear_impulse, b.linear_impulse);
            assert(w1[8] == w2[8]);
        },
        (JointPayload::Distance(a), JointPayload::Distance(b)) => {
            assert(w1[0] == w2[0] && w1[1] == w2[1] && w1[2] == w2[2] && w1[3] == w2[3]);
        },
        (JointPayload::Motor(a), JointPayload::Motor(b)) => {
            assert(w1[0] == w2[0] && w1[1] == w2[1] && w1[2] == w2[2] && w1[3] == w2[3] && w1[4] == w2[4]
                && w1[5] == w2[5]);
        },
        (JointPayload::Wheel(a), JointPayload::Wheel(b)) => {
            assert(w1[0] == w2[0] && w1[1] == w2[1] && w1[2] == w2[2] && w1[3] == w2[3] && w1[4] == w2[4]);
        },
        _ => {},
    }
}

/// The deep hash after the live joint in slot `i`: its solver set, color
/// and index, then its impulses.
pub open spec fn mix_joint(w: World, h: u64, i: int) -> u64 {
    let j = w.joints@[i];
    mix_payload(mix_int(mix_int(mix_int(h, j.set_index), j.color_index), j.local_index), joint_sim_of(w, j).payload)
}

/// The deep hash after the joint slots `0..n`, free slots skipped.
pub open spec fn deep_joints_upto(w: World, h: u64, n: nat) -> u64
    decreases n,
{
    if n == 0 {
        h
    } else {
        let h1 = deep_joints_upto(w, h, (n - 1) as nat);
        if w.joints@[n - 1].joint_id == n - 1 {
            mix_joint(w, h1, n - 1)
        } else {
            h1
        }
    }
}

/// How many ids a pool has handed out and not taken back.
pub open spec fn id_count(p: IdPool) -> int {
    p.next_index - p.free_array@.len()
}

/// A pool whose id count is an `i32`.
pub open spec fn id_count_fits(p: IdPool) -> bool {
    i32::MIN <= id_count(p) <= i32::MAX
}

/// A pool's next index and id count, mixed in.
pub open spec fn mix_pool(h: u64, p: IdPool) -> u64 {
    mix_int(mix_int(h, p.next_index), id_count(p) as i32)
}

/// The deep hash of a world: bodies with their bookkeeping, contacts with
/// their manifold impulses, joints with their impulses, the seven id
/// pools, then the number of solver sets.
pub open spec fn deep_state_hash(w: World) -> u64 {
    let h1 = deep_joints_upto(w, deep_contacts_upto(w, deep_bodies_upto(w, w.bodies@.len()), w.contacts@.len()), w.joints@.len());
    let h2 = mix_pool(mix_pool(mix_pool(mix_pool(mix_pool(mix_pool(mix_pool(h1, w.body_id_pool), w.shape_id_pool), w.chain_id_pool),
        w.contact_id_pool), w.joint_id_pool), w.island_id_pool), w.solver_set_id_pool);
    mix_int(h2, w.solver_sets@.len() as i32)
}

/// Every live contact and joint names existing solver data (a contact's
/// manifold holds at most two points), and every pool's id count is an
/// `i32`.
pub open spec fn constraints_located(w: World) -> bool {
    &&& forall|i: int| 0 <= i < w.contacts@.len() && (#[trigger] w.contacts@[i]).contact_id == i ==> {
        let c = w.contacts@[i];
        &&& 0 <= c.local_index
        &&& if c.set_index == AWAKE_SET && c.color_index != NULL_INDEX {
            0 <= c.color_index < w.graph_colors@.len() && c.local_index < w.graph_colors@[c.color_index as int].contact_sims@.len()
        } else {
            0 <= c.set_index < w.solver_sets@.len() && c.local_index < w.solver_sets@[c.set_index as int].contact_sims@.len()
        }
        &&& 0 <= contact_sim_of(w, c).manifold.point_count <= 2
    }
    &&& forall|i: int| 0 <= i < w.joints@.len() && (#[trigger] w.joints@[i]).joint_id == i ==> {
        let j = w.joints@[i];
        &&& 0 <= j.local_index
        &&& if j.set_index == AWAKE_SET && j.color_index != NULL_INDEX {
            0 <= j.color_index < w.graph_colors@.len() && j.local_index < w.graph_colors@[j.color_index as int].joint_sims@.len()
        } else {
            0 <= j.set_index < w.solver_sets@.len() && j.local_index < w.solver_sets@[j.set_index as int].joint_sims@.len()
        }
    }
    &&& id_count_fits(w.body_id_pool) && id_count_fits(w.shape_id_pool) && id_count_fits(w.chain_id_pool)
    &&& id_count_fits(w.contact_id_pool) && id_count_fits(w.joint_id_pool) && id_count_fits(w.island_id_pool)
    &&& id_count_fits(w.solver_set_id_pool)
}

fn hash_pool(hash: u64, p: &IdPool) -> (h: u64)
    requires
        id_count_fits(*p),
    ensures
        h == mix_pool(hash, *p),
{
    let h = fnv_mix_int(hash, p.next_index);
    let count = p.next_index as i64 - p.free_array.len() as i64;
    fnv_mix_int(h, count as i32)
}

fn hash_payload(hash: u64, p: &JointPayload) -> (h: u64)
    ensures
        h == mix_payload(hash, *p),
{
    match p {
        JointPayload::Distance(d) => {
            let h = fnv_mix_float(hash, d.impulse);
            let h = fnv_mix_float(h, d.lower_impulse);
            let h = fnv_mix_float(h, d.upper_impulse);
            fnv_mix_float(h, d.motor_impulse)
        },
        JointPayload::Motor(m) => {
            let h = fnv_mix_float(hash, m.linear_velocity_impulse.x);
            let h = fnv_mix_float(h, m.linear_velocity_impulse.y);
            let h = fnv_mix_float(h, m.angular_velocity_impulse);
            let h = fnv_mix_float(h, m.linear_spring_impulse.x);
            let h = fnv_mix_float(h, m.linear_spring_impulse.y);
            fnv_mix_float(h, m.angular_spring_impulse)
        },
        JointPayload::Prismatic(q) => {
            let h = fnv_mix_vec2_bytes(hash, q.impulse);
            let h = fnv_mix_float(h, q.spring_impulse);
            let h = fnv_mix_float(h, q.motor_impulse);
            let h = fnv_mix_float(h, q.lower_impulse);
            fnv_mix_float(h, q.upper_impulse)
        },
        JointPayload::Revolute(q) => {
            let h = fnv_mix_vec2_bytes(hash, q.linear_impulse);
            let h = fnv_mix_float(h, q.spring_impulse);
            let h = fnv_mix_float(h, q.motor_impulse);
            let h = fnv_mix_float(h, q.lower_impulse);
            fnv_mix_float(h, q.upper_impulse)
        },
        JointPayload::Weld(q) => {
            let h = fnv_mix_vec2_bytes(hash, q.linear_impulse);
            fnv_mix_float(h, q.angular_impulse)
        },
        JointPayload::Wheel(q) => {
            let h = fnv_mix_float(hash, q.perp_impulse);
            let h = fnv_mix_float(h, q.motor_impulse);
            let h = fnv_mix_float(h, q.spring_impulse);
            let h = fnv_mix_float(h, q.lower_impulse);
            fnv_mix_float(h, q.upper_impulse)
        },
        JointPayload::Filter => hash,
    }
}

/// Deep state hash: body transforms, velocities and solver-set indices,
/// contact manifold impulses, joint impulses, id-pool occupancy and the
/// number of solver sets, so that a restore can be shown to reproduce the
/// full solver state and not just the visible motion.
#[verifier::spinoff_prover]
#[verifier::rlimit(40)]
pub fn hash_world_state_deep(world: &World) -> (hash: u64)
    requires
        bodies_located(*world),
        constraints_located(*world),
    ensures
        hash == deep_state_hash(*world),
{
    let mut hash = SNAP_FNV_INIT;
    let mut i: usize = 0;
    while i < world.bodies.len()
        invariant
            0 <= i <= world.bodies@.len(),
            bodies_located(*world),
            hash == deep_bodies_upto(*world, i as nat),
        decreases world.bodies@.len() - i,
    {
        let body = &world.bodies[i];
        if body.id >= 0 && body.id as usize == i {
            assert(world.bodies@[i as int].id == i);
            let set = &world.solver_sets[body.set_index as usize];
            let sim = &set.body_sims[body.local_index as usize];
            hash = fnv_mix_position(hash, sim.transform.p);
            hash = fnv_mix_float(hash, sim.transform.q.c);
            hash = fnv_mix_float(hash, sim.transform.q.s);
            if body.set_index == AWAKE_SET {
                let state = &world.solver_sets[AWAKE_SET as usize].body_states[body.local_index as usize];
                hash = fnv_mix_float(hash, state.linear_velocity.x);
                hash = fnv_mix_float(hash, state.linear_velocity.y);
                hash = fnv_mix_float(hash, state.angular_velocity);
            }
            hash = fnv_mix_int(hash, body.set_index);
            hash = fnv_mix_int(hash, body.local_index);
        }
        i = i + 1;
    }
    let ghost h0 = hash;
    let mut i: usize = 0;
    while i < world.contacts.len()
        invariant
            0 <= i <= world.contacts@.len(),
            constraints_located(*world),
            hash == deep_contacts_upto(*world, h0, i as nat),
        decreases world.contacts@.len() - i,
    {
        let contact = &world.contacts[i];
        if contact.contact_id >= 0 && contact.contact_id as usize == i {
            assert(world.contacts@[i as int].contact_id == i);
            hash = fnv_mix_int(hash, contact.set_index);
            hash = fnv_mix_int(hash, contact.color_index);
            hash = fnv_mix_int(hash, contact.local_index);
            let sim = if contact.set_index == AWAKE_SET && contact.color_index != NULL_INDEX {
                &world.graph_colors[contact.color_index as usize].contact_sims[contact.local_index as usize]
            } else {
                &world.solver_sets[contact.set_index as usize].contact_sims[contact.local_index as usize]
            };
            let m = &sim.manifold;
            hash = fnv_mix_int(hash, m.point_count);
            let ghost hp = hash;
            let mut k: usize = 0;
            while k < m.point_count as usize
                invariant
                    0 <= k <= m.point_count <= 2,
                    hash == mix_points(hp, *m, k as int),
                decreases m.point_count - k,
            {
                let p = &m.points[k];
                hash = fnv_mix_float(hash, p.normal_impulse);
                hash = fnv_mix_float(hash, p.tangent_impulse);
                hash = fnv_mix_float(hash, p.total_normal_impulse);
                k = k + 1;
            }
        }
        i = i + 1;
    }
    let ghost h1 = hash;
    let mut i: usize = 0;
    while i < world.joints.len()
        invariant
            0 <= i <= world.joints@.len(),
            constraints_located(*world),
            hash == deep_joints_upto(*world, h1, i as nat),
        decreases world.joints@.len() - i,
    {
        let joint = &world.joints[i];
        if joint.joint_id >= 0 && joint.joint_id as usize == i {
            assert(world.joints@[i as int].joint_id == i);
            hash = fnv_mix_int(hash, joint.set_index);
            hash = fnv_mix_int(hash, joint.color_index);
            hash = fnv_mix_int(hash, joint.local_index);
            let sim = if joint.set_index == AWAKE_SET && joint.color_index != NULL_INDEX {
                &world.graph_colors[joint.color_index as usize].joint_sims[joint.local_index as usize]
            } else {
                &world.solver_sets[joint.set_index as usize].joint_sims[joint.local_index as usize]
            };
            hash = hash_payload(hash, &sim.payload);
        }
        i = i + 1;
    }
    hash = hash_pool(hash, &world.body_id_pool);
    hash = hash_pool(hash, &world.shape_id_pool);
    hash = hash_pool(hash, &world.chain_id_pool);
    hash = hash_pool(hash, &world.contact_id_pool);
    hash = hash_pool(hash, &world.joint_id_pool);
    hash = hash_pool(hash, &world.island_id_pool);
    hash = hash_pool(hash, &world.solver_set_id_pool);
    fnv_mix_int(hash, world.solver_sets.len() as i32)
}

} // verus!
