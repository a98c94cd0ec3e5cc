use vstd::prelude::*;
use crate::containers::{count_fits, BitSet};
use crate::joint::JointSim;
use crate::recording::decode::{i32_read, lemma_i32_read_back, lemma_split, read_i32};
use crate::snapshot::SnapReader;
use crate::snapshot_bodies::{
    body_sim_image, body_sim_read, body_state_image, body_state_read, contact_sim_image, contact_sim_read,
    des_body_sim, des_body_state, des_contact_sim, law_body_sim_round_trip, law_body_state_round_trip,
    law_contact_sim_round_trip, ser_body_sim, ser_body_state, ser_contact_sim, BodySim, BodyState, ContactSim,
};
use crate::snapshot_joints::{des_joint_sim, joint_sim_bytes, joint_sim_read, law_joint_sim_round_trip, ser_joint_sim};
use crate::snapshot_structs::IslandSim;
use crate::world::{GraphColor, SolverSet};
use crate::write::{i32_bytes, rec_w_i32};

verus! {

broadcast use crate::write::lemma_le_bytes_len;

// The solver sets and constraint graph colors of a world snapshot: each a
// run of records behind a count, every count guarded against the bytes
// left so a corrupt image cannot force a huge allocation.

/// An island sim read at `(ok, c)`: its island id.
pub open spec fn island_sim_read(d: Seq<u8>, ok: bool, c: int) -> (IslandSim, (bool, int)) {
    let (island_id, s) = i32_read(d, ok, c);
    (IslandSim { island_id }, s)
}

/// Image form of an island sim: its island id.
pub open spec fn island_sim_image(s: IslandSim) -> Seq<u8> {
    i32_bytes(s.island_id)
}

fn read_island_sim(r: &mut SnapReader) -> (s: IslandSim)
    ensures
        final(r).data@ == old(r).data@,
        (s, (final(r).ok, final(r).cursor as int)) == island_sim_read(old(r).data@, old(r).ok, old(r).cursor as int),
{
    IslandSim { island_id: read_i32(r) }
}

proof fn law_island_sim_round_trip(s: IslandSim, d: Seq<u8>, c: int)
    requires
        0 <= c,
        c + 4 <= d.len(),
        d.subrange(c, c + 4) == island_sim_image(s),
    ensures
        island_sim_read(d, true, c) == (s, (true, c + 4)),
{
    lemma_i32_read_back(s.island_id, d, c);
}


/// `n` body sims read in turn from `(ok, c)`.
pub open spec fn body_sim_run_read(d: Seq<u8>, ok: bool, c: int, n: nat) -> (Seq<BodySim>, (bool, int))
    decreases n,
{
    if n == 0 {
        (Seq::empty(), (ok, c))
    } else {
        let (prev, s) = body_sim_run_read(d, ok, c, (n - 1) as nat);
        let (x, s2) = body_sim_read(d, s.0, s.1);
        (prev.push(x), s2)
    }
}

/// Images of body sims, one after the other.
pub open spec fn body_sim_run_image(s: Seq<BodySim>) -> Seq<u8>
    decreases s.len(),
{
    if s.len() == 0 {
        Seq::empty()
    } else {
        body_sim_run_image(s.drop_last()) + body_sim_image(s.last())
    }
}

/// Read `n` body sims in turn.
pub fn read_body_sim_run(r: &mut SnapReader, n: usize) -> (v: Vec<BodySim>)
    ensures
        final(r).data@ == old(r).data@,
        (v@, (final(r).ok, final(r).cursor as int)) == body_sim_run_read(old(r).data@, old(r).ok, old(r).cursor as int, n as nat),
{
    let ghost d = old(r).data@;
    let ghost s0 = (old(r).ok, old(r).cursor as int);
    let mut v: Vec<BodySim> = Vec::new();
    let mut i: usize = 0;
    while i < n
        invariant
            0 <= i <= n,
            r.data@ == d,
            (v@, (r.ok, r.cursor as int)) == body_sim_run_read(d, s0.0, s0.1, i as nat),
        decreases n - i,
    {
        let x = des_body_sim(r);
        v.push(x);
        i = i + 1;
    }
    v
}

/// Append the images of body sims, in order.
pub fn ser_body_sim_run(buf: &mut Vec<u8>, v: &Vec<BodySim>)
    ensures
        final(buf)@ == old(buf)@ + body_sim_run_image(v@),
{
    let mut i: usize = 0;
    while i < v.len()
        invariant
            0 <= i <= v@.len(),
            buf@ == old(buf)@ + body_sim_run_image(v@.take(i as int)),
        decreases v@.len() - i,
    {
        ser_body_sim(buf, &v[i]);
        i = i + 1;
        assert(v@.take(i as int).drop_last() =~= v@.take(i - 1));
        assert(buf@ =~= old(buf)@ + body_sim_run_image(v@.take(i as int)));
    }
    assert(v@.take(v@.len() as int) =~= v@);
}

/// A run of body sims reads back from its images.
#[verifier::spinoff_prover]
#[verifier::rlimit(40)]
pub proof fn law_body_sim_run_round_trip(s: Seq<BodySim>, d: Seq<u8>, c: int)
    requires
        0 <= c,
        c + body_sim_run_image(s).len() <= d.len(),
        d.subrange(c, c + body_sim_run_image(s).len()) == body_sim_run_image(s),
    ensures
        body_sim_run_read(d, true, c, s.len()) == (s, (true, c + body_sim_run_image(s).len())),
    decreases s.len(),
{
    if s.len() > 0 {
        let prev = s.drop_last();
        let p = body_sim_run_image(prev);
        assert(body_sim_image(s.last()).len() == 96);
        lemma_split(d, c, p, body_sim_image(s.last()));
        law_body_sim_run_round_trip(prev, d, c);
        law_body_sim_round_trip(s.last(), d, c + p.len());
        assert(prev.push(s.last()) =~= s);
    }
}

/// `n` body states read in turn from `(ok, c)`.
pub open spec fn body_state_run_read(d: Seq<u8>, ok: bool, c: int, n: nat) -> (Seq<BodyState>, (bool, int))
    decreases n,
{
    if n == 0 {
        (Seq::empty(), (ok, c))
    } else {
        let (prev, s) = body_state_run_read(d, ok, c, (n - 1) as nat);
        let (x, s2) = body_state_read(d, s.0, s.1);
        (prev.push(x), s2)
    }
}

/// Images of body states, one after the other.
pub open spec fn body_state_run_image(s: Seq<BodyState>) -> Seq<u8>
    decreases s.len(),
{
    if s.len() == 0 {
        Seq::empty()
    } else {
        body_state_run_image(s.drop_last()) + body_state_image(s.last())
    }
}

/// Read `n` body states in turn.
pub fn read_body_state_run(r: &mut SnapReader, n: usize) -> (v: Vec<BodyState>)
    ensures
        final(r).data@ == old(r).data@,
        (v@, (final(r).ok, final(r).cursor as int)) == body_state_run_read(old(r).data@, old(r).ok, old(r).cursor as int, n as nat),
{
    let ghost d = old(r).data@;
    let ghost s0 = (old(r).ok, old(r).cursor as int);
    let mut v: Vec<BodyState> = Vec::new();
    let mut i: usize = 0;
    while i < n
        invariant
            0 <= i <= n,
            r.data@ == d,
            (v@, (r.ok, r.cursor as int)) == body_state_run_read(d, s0.0, s0.1, i as nat),
        decreases n - i,
    {
        let x = des_body_state(r);
        v.push(x);
        i = i + 1;
    }
    v
}

/// Append the images of body states, in order.
pub fn ser_body_state_run(buf: &mut Vec<u8>, v: &Vec<BodyState>)
    ensures
        final(buf)@ == old(buf)@ + body_state_run_image(v@),
{
    let mut i: usize = 0;
    while i < v.len()
        invariant
            0 <= i <= v@.len(),
            buf@ == old(buf)@ + body_state_run_image(v@.take(i as int)),
        decreases v@.len() - i,
    {
        ser_body_state(buf, &v[i]);
        i = i + 1;
        assert(v@.take(i as int).drop_last() =~= v@.take(i - 1));
        assert(buf@ =~= old(buf)@ + body_state_run_image(v@.take(i as int)));
    }
    assert(v@.take(v@.len() as int) =~= v@);
}

/// A run of body states reads back from its images.
#[verifier::spinoff_prover]
#[verifier::rlimit(40)]
pub proof fn law_body_state_run_round_trip(s: Seq<BodyState>, d: Seq<u8>, c: int)
    requires
        0 <= c,
        c + body_state_run_image(s).len() <= d.len(),
        d.subrange(c, c + body_state_run_image(s).len()) == body_state_run_image(s),
    ensures
        body_state_run_read(d, true, c, s.len()) == (s, (true, c + body_state_run_image(s).len())),
    decreases s.len(),
{
    if s.len() > 0 {
        let prev = s.drop_last();
        let p = body_state_run_image(prev);
        assert(body_state_image(s.last()).len() == 32);
        lemma_split(d, c, p, body_state_image(s.last()));
        law_body_state_run_round_trip(prev, d, c);
        law_body_state_round_trip(s.last(), d, c + p.len());
        assert(prev.push(s.last()) =~= s);
    }
}

/// `n` contact sims read in turn from `(ok, c)`.
pub open spec fn contact_sim_run_read(d: Seq<u8>, ok: bool, c: int, n: nat) -> (Seq<ContactSim>, (bool, int))
    decreases n,
{
    if n == 0 {
        (Seq::empty(), (ok, c))
    } else {
        let (prev, s) = contact_sim_run_read(d, ok, c, (n - 1) as nat);
        let (x, s2) = contact_sim_read(d, s.0, s.1);
        (prev.push(x), s2)
    }
}

/// Images of contact sims, one after the other.
pub open spec fn contact_sim_run_image(s: Seq<ContactSim>) -> Seq<u8>
    decreases s.len(),
{
    if s.len() == 0 {
        Seq::empty()
    } else {
        contact_sim_run_image(s.drop_last()) + contact_sim_image(s.last())
    }
}

/// Read `n` contact sims in turn.
pub fn read_contact_sim_run(r: &mut SnapReader, n: usize) -> (v: Vec<ContactSim>)
    ensures
        final(r).data@ == old(r).data@,
        (v@, (final(r).ok, final(r).cursor as int)) == contact_sim_run_read(old(r).data@, old(r).ok, old(r).cursor as int, n as nat),
{
    let ghost d = old(r).data@;
    let ghost s0 = (old(r).ok, old(r).cursor as int);
    let mut v: Vec<ContactSim> = Vec::new();
    let mut i: usize = 0;
    while i < n
        invariant
            0 <= i <= n,
            r.data@ == d,
            (v@, (r.ok, r.cursor as int)) == contact_sim_run_read(d, s0.0, s0.1, i as nat),
        decreases n - i,
    {
        let x = des_contact_sim(r);
        v.push(x);
        i = i + 1;
    }
    v
}

/// Append the images of contact sims, in order.
pub fn ser_contact_sim_run(buf: &mut Vec<u8>, v: &Vec<ContactSim>)
    ensures
        final(buf)@ == old(buf)@ + contact_sim_run_image(v@),
{
    let mut i: usize = 0;
    while i < v.len()
        invariant
            0 <= i <= v@.len(),
            buf@ == old(buf)@ + contact_sim_run_image(v@.take(i as int)),
        decreases v@.len() - i,
    {
        ser_contact_sim(buf, &v[i]);
        i = i + 1;
        assert(v@.take(i as int).drop_last() =~= v@.take(i - 1));
        assert(buf@ =~= old(buf)@ + contact_sim_run_image(v@.take(i as int)));
    }
    assert(v@.take(v@.len() as int) =~= v@);
}

/// A run of contact sims reads back from its images.
#[verifier::spinoff_prover]
#[verifier::rlimit(40)]
pub proof fn law_contact_sim_run_round_trip(s: Seq<ContactSim>, d: Seq<u8>, c: int)
    requires
        0 <= c,
        c + contact_sim_run_image(s).len() <= d.len(),
        d.subrange(c, c + contact_sim_run_image(s).len()) == contact_sim_run_image(s),
    ensures
        contact_sim_run_read(d, true, c, s.len()) == (s, (true, c + contact_sim_run_image(s).len())),
    decreases s.len(),
{
    if s.len() > 0 {
        let prev = s.drop_last();
        let p = contact_sim_run_image(prev);
        assert(contact_sim_image(s.last()).len() == 206);
        lemma_split(d, c, p, contact_sim_image(s.last()));
        law_contact_sim_run_round_trip(prev, d, c);
        law_contact_sim_round_trip(s.last(), d, c + p.len());
        assert(prev.push(s.last()) =~= s);
    }
}

/// `n` joint sims read in turn from `(ok, c)`.
pub open spec fn joint_sim_run_read(d: Seq<u8>, ok: bool, c: int, n: nat) -> (Seq<JointSim>, (bool, int))
    decreases n,
{
    if n == 0 {
        (Seq::empty(), (ok, c))
    } else {
        let (prev, s) = joint_sim_run_read(d, ok, c, (n - 1) as nat);
        let (x, s2) = joint_sim_read(d, s.0, s.1);
        (prev.push(x), s2)
    }
}

/// Images of joint sims, one after the other.
pub open spec fn joint_sim_run_image(s: Seq<JointSim>) -> Seq<u8>
    decreases s.len(),
{
    if s.len() == 0 {
        Seq::empty()
    } else {
        joint_sim_run_image(s.drop_last()) + joint_sim_bytes(s.last())
    }
}

/// Read `n` joint sims in turn.
pub fn read_joint_sim_run(r: &mut SnapReader, n: usize) -> (v: Vec<JointSim>)
    ensures
        final(r).data@ == old(r).data@,
        (v@, (final(r).ok, final(r).cursor as int)) == joint_sim_run_read(old(r).data@, old(r).ok, old(r).cursor as int, n as nat),
{
    let ghost d = old(r).data@;
    let ghost s0 = (old(r).ok, old(r).cursor as int);
    let mut v: Vec<JointSim> = Vec::new();
    let mut i: usize = 0;
    while i < n
        invariant
            0 <= i <= n,
            r.data@ == d,
            (v@, (r.ok, r.cursor as int)) == joint_sim_run_read(d, s0.0, s0.1, i as nat),
        decreases n - i,
    {
        let x = des_joint_sim(r);
        v.push(x);
        i = i + 1;
    }
    v
}

/// Append the images of joint sims, in order.
pub fn ser_joint_sim_run(buf: &mut Vec<u8>, v: &Vec<JointSim>)
    ensures
        final(buf)@ == old(buf)@ + joint_sim_run_image(v@),
{
    let mut i: usize = 0;
    while i < v.len()
        invariant
            0 <= i <= v@.len(),
            buf@ == old(buf)@ + joint_sim_run_image(v@.take(i as int)),
        decreases v@.len() - i,
    {
        ser_joint_sim(buf, &v[i]);
        i = i + 1;
        assert(v@.take(i as int).drop_last() =~= v@.take(i - 1));
        assert(buf@ =~= old(buf)@ + joint_sim_run_image(v@.take(i as int)));
    }
    assert(v@.take(v@.len() as int) =~= v@);
}

/// A run of joint sims reads back from its images.
#[verifier::spinoff_prover]
#[verifier::rlimit(40)]
pub proof fn law_joint_sim_run_round_trip(s: Seq<JointSim>, d: Seq<u8>, c: int)
    requires
        0 <= c,
        c + joint_sim_run_image(s).len() <= d.len(),
        d.subrange(c, c + joint_sim_run_image(s).len()) == joint_sim_run_image(s),
    ensures
        joint_sim_run_read(d, true, c, s.len()) == (s, (true, c + joint_sim_run_image(s).len())),
    decreases s.len(),
{
    if s.len() > 0 {
        let prev = s.drop_last();
        let p = joint_sim_run_image(prev);
        lemma_split(d, c, p, joint_sim_bytes(s.last()));
        law_joint_sim_run_round_trip(prev, d, c);
        law_joint_sim_round_trip(s.last(), d, c + p.len());
        assert(prev.push(s.last()) =~= s);
    }
}

/// `n` island sims read in turn from `(ok, c)`.
pub open spec fn island_sim_run_read(d: Seq<u8>, ok: bool, c: int, n: nat) -> (Seq<IslandSim>, (bool, int))
    decreases n,
{
    if n == 0 {
        (Seq::empty(), (ok, c))
    } else {
        let (prev, s) = island_sim_run_read(d, ok, c, (n - 1) as nat);
        let (x, s2) = island_sim_read(d, s.0, s.1);
        (prev.push(x), s2)
    }
}

/// Images of island sims, one after the other.
pub open spec fn island_sim_run_image(s: Seq<IslandSim>) -> Seq<u8>
    decreases s.len(),
{
    if s.len() == 0 {
        Seq::empty()
    } else {
        island_sim_run_image(s.drop_last()) + island_sim_image(s.last())
    }
}

/// Read `n` island sims in turn.
pub fn read_island_sim_run(r: &mut SnapReader, n: usize) -> (v: Vec<IslandSim>)
    ensures
        final(r).data@ == old(r).data@,
        (v@, (final(r).ok, final(r).cursor as int)) == island_sim_run_read(old(r).data@, old(r).ok, old(r).cursor as int, n as nat),
{
    let ghost d = old(r).data@;
    let ghost s0 = (old(r).ok, old(r).cursor as int);
    let mut v: Vec<IslandSim> = Vec::new();
    let mut i: usize = 0;
    while i < n
        invariant
            0 <= i <= n,
            r.data@ == d,
            (v@, (r.ok, r.cursor as int)) == island_sim_run_read(d, s0.0, s0.1, i as nat),
        decreases n - i,
    {
        let x = read_island_sim(r);
        v.push(x);
        i = i + 1;
    }
    v
}

/// Append the images of island sims, in order.
pub fn ser_island_sim_run(buf: &mut Vec<u8>, v: &Vec<IslandSim>)
    ensures
        final(buf)@ == old(buf)@ + island_sim_run_image(v@),
{
    let mut i: usize = 0;
    while i < v.len()
        invariant
            0 <= i <= v@.len(),
            buf@ == old(buf)@ + island_sim_run_image(v@.take(i as int)),
        decreases v@.len() - i,
    {
        rec_w_i32(buf, v[i].island_id);
        i = i + 1;
        assert(v@.take(i as int).drop_last() =~= v@.take(i - 1));
        assert(buf@ =~= old(buf)@ + island_sim_run_image(v@.take(i as int)));
    }
    assert(v@.take(v@.len() as int) =~= v@);
}

/// A run of island sims reads back from its images.
#[verifier::spinoff_prover]
#[verifier::rlimit(40)]
pub proof fn law_island_sim_run_round_trip(s: Seq<IslandSim>, d: Seq<u8>, c: int)
    requires
        0 <= c,
        c + island_sim_run_image(s).len() <= d.len(),
        d.subrange(c, c + island_sim_run_image(s).len()) == island_sim_run_image(s),
    ensures
        island_sim_run_read(d, true, c, s.len()) == (s, (true, c + island_sim_run_image(s).len())),
    decreases s.len(),
{
    if s.len() > 0 {
        let prev = s.drop_last();
        let p = island_sim_run_image(prev);
        assert(island_sim_image(s.last()).len() == 4);
        lemma_split(d, c, p, island_sim_image(s.last()));
        law_island_sim_run_round_trip(prev, d, c);
        law_island_sim_round_trip(s.last(), d, c + p.len());
        assert(prev.push(s.last()) =~= s);
    }
}

/// A solver set as the contracts see it: its runs as sequences.
pub struct SolverSetView {
    pub set_index: i32,
    pub body_sims: Seq<BodySim>,
    pub body_states: Seq<BodyState>,
    pub joint_sims: Seq<JointSim>,
    pub contact_sims: Seq<ContactSim>,
    pub island_sims: Seq<IslandSim>,
}

impl View for SolverSet {
    type V = SolverSetView;

    open spec fn view(&self) -> SolverSetView {
        SolverSetView {
            set_index: self.set_index,
            body_sims: self.body_sims@,
            body_states: self.body_states@,
            joint_sims: self.joint_sims@,
            contact_sims: self.contact_sims@,
            island_sims: self.island_sims@,
        }
    }
}

/// Image form of a solver set: its index, then its body sims, body states,
/// joint sims, contact sims and island sims, each run behind its count.
pub open spec fn solver_set_image(v: SolverSetView) -> Seq<u8> {
    i32_bytes(v.set_index) + i32_bytes(v.body_sims.len() as i32) + body_sim_run_image(v.body_sims) + i32_bytes(
        v.body_states.len() as i32,
    ) + body_state_run_image(v.body_states) + i32_bytes(v.joint_sims.len() as i32) + joint_sim_run_image(
        v.joint_sims,
    ) + i32_bytes(v.contact_sims.len() as i32) + contact_sim_run_image(v.contact_sims) + i32_bytes(
        v.island_sims.len() as i32,
    ) + island_sim_run_image(v.island_sims)
}

/// A solver set read at `(ok, c)`. Each run comes behind its count; a
/// count that fails the guard (at least 40, 20, 60, 80 and 4 bytes an
/// element) ends the set there, the runs after it empty, the reader bad.
pub open spec fn solver_set_read(d: Seq<u8>, ok: bool, c: int) -> (SolverSetView, (bool, int)) {
    let (set_index, s1) = i32_read(d, ok, c);
    let e = SolverSetView {
        set_index,
        body_sims: Seq::empty(),
        body_states: Seq::empty(),
        joint_sims: Seq::empty(),
        contact_sims: Seq::empty(),
        island_sims: Seq::empty(),
    };
    let (n1, s2) = i32_read(d, s1.0, s1.1);
    if !count_fits(d, s2.0, s2.1, 0, n1, 40) {
        (e, (false, s2.1))
    } else {
        let (body_sims, s3) = body_sim_run_read(d, s2.0, s2.1, n1 as nat);
        let (n2, s4) = i32_read(d, s3.0, s3.1);
        if !count_fits(d, s4.0, s4.1, 0, n2, 20) {
            (SolverSetView { body_sims, ..e }, (false, s4.1))
        } else {
            let (body_states, s5) = body_state_run_read(d, s4.0, s4.1, n2 as nat);
            let (n3, s6) = i32_read(d, s5.0, s5.1);
            if !count_fits(d, s6.0, s6.1, 0, n3, 60) {
                (SolverSetView { body_sims, body_states, ..e }, (false, s6.1))
            } else {
                let (joint_sims, s7) = joint_sim_run_read(d, s6.0, s6.1, n3 as nat);
                let (n4, s8) = i32_read(d, s7.0, s7.1);
                if !count_fits(d, s8.0, s8.1, 0, n4, 80) {
                    (SolverSetView { body_sims, body_states, joint_sims, ..e }, (false, s8.1))
                } else {
                    let (contact_sims, s9) = contact_sim_run_read(d, s8.0, s8.1, n4 as nat);
                    let (n5, s10) = i32_read(d, s9.0, s9.1);
                    if !count_fits(d, s10.0, s10.1, 0, n5, 4) {
                        (SolverSetView { body_sims, body_states, joint_sims, contact_sims, ..e }, (false, s10.1))
                    } else {
                        let (island_sims, s11) = island_sim_run_read(d, s10.0, s10.1, n5 as nat);
                        (SolverSetView { set_index, body_sims, body_states, joint_sims, contact_sims, island_sims }, s11)
                    }
                }
            }
        }
    }
}

/// Append a solver set's image. Each run must be countable in an `i32`.
#[verifier::spinoff_prover]
#[verifier::rlimit(60)]
pub fn ser_solver_set(buf: &mut Vec<u8>, set: &SolverSet)
    requires
        set.body_sims@.len() <= i32::MAX,
        set.body_states@.len() <= i32::MAX,
        set.joint_sims@.len() <= i32::MAX,
        set.contact_sims@.len() <= i32::MAX,
        set.island_sims@.len() <= i32::MAX,
    ensures
        final(buf)@ == old(buf)@ + solver_set_image(set@),
{
    let ghost v = set@;
    rec_w_i32(buf, set.set_index);
    rec_w_i32(buf, set.body_sims.len() as i32);
    ser_body_sim_run(buf, &set.body_sims);
    let ghost b1 = buf@;
    assert(b1 =~= old(buf)@ + (i32_bytes(v.set_index) + i32_bytes(v.body_sims.len() as i32) + body_sim_run_image(
        v.body_sims,
    )));
    rec_w_i32(buf, set.body_states.len() as i32);
    ser_body_state_run(buf, &set.body_states);
    let ghost b2 = buf@;
    assert(b2 =~= b1 + (i32_bytes(v.body_states.len() as i32) + body_state_run_image(v.body_states)));
    rec_w_i32(buf, set.joint_sims.len() as i32);
    ser_joint_sim_run(buf, &set.joint_sims);
    let ghost b3 = buf@;
    assert(b3 =~= b2 + (i32_bytes(v.joint_sims.len() as i32) + joint_sim_run_image(v.joint_sims)));
    rec_w_i32(buf, set.contact_sims.len() as i32);
    ser_contact_sim_run(buf, &set.contact_sims);
    let ghost b4 = buf@;
    assert(b4 =~= b3 + (i32_bytes(v.contact_sims.len() as i32) + contact_sim_run_image(v.contact_sims)));
    rec_w_i32(buf, set.island_sims.len() as i32);
    ser_island_sim_run(buf, &set.island_sims);
    assert(buf@ =~= b4 + (i32_bytes(v.island_sims.len() as i32) + island_sim_run_image(v.island_sims)));
    assert(buf@ =~= old(buf)@ + solver_set_image(set@));
}

/// Read a solver set from its image.
#[verifier::spinoff_prover]
#[verifier::rlimit(60)]
pub fn des_solver_set(r: &mut SnapReader) -> (set: SolverSet)
    ensures
        final(r).data@ == old(r).data@,
        (set@, (final(r).ok, final(r).cursor as int)) == solver_set_read(old(r).data@, old(r).ok, old(r).cursor as int),
{
    let set_index = read_i32(r);
    let mut set = SolverSet {
        set_index,
        body_sims: Vec::new(),
        body_states: Vec::new(),
        joint_sims: Vec::new(),
        contact_sims: Vec::new(),
        island_sims: Vec::new(),
    };
    let n = read_i32(r);
    if !r.check_count(n, 40) {
        return set;
    }
    set.body_sims = read_body_sim_run(r, n as usize);
    let n = read_i32(r);
    if !r.check_count(n, 20) {
        return set;
    }
    set.body_states = read_body_state_run(r, n as usize);
    let n = read_i32(r);
    if !r.check_count(n, 60) {
        return set;
    }
    set.joint_sims = read_joint_sim_run(r, n as usize);
    let n = read_i32(r);
    if !r.check_count(n, 80) {
        return set;
    }
    set.contact_sims = read_contact_sim_run(r, n as usize);
    let n = read_i32(r);
    if !r.check_count(n, 4) {
        return set;
    }
    set.island_sims = read_island_sim_run(r, n as usize);
    set
}

} // verus!
