use vstd::prelude::*;
use super::body_ops::{body_command_read, read_body_command, BodyCommand, BodyCommandView};
use super::chain_ops::{chain_create_read, read_chain_create, ChainCreate, ChainDefReadView};
use super::joint_ops::{joint_command_read, read_joint_command, JointCommand};
use super::decode::{aabb_read, i32_read, lemma_split, lemma_u32_read_back, lemma_u64_read_back, r_aabb, read_i32, read_u32, read_u64, u32_read, u64_read_at};
use super::{frame_bytes, law_frame_read_back};
use crate::id::WorldId;
use crate::write::{u64_bytes, world_id_bytes};
use super::ops::{OP_CREATE_CHAIN, OP_DESTROY_WORLD, OP_RECORDING_BOUNDS, OP_STATE_HASH, OP_STEP};
use super::read_record_frame;
use crate::geometry::{Aabb, Vec2};
use crate::write::le_value;
use super::query_ops::{query_record_read, read_query_record, QueryRecord, QueryRecordView};
use super::shape_ops::{read_shape_command, shape_command_read, ShapeCommand};
use super::world_ops::{read_world_command, world_command_read, WorldCommand};
use crate::id::{BodyId, ChainId, JointId, ShapeId};
use super::read::{body_ids_match, chain_ids_match, ids_match, shape_ids_match};
use crate::snapshot::SnapReader;

verus! {

/// A mutation or query record read back for replay: the call it recorded.
#[derive(Debug)]
pub enum Command {
    World(WorldCommand),
    Body(BodyCommand),
    Shape(ShapeCommand),
    CreateChain(ChainCreate),
    Joint(JointCommand),
    Query(QueryRecord),
}

/// A recorded call as the contracts see it.
pub enum CommandView {
    World(WorldCommand),
    Body(BodyCommandView),
    Shape(ShapeCommand),
    CreateChain { body: BodyId, def: ChainDefReadView, id: ChainId },
    Joint(JointCommand),
    Query(QueryRecordView),
}

impl View for Command {
    type V = CommandView;

    open spec fn view(&self) -> CommandView {
        match self {
            Command::World(x) => CommandView::World(*x),
            Command::Body(x) => CommandView::Body(x@),
            Command::Shape(x) => CommandView::Shape(*x),
            Command::CreateChain(x) => CommandView::CreateChain { body: x.body, def: x.def@, id: x.id },
            Command::Joint(x) => CommandView::Joint(*x),
            Command::Query(x) => CommandView::Query(x@),
        }
    }
}

/// The call a record under `opcode` holds, read at `(ok, c)`: the families
/// are asked in turn, world, body, shape and chain, joint, query; `None`
/// when none knows the opcode.
pub open spec fn command_read(opcode: u8, d: Seq<u8>, ok: bool, c: int) -> Option<(CommandView, (bool, int))> {
    match world_command_read(opcode, d, ok, c) {
        Some((x, s)) => Some((CommandView::World(x), s)),
        None => match body_command_read(opcode, d, ok, c) {
            Some((x, s)) => Some((CommandView::Body(x), s)),
            None => if opcode == OP_CREATE_CHAIN {
                let (body, def, id, s) = chain_create_read(d, ok, c);
                Some((CommandView::CreateChain { body, def, id }, s))
            } else {
                match shape_command_read(opcode, d, ok, c) {
                    Some((x, s)) => Some((CommandView::Shape(x), s)),
                    None => match joint_command_read(opcode, d, ok, c) {
                        Some((x, s)) => Some((CommandView::Joint(x), s)),
                        None => match query_record_read(opcode, d, ok, c) {
                            Some((x, s)) => Some((CommandView::Query(x), s)),
                            None => None,
                        },
                    },
                }
            },
        },
    }
}

/// Read the call a record holds, its opcode already read. `None`, with the
/// reader untouched, when no family knows the opcode; such a record is
/// skipped by its framed size.
pub fn read_command(opcode: u8, r: &mut SnapReader) -> (cmd: Option<Command>)
    ensures
        final(r).data@ == old(r).data@,
        match command_read(opcode, old(r).data@, old(r).ok, old(r).cursor as int) {
            Some((x, s)) => cmd is Some && cmd->0@ == x && (final(r).ok, final(r).cursor as int) == s,
            None => cmd is None && final(r).ok == old(r).ok && final(r).cursor == old(r).cursor,
        },
{
    if let Some(x) = read_world_command(opcode, r) {
        return Some(Command::World(x));
    }
    if let Some(x) = read_body_command(opcode, r) {
        return Some(Command::Body(x));
    }
    if opcode == OP_CREATE_CHAIN {
        return Some(Command::CreateChain(read_chain_create(r)));
    }
    if let Some(x) = read_shape_command(opcode, r) {
        return Some(Command::Shape(x));
    }
    if let Some(x) = read_joint_command(opcode, r) {
        return Some(Command::Joint(x));
    }
    if let Some(x) = read_query_record(opcode, r) {
        return Some(Command::Query(x));
    }
    None
}

/// What a replay of an op stream found: the steps run, the state hashes
/// checked, whether any check or recorded call failed to reproduce, whether
/// the stream read cleanly to its end or to the session's end record, and
/// the bounds record. Real values are IEEE-754 single precision bit
/// patterns.
#[derive(Clone, Copy, Debug, PartialEq, Eq, Structural)]
pub struct ReplayResult {
    pub steps: i32,
    pub hash_checks: i32,
    pub diverged: bool,
    pub ok: bool,
    pub bounds: Aabb,
    pub have_bounds: bool,
}

impl ReplayResult {
    /// Nothing found yet.
    pub fn new() -> (r: ReplayResult)
        ensures
            r == replay_result_start(),
    {
        ReplayResult {
            steps: 0,
            hash_checks: 0,
            diverged: false,
            ok: false,
            bounds: Aabb { lower_bound: Vec2 { x: 0, y: 0 }, upper_bound: Vec2 { x: 0, y: 0 } },
            have_bounds: false,
        }
    }

    /// Whether the replay validates the recording: it read cleanly and
    /// nothing diverged.
    pub fn validated(&self) -> (b: bool)
        ensures
            b == (self.ok && !self.diverged),
    {
        self.ok && !self.diverged
    }
}

/// A replay result with nothing found.
pub open spec fn replay_result_start() -> ReplayResult {
    ReplayResult {
        steps: 0,
        hash_checks: 0,
        diverged: false,
        ok: false,
        bounds: Aabb { lower_bound: Vec2 { x: 0, y: 0 }, upper_bound: Vec2 { x: 0, y: 0 } },
        have_bounds: false,
    }
}

/// Where a replay of an op stream stands: the start of the next record,
/// whether the stream still reads cleanly, what was found so far, whether
/// the replay is over, and the hash the last state hash record holds.
#[derive(Clone, Copy, Debug, PartialEq, Eq, Structural)]
pub struct ReplayProgress {
    pub cursor: usize,
    pub reading: bool,
    pub result: ReplayResult,
    pub finished: bool,
    pub recorded_hash: u64,
}

/// What the replay asks of the world next. The world's own work (stepping,
/// hashing its state, performing a recorded call) is done by the caller,
/// which reports back.
#[derive(Debug)]
pub enum ReplayAction {
    /// Step the world, then report with `replay_stepped`.
    Step { dt: u32, sub_step_count: i32 },
    /// Hash the world's state and report it with `replay_hashed`.
    HashState,
    /// Perform the recorded call and report with `replay_applied` whether it
    /// reproduced: a create returned the recorded id, a query the recorded
    /// results; any other call reproduces.
    Apply(Command),
    /// The replay is over; its result is final.
    Finished,
}

/// What the replay asks next, as the contracts see it.
pub enum ReplayActionView {
    Step { dt: u32, sub_step_count: i32 },
    HashState,
    Apply(CommandView),
    Finished,
}

impl View for ReplayAction {
    type V = ReplayActionView;

    open spec fn view(&self) -> ReplayActionView {
        match self {
            ReplayAction::Step { dt, sub_step_count } => ReplayActionView::Step { dt: *dt, sub_step_count: *sub_step_count },
            ReplayAction::HashState => ReplayActionView::HashState,
            ReplayAction::Apply(c) => ReplayActionView::Apply(c@),
            ReplayAction::Finished => ReplayActionView::Finished,
        }
    }
}

/// A replay at the start of an op stream.
pub open spec fn replay_start() -> ReplayProgress {
    ReplayProgress { cursor: 0, reading: true, result: replay_result_start(), finished: false, recorded_hash: 0 }
}

/// Whether a whole record (opcode, 24-bit payload size, payload) starts at
/// `c`.
pub open spec fn record_fits(d: Seq<u8>, c: int) -> bool {
    c + 4 <= d.len() && c + 4 + le_value(d.subrange(c + 1, c + 4)) <= d.len()
}

/// Where the record at `c` ends.
pub open spec fn record_end(d: Seq<u8>, c: int) -> int {
    c + 4 + le_value(d.subrange(c + 1, c + 4))
}

/// The replay of op stream `d` from `p` up to the next thing the world must
/// do. Records are read one after the other; a record's arguments are read
/// from its payload on (a short payload reads on into what follows, and
/// the next record still starts where the framing says). Step and state
/// hash records ask the world; a bounds record is kept; the session's end
/// record ends the replay as read cleanly; a recorded call is handed out,
/// save a query record that did not read cleanly, which diverges; a record
/// no family knows is skipped. The replay ends, as read cleanly or not, when
/// the stream ends or stops reading cleanly, and ends as it stands when a
/// record does not fit.
pub open spec fn replay_advance(d: Seq<u8>, p: ReplayProgress) -> (ReplayActionView, ReplayProgress)
    decreases d.len() - p.cursor,
    when d.len() <= usize::MAX
{
    if p.finished {
        (ReplayActionView::Finished, p)
    } else if !(p.reading && p.cursor < d.len()) {
        (ReplayActionView::Finished, ReplayProgress { finished: true, result: ReplayResult { ok: p.reading, ..p.result }, ..p })
    } else if !record_fits(d, p.cursor as int) {
        (ReplayActionView::Finished, ReplayProgress { finished: true, reading: p.cursor + 4 <= d.len(), ..p })
    } else {
        let c = p.cursor as int;
        let op = d[c];
        let ps = c + 4;
        let pe = record_end(d, c);
        if op == OP_STEP {
            let (_w, s1) = u32_read(d, true, ps);
            let (dt, s2) = u32_read(d, s1.0, s1.1);
            let (sub_step_count, s3) = i32_read(d, s2.0, s2.1);
            (ReplayActionView::Step { dt, sub_step_count }, ReplayProgress { cursor: pe as usize, reading: s3.0, ..p })
        } else if op == OP_STATE_HASH {
            let (_w, s1) = u32_read(d, true, ps);
            let (recorded, s2) = u64_read_at(d, s1.0, s1.1);
            (ReplayActionView::HashState, ReplayProgress { cursor: pe as usize, reading: s2.0, recorded_hash: recorded, ..p })
        } else if op == OP_RECORDING_BOUNDS {
            let (bounds, s) = aabb_read(d, true, ps);
            replay_advance(
                d,
                ReplayProgress {
                    cursor: pe as usize,
                    reading: s.0,
                    result: ReplayResult { bounds, have_bounds: true, ..p.result },
                    ..p
                },
            )
        } else if op == OP_DESTROY_WORLD {
            (ReplayActionView::Finished, ReplayProgress { finished: true, result: ReplayResult { ok: true, ..p.result }, ..p })
        } else {
            match command_read(op, d, true, ps) {
                None => replay_advance(d, ReplayProgress { cursor: pe as usize, ..p }),
                Some((cmd, s)) => if cmd is Query && !s.0 {
                    replay_advance(
                        d,
                        ReplayProgress {
                            cursor: pe as usize,
                            reading: false,
                            result: ReplayResult { diverged: true, ..p.result },
                            ..p
                        },
                    )
                } else {
                    (ReplayActionView::Apply(cmd), ReplayProgress { cursor: pe as usize, reading: s.0, ..p })
                },
            }
        }
    }
}

/// Replay the one record at the cursor of a replay that is not over and
/// still reads: the action it asks for, or `None` when replay goes on to
/// the next record.
fn replay_record(p: &mut ReplayProgress, stream: &[u8]) -> (a: Option<ReplayAction>)
    requires
        !old(p).finished,
        old(p).reading,
        old(p).cursor < stream@.len(),
    ensures
        final(p).cursor <= stream@.len(),
        match a {
            Some(x) => (x@, *final(p)) == replay_advance(stream@, *old(p)),
            None => {
                &&& replay_advance(stream@, *final(p)) == replay_advance(stream@, *old(p))
                &&& final(p).cursor > old(p).cursor
            },
        },
{
    let len = stream.len();
    let ghost d = stream@;
    assert(d.len() == len);
    let mut r = SnapReader { data: stream, cursor: p.cursor, ok: true };
    let frame = read_record_frame(&mut r);
    let frame = match frame {
        Some(f) => f,
        None => {
            p.finished = true;
            p.reading = r.ok;
            return Some(ReplayAction::Finished);
        },
    };
    let payload_start = r.cursor;
    let payload_end = payload_start + frame.payload_size;
    let opcode = frame.opcode;
    assert(record_fits(d, old(p).cursor as int));
    assert(payload_end as int == record_end(d, old(p).cursor as int));
    assert(opcode == d[old(p).cursor as int]);
    if opcode == OP_STEP {
        let _world = read_u32(&mut r);
        let dt = read_u32(&mut r);
        let sub_step_count = read_i32(&mut r);
        p.cursor = payload_end;
        p.reading = r.ok;
        Some(ReplayAction::Step { dt, sub_step_count })
    } else if opcode == OP_STATE_HASH {
        let _world = read_u32(&mut r);
        let recorded = read_u64(&mut r);
        p.cursor = payload_end;
        p.reading = r.ok;
        p.recorded_hash = recorded;
        Some(ReplayAction::HashState)
    } else if opcode == OP_RECORDING_BOUNDS {
        let bounds = r_aabb(&mut r);
        p.cursor = payload_end;
        p.reading = r.ok;
        p.result.bounds = bounds;
        p.result.have_bounds = true;
        None
    } else if opcode == OP_DESTROY_WORLD {
        p.result.ok = true;
        p.finished = true;
        Some(ReplayAction::Finished)
    } else {
        let cmd = read_command(opcode, &mut r);
        match cmd {
            None => {
                p.cursor = payload_end;
                None
            },
            Some(c) => {
                let is_query = match c {
                    Command::Query(_) => true,
                    _ => false,
                };
                if is_query && !r.ok {
                    p.cursor = payload_end;
                    p.reading = false;
                    p.result.diverged = true;
                    None
                } else {
                    p.cursor = payload_end;
                    p.reading = r.ok;
                    Some(ReplayAction::Apply(c))
                }
            },
        }
    }
}

/// Advance the replay of op stream `stream` to the next thing the world
/// must do, and say what it is.
pub fn replay_next(p: &mut ReplayProgress, stream: &[u8]) -> (a: ReplayAction)
    requires
        old(p).cursor <= stream@.len(),
    ensures
        (a@, *final(p)) == replay_advance(stream@, *old(p)),
        final(p).cursor <= stream@.len(),
{
    let len = stream.len();
    loop
        invariant
            len == stream@.len(),
            p.cursor <= stream@.len(),
            replay_advance(stream@, *p) == replay_advance(stream@, *old(p)),
        decreases stream@.len() - p.cursor,
    {
        if p.finished {
            return ReplayAction::Finished;
        }
        if !(p.reading && p.cursor < len) {
            p.result.ok = p.reading;
            p.finished = true;
            return ReplayAction::Finished;
        }
        match replay_record(p, stream) {
            Some(a) => {
                return a;
            },
            None => {},
        }
    }
}

/// The world stepped as asked: one more step.
pub fn replay_stepped(p: &mut ReplayProgress)
    requires
        old(p).result.steps < i32::MAX,
    ensures
        *final(p) == (ReplayProgress { result: ReplayResult { steps: (old(p).result.steps + 1) as i32, ..old(p).result }, ..*old(p) }),
{
    p.result.steps = p.result.steps + 1;
}

/// The world's state hash, held to the one the last state hash record
/// holds: one more check, and a divergence when they differ. Replay goes on
/// past a divergence, so a viewer can show where it begins.
pub fn replay_hashed(p: &mut ReplayProgress, computed: u64)
    requires
        old(p).result.hash_checks < i32::MAX,
    ensures
        *final(p) == (ReplayProgress {
            result: ReplayResult {
                hash_checks: (old(p).result.hash_checks + 1) as i32,
                diverged: old(p).result.diverged || computed != old(p).recorded_hash,
                ..old(p).result
            },
            ..*old(p)
        }),
{
    p.result.hash_checks = p.result.hash_checks + 1;
    if computed != p.recorded_hash {
        p.result.diverged = true;
    }
}

/// Whether the recorded call just performed reproduced; one that did not
/// (a create with another id, a query with other results) diverges.
pub fn replay_applied(p: &mut ReplayProgress, reproduced: bool)
    ensures
        *final(p) == (ReplayProgress {
            result: ReplayResult { diverged: old(p).result.diverged || !reproduced, ..old(p).result },
            ..*old(p)
        }),
{
    if !reproduced {
        p.result.diverged = true;
    }
}

/// A replay at the start of an op stream.
pub fn replay_begin() -> (p: ReplayProgress)
    ensures
        p == replay_start(),
{
    ReplayProgress { cursor: 0, reading: true, result: ReplayResult::new(), finished: false, recorded_hash: 0 }
}

/// A divergence, once found, is never undone: replaying on to the next
/// thing the world must do keeps it, as do the world's reports.
pub proof fn law_divergence_sticks(d: Seq<u8>, p: ReplayProgress)
    requires
        d.len() <= usize::MAX,
        p.result.diverged,
    ensures
        replay_advance(d, p).1.result.diverged,
    decreases d.len() - p.cursor,
{
    if !p.finished && p.reading && p.cursor < d.len() && record_fits(d, p.cursor as int) {
        let c = p.cursor as int;
        let op = d[c];
        let ps = c + 4;
        let pe = record_end(d, c);
        if op == OP_RECORDING_BOUNDS {
            let (bounds, s) = aabb_read(d, true, ps);
            law_divergence_sticks(
                d,
                ReplayProgress {
                    cursor: pe as usize,
                    reading: s.0,
                    result: ReplayResult { bounds, have_bounds: true, ..p.result },
                    ..p
                },
            );
        } else if op != OP_STEP && op != OP_STATE_HASH && op != OP_DESTROY_WORLD {
            match command_read(op, d, true, ps) {
                None => law_divergence_sticks(d, ReplayProgress { cursor: pe as usize, ..p }),
                Some((cmd, s)) => if cmd is Query && !s.0 {
                    law_divergence_sticks(
                        d,
                        ReplayProgress {
                            cursor: pe as usize,
                            reading: false,
                            result: ReplayResult { diverged: true, ..p.result },
                            ..p
                        },
                    );
                },
            }
        }
    }
}

/// A replay that is over stays over: asking again changes nothing.
pub proof fn law_finished_replay_stays_finished(d: Seq<u8>, p: ReplayProgress)
    requires
        d.len() <= usize::MAX,
    ensures
        replay_advance(d, p).1.finished ==> replay_advance(d, replay_advance(d, p).1) == (
            ReplayActionView::Finished,
            replay_advance(d, p).1,
        ),
{
}

/// The id the world returned for a replayed create call.
#[derive(Clone, Copy, Debug, PartialEq, Eq, Structural)]
pub enum CreatedId {
    Body(BodyId),
    Shape(ShapeId),
    Chain(ChainId),
    Joint(JointId),
}

/// The index and generation of the id a recorded create call returned, or
/// `None` for a call that creates nothing.
pub open spec fn recorded_create_id(cmd: CommandView) -> Option<(i32, u16)> {
    match cmd {
        CommandView::Body(BodyCommandView::Create { id, .. }) => Some((id.index1, id.generation)),
        CommandView::Shape(ShapeCommand::Create { id, .. }) => Some((id.index1, id.generation)),
        CommandView::CreateChain { id, .. } => Some((id.index1, id.generation)),
        CommandView::Joint(JointCommand::Create { id, .. }) => Some((id.index1, id.generation)),
        _ => None,
    }
}

/// The index and generation of a created id.
pub open spec fn created_index_generation(c: CreatedId) -> (i32, u16) {
    match c {
        CreatedId::Body(id) => (id.index1, id.generation),
        CreatedId::Shape(id) => (id.index1, id.generation),
        CreatedId::Chain(id) => (id.index1, id.generation),
        CreatedId::Joint(id) => (id.index1, id.generation),
    }
}

/// Whether a created id is of the kind a create command makes.
pub open spec fn created_kind_fits(cmd: CommandView, c: CreatedId) -> bool {
    match cmd {
        CommandView::Body(_) => c is Body,
        CommandView::Shape(_) => c is Shape,
        CommandView::CreateChain { .. } => c is Chain,
        CommandView::Joint(_) => c is Joint,
        _ => false,
    }
}

/// Whether a replayed create call reproduced its recording: the world gave
/// back an id of the recorded index and generation (the world part is not
/// compared). A create that comes back with another id means the replay is
/// not deterministic.
pub fn create_reproduced(cmd: &Command, created: CreatedId) -> (b: bool)
    requires
        recorded_create_id(cmd@) is Some,
        created_kind_fits(cmd@, created),
    ensures
        b == (created_index_generation(created) == recorded_create_id(cmd@)->0),
{
    match (cmd, created) {
        (Command::Body(BodyCommand::Create { id, .. }), CreatedId::Body(c)) => body_ids_match(c, *id),
        (Command::Shape(ShapeCommand::Create { id, .. }), CreatedId::Shape(c)) => shape_ids_match(c, *id),
        (Command::CreateChain(cc), CreatedId::Chain(c)) => chain_ids_match(c, cc.id),
        (Command::Joint(JointCommand::Create { id, .. }), CreatedId::Joint(c)) => ids_match(c, *id),
        _ => false,
    }
}

/// A state hash record as `write_state_hash` frames it hands the world a
/// hash check, and the replay holds the recorded hash to compare the
/// world's against, reading on cleanly after the record.
pub proof fn law_replay_reads_state_hash(prefix: Seq<u8>, world_id: WorldId, hash: u64, rest: Seq<u8>, p: ReplayProgress)
    requires
        !p.finished,
        p.reading,
        p.cursor == prefix.len(),
        (prefix + frame_bytes(OP_STATE_HASH, world_id_bytes(world_id) + u64_bytes(hash)) + rest).len() <= usize::MAX,
    ensures
        ({
            let d = prefix + frame_bytes(OP_STATE_HASH, world_id_bytes(world_id) + u64_bytes(hash)) + rest;
            replay_advance(d, p) == (ReplayActionView::HashState, ReplayProgress {
                cursor: (prefix.len() + 16) as usize,
                reading: true,
                recorded_hash: hash,
                ..p
            })
        }),
{
    let payload = world_id_bytes(world_id) + u64_bytes(hash);
    let d = prefix + frame_bytes(OP_STATE_HASH, payload) + rest;
    let c = prefix.len() as int;
    assert(u64_bytes(hash).len() == 8) by {
        crate::containers::lemma_u64_round_trip(hash);
    }
    assert(world_id_bytes(world_id).len() == 4) by {
        crate::snapshot::lemma_u32_round_trip(crate::id::pack_world_id(world_id));
    }
    law_frame_read_back(prefix, OP_STATE_HASH, payload, rest);
    lemma_split(d, c + 4, world_id_bytes(world_id), u64_bytes(hash));
    lemma_u32_read_back(crate::id::pack_world_id(world_id), d, c + 4);
    lemma_u64_read_back(hash, d, c + 8);
}

/// A replay that reads a state hash record and is then handed the very
/// hash that was recorded does not diverge for it: replaying a recording
/// of a deterministic world validates.
pub proof fn law_recorded_hash_validates(prefix: Seq<u8>, world_id: WorldId, hash: u64, rest: Seq<u8>, p: ReplayProgress)
    requires
        !p.finished,
        p.reading,
        !p.result.diverged,
        p.cursor == prefix.len(),
        (prefix + frame_bytes(OP_STATE_HASH, world_id_bytes(world_id) + u64_bytes(hash)) + rest).len() <= usize::MAX,
    ensures
        ({
            let d = prefix + frame_bytes(OP_STATE_HASH, world_id_bytes(world_id) + u64_bytes(hash)) + rest;
            let q = replay_advance(d, p).1;
            &&& q.recorded_hash == hash
            &&& !q.result.diverged
        }),
{
    law_replay_reads_state_hash(prefix, world_id, hash, rest, p);
}

} // verus!
