# lib: verified parts of a 2D rigid-body physics library

This crate holds the integer and byte-level logic of a 2D physics engine,
written in Verus and proved against its contracts: the world's shape, chain,
joint and sensor tables and their accessors, the recording format (framing,
op writers, readers, the recording header and the scan a player makes before
replay), and the snapshot image of world records. Every real value is held
as its IEEE-754 single precision bit pattern, so the library stores, copies
and serializes reals exactly and proves that it does; arithmetic on the reals
themselves lives in `app/`.

## Layout

- `src/` — the verified library.
  - `geometry.rs`, `types.rs`, `id.rs`, `scalar.rs` — value types, ids and
    their packing, integer helpers.
  - `shape.rs`, `shape_api.rs`, `chain.rs`, `sensor.rs`, `world.rs` — world
    tables and the shape, chain and sensor accessors.
  - `joint.rs`, `prismatic_joint.rs`, `revolute_joint.rs`, `motor_joint.rs` —
    joints, their per-type state, setters and getters.
  - `write.rs` — the little-endian wire form of every recorded value.
  - `recording/` — record framing and the recording header (`mod.rs`), the op
    writers (`ops.rs`), readers of recorded values (`decode.rs`, `read.rs`,
    `joint_defs.rs`), the query recorder (`query.rs`), the records read back
    as the calls they recorded, family by family (`world_ops.rs`,
    `body_ops.rs`, `shape_ops.rs`, `chain_ops.rs`, `joint_ops.rs`,
    `query_ops.rs`), the replayed shape, chain and joint setters performed on
    the world (`apply.rs`, `apply_joint.rs`), the replay of an op stream as a state machine that asks
    the world to step, hash and perform each call (`replay.rs`), and for a replay
    player the pre-replay scan (`scan.rs`), the per-frame query store
    (`stash.rs`) and the keyframe ring that bounds the memory of its restore
    points (`keyframes.rs`).
  - `snapshot.rs`, `snapshot_structs.rs`, `snapshot_joints.rs`,
    `snapshot_shapes.rs`, `snapshot_bodies.rs`, `snapshot_tree.rs`,
    `snapshot_world.rs`, `containers.rs` — the snapshot header, reader and the
    images of world records, solver sets, trees, settings and containers.
  - `world_image.rs`, `world_restore.rs` — the image of a whole world, and a
    restore that reads an image into fresh storage and changes the world only
    when all of it reads back; seeding a replay from a recording's image.
  - `world_hash.rs` — the state hash and the deep state hash that recording
    and replay compare.
  - `world_law.rs` — that a world's image reads back as the world, record
    by record, table by table and whole, and that a world holding another's
    image has its state hash and deep state hash.
- `tests/` — tests of the library, run against the compiled crate.
- `app/` — floating-point math on the library's types, type-checked only.

The public proof functions named `law_*` state what holds across calls: that
each image and record, and a whole world's image, reads back what was written, that each recorded call replays as itself, that setters read back
through getters, and that switches are idempotent.
