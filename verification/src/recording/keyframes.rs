use vstd::prelude::*;
use crate::id::BodyId;

verus! {

// The keyframe ring of a replay player: restore points captured while the
// replay plays forward, so a backward seek re-simulates only the gap from
// the nearest one. A memory budget caps the bytes kept: the spacing starts
// at a minimum and doubles, dropping the keyframes off the coarser grid,
// when the next keyframe would not fit.

/// Spacing, in frames, a ring starts with.
pub const KEYFRAME_INTERVAL_DEFAULT: i32 = 16;

/// Bytes a ring may keep unless told otherwise.
pub const KEYFRAME_BUDGET_DEFAULT: usize = 512 * 1024 * 1024;

/// The largest frame a keyframe may be captured at: spacings double up to
/// the frames kept, and must stay within `i32`.
pub const KEYFRAME_FRAME_LIMIT: i32 = 1073741823;

/// A restore point: the world image at the end of a frame, where the op
/// stream resumes, the body list of that frame and the divergence state.
#[derive(Debug)]
pub struct Keyframe {
    pub image: Vec<u8>,
    pub frame: i32,
    pub cursor: usize,
    pub body_ids: Vec<BodyId>,
    pub diverge_frame: i32,
    pub diverged: bool,
}

/// The bytes a keyframe holds: its image and its body list.
pub open spec fn keyframe_size(kf: Keyframe) -> int {
    kf.image@.len() + kf.body_ids@.len() * (vstd::layout::size_of::<BodyId>() as int)
}

/// The bytes a run of keyframes holds.
pub open spec fn total_size(ks: Seq<Keyframe>) -> int
    decreases ks.len(),
{
    if ks.len() == 0 {
        0
    } else {
        total_size(ks.drop_last()) + keyframe_size(ks.last())
    }
}

/// Whether a keyframe lies on the grid of this spacing.
pub open spec fn on_grid_at(interval: int) -> spec_fn(Keyframe) -> bool {
    |kf: Keyframe| (kf.frame as int) % interval == 0
}

/// The keyframes of a run that lie on the grid of this spacing, in order.
pub open spec fn on_grid(ks: Seq<Keyframe>, interval: int) -> Seq<Keyframe> {
    ks.filter(on_grid_at(interval))
}

/// Room for a keyframe of `new_size` bytes under `budget`: while keyframes
/// are kept and they and the new one exceed the budget, the spacing doubles
/// and the keyframes off the new grid are dropped; a doubling that drops
/// nothing ends it. The kept keyframes and the final spacing.
pub open spec fn evict(ks: Seq<Keyframe>, interval: int, new_size: int, budget: int) -> (Seq<Keyframe>, int)
    decreases ks.len(),
{
    if ks.len() == 0 || total_size(ks) + new_size <= budget {
        (ks, interval)
    } else {
        let kept = on_grid(ks, interval * 2);
        proof {
            ks.lemma_filter_len(on_grid_at(interval * 2));
        }
        if kept.len() == ks.len() {
            (kept, interval * 2)
        } else {
            evict(kept, interval * 2, new_size, budget)
        }
    }
}

/// Keyframes in strictly increasing frame order, each at a frame from one
/// to `limit`.
pub open spec fn frames_ok(ks: Seq<Keyframe>, limit: int) -> bool {
    &&& forall|i: int, j: int| 0 <= i < j < ks.len() ==> ks[i].frame < ks[j].frame
    &&& forall|i: int| 0 <= i < ks.len() ==> 1 <= #[trigger] ks[i].frame <= limit
}

/// What a prefix of a run keeps on a grid: the grid of the shorter prefix,
/// and the next keyframe if it lies on the grid.
proof fn lemma_on_grid_take(ks: Seq<Keyframe>, interval: int, n: int)
    requires
        0 <= n < ks.len(),
    ensures
        on_grid(ks.take(n + 1), interval) == if (ks[n].frame as int) % interval == 0 {
            on_grid(ks.take(n), interval).push(ks[n])
        } else {
            on_grid(ks.take(n), interval)
        },
{
    reveal(Seq::filter);
    assert(ks.take(n + 1).drop_last() =~= ks.take(n));
}

/// Every keyframe kept on a grid comes from the run it was taken from.
proof fn lemma_on_grid_from(ks: Seq<Keyframe>, interval: int)
    ensures
        forall|i: int|
            0 <= i < on_grid(ks, interval).len() ==> exists|j: int|
                0 <= j < ks.len() && #[trigger] on_grid(ks, interval)[i] == ks[j],
        forall|i: int|
            0 <= i < on_grid(ks, interval).len() ==> (#[trigger] on_grid(ks, interval)[i].frame as int) % interval == 0,
        on_grid(ks, interval).len() <= ks.len(),
    decreases ks.len(),
{
    reveal(Seq::filter);
    if ks.len() > 0 {
        let rest = ks.drop_last();
        lemma_on_grid_from(rest, interval);
        let g = on_grid(ks, interval);
        let gr = on_grid(rest, interval);
        assert forall|i: int| 0 <= i < g.len() implies exists|j: int| 0 <= j < ks.len() && #[trigger] g[i] == ks[j] by {
            if i < gr.len() {
                let j = choose|j: int| 0 <= j < rest.len() && gr[i] == rest[j];
                assert(g[i] == ks[j]);
            } else {
                assert(g[i] == ks[ks.len() - 1]);
            }
        }
        assert forall|i: int| 0 <= i < g.len() implies #[trigger] (g[i].frame as int) % interval == 0 by {
            if i < gr.len() {
                assert(g[i] == gr[i]);
            }
        }
    }
}

/// Keeping the keyframes on a grid keeps their order and their frames.
proof fn lemma_on_grid_frames_ok(ks: Seq<Keyframe>, interval: int, limit: int)
    requires
        frames_ok(ks, limit),
    ensures
        frames_ok(on_grid(ks, interval), limit),
    decreases ks.len(),
{
    reveal(Seq::filter);
    if ks.len() > 0 {
        let rest = ks.drop_last();
        assert(frames_ok(rest, limit));
        lemma_on_grid_frames_ok(rest, interval, limit);
        lemma_on_grid_from(rest, interval);
        let g = on_grid(ks, interval);
        let gr = on_grid(rest, interval);
        if (ks.last().frame as int) % interval == 0 {
            assert forall|i: int| 0 <= i < gr.len() implies #[trigger] gr[i].frame < ks.last().frame by {
                let j = choose|j: int| 0 <= j < rest.len() && gr[i] == rest[j];
                assert(rest[j] == ks[j]);
            }
            assert forall|i: int, j: int| 0 <= i < j < g.len() implies g[i].frame < g[j].frame by {
                if j == g.len() - 1 {
                    assert(g[i] == gr[i]);
                } else {
                    assert(g[i] == gr[i]);
                    assert(g[j] == gr[j]);
                }
            }
            assert forall|i: int| 0 <= i < g.len() implies 1 <= #[trigger] g[i].frame <= limit by {
                if i < gr.len() {
                    assert(g[i] == gr[i]);
                }
            }
        }
    }
}

/// Keeping the keyframes on a grid keeps no more bytes than before.
proof fn lemma_on_grid_size(ks: Seq<Keyframe>, interval: int)
    ensures
        total_size(on_grid(ks, interval)) <= total_size(ks),
    decreases ks.len(),
{
    reveal(Seq::filter);
    if ks.len() > 0 {
        lemma_on_grid_size(ks.drop_last(), interval);
        lemma_size_nonneg(ks.last());
        let g = on_grid(ks, interval);
        if (ks.last().frame as int) % interval == 0 {
            assert(g.drop_last() =~= on_grid(ks.drop_last(), interval));
        }
    }
}

/// A keyframe holds no negative number of bytes.
proof fn lemma_size_nonneg(kf: Keyframe)
    ensures
        keyframe_size(kf) >= 0,
{
    assert(kf.body_ids@.len() * (vstd::layout::size_of::<BodyId>() as int) >= 0) by (nonlinear_arith);
}

/// A run holds at least the bytes of each of its prefixes.
proof fn lemma_total_take(ks: Seq<Keyframe>, n: int)
    requires
        0 <= n < ks.len(),
    ensures
        total_size(ks.take(n + 1)) == total_size(ks.take(n)) + keyframe_size(ks[n]),
{
    assert(ks.take(n + 1).drop_last() =~= ks.take(n));
}

/// Every prefix holds at most the bytes of the whole run.
proof fn lemma_total_prefix(ks: Seq<Keyframe>, n: int)
    requires
        0 <= n <= ks.len(),
    ensures
        total_size(ks.take(n)) <= total_size(ks),
        total_size(ks.take(n)) >= 0,
    decreases ks.len() - n,
{
    if n == ks.len() {
        assert(ks.take(n) =~= ks);
        lemma_total_nonneg(ks);
    } else {
        lemma_total_prefix(ks, n + 1);
        lemma_total_take(ks, n);
        lemma_size_nonneg(ks[n]);
        lemma_total_nonneg(ks.take(n));
    }
}

/// A run holds no negative number of bytes.
proof fn lemma_total_nonneg(ks: Seq<Keyframe>)
    ensures
        total_size(ks) >= 0,
    decreases ks.len(),
{
    if ks.len() > 0 {
        lemma_total_nonneg(ks.drop_last());
        lemma_size_nonneg(ks.last());
    }
}

/// All keyframes of a run lie on the grid of this spacing, so keeping them
/// keeps them all.
proof fn lemma_on_grid_all(ks: Seq<Keyframe>, interval: int)
    requires
        forall|i: int| 0 <= i < ks.len() ==> (#[trigger] ks[i].frame as int) % interval == 0,
    ensures
        on_grid(ks, interval) == ks,
    decreases ks.len(),
{
    reveal(Seq::filter);
    if ks.len() > 0 {
        let rest = ks.drop_last();
        assert forall|i: int| 0 <= i < rest.len() implies (#[trigger] rest[i].frame as int) % interval == 0 by {
            assert(rest[i] == ks[i]);
        }
        lemma_on_grid_all(rest, interval);
        assert(ks[ks.len() - 1] == ks.last());
        assert(rest.push(ks.last()) =~= ks);
    }
}

/// Making room ends in one of three ways: nothing is kept, the kept
/// keyframes and the new one fit the budget, or the last doubling dropped
/// nothing, every kept keyframe lying on the final grid. Whatever is kept
/// was kept before.
pub proof fn law_eviction_outcome(ks: Seq<Keyframe>, interval: int, new_size: int, budget: int)
    ensures
        ({
            let (kept, last) = evict(ks, interval, new_size, budget);
            &&& kept.len() == 0 || total_size(kept) + new_size <= budget || on_grid(kept, last) == kept
            &&& forall|i: int| 0 <= i < kept.len() ==> exists|j: int| 0 <= j < ks.len() && #[trigger] kept[i] == ks[j]
            &&& kept.len() <= ks.len()
        }),
    decreases ks.len(),
{
    if ks.len() == 0 || total_size(ks) + new_size <= budget {
        assert forall|i: int| 0 <= i < ks.len() implies exists|j: int| 0 <= j < ks.len() && #[trigger] ks[i] == ks[j] by {
            assert(ks[i] == ks[i]);
        }
    } else {
        let g = on_grid(ks, interval * 2);
        lemma_on_grid_from(ks, interval * 2);
        if g.len() == ks.len() {
            lemma_on_grid_all(g, interval * 2);
        } else {
            law_eviction_outcome(g, interval * 2, new_size, budget);
            let (kept, last) = evict(g, interval * 2, new_size, budget);
            assert forall|i: int| 0 <= i < kept.len() implies exists|j: int| 0 <= j < ks.len() && #[trigger] kept[i]
                == ks[j] by {
                let m = choose|m: int| 0 <= m < g.len() && kept[i] == g[m];
                let j = choose|j: int| 0 <= j < ks.len() && g[m] == ks[j];
            }
        }
    }
}

/// A positive multiple of a positive number is at least that number.
proof fn lemma_multiple_ge(x: int, m: int)
    requires
        x >= 1,
        m >= 1,
        x % m == 0,
    ensures
        m <= x,
{
    assert(x == m * (x / m) + x % m) by (nonlinear_arith)
        requires
            m >= 1,
    ;
    assert(x / m >= 1) by (nonlinear_arith)
        requires
            x >= 1,
            m >= 1,
            x == m * (x / m),
    ;
    assert(m * (x / m) >= m) by (nonlinear_arith)
        requires
            m >= 1,
            x / m >= 1,
    ;
}

impl Keyframe {
    /// The bytes this keyframe holds: its image and its body list.
    pub fn bytes(&self) -> (n: usize)
        requires
            keyframe_size(*self) <= usize::MAX,
        ensures
            n == keyframe_size(*self),
    {
        let size = core::mem::size_of::<BodyId>();
        let count = self.body_ids.len();
        assert(count * size <= usize::MAX) by (nonlinear_arith)
            requires
                self.image@.len() + count * size <= usize::MAX,
        ;
        self.image.len() + count * size
    }
}

/// Keep, in order, the keyframes on the grid of this spacing.
fn retain_on_grid(ks: &mut Vec<Keyframe>, interval: i32)
    requires
        interval >= 1,
        forall|i: int| 0 <= i < old(ks)@.len() ==> #[trigger] old(ks)@[i].frame >= 0,
    ensures
        final(ks)@ == on_grid(old(ks)@, interval as int),
{
    let ghost orig = old(ks)@;
    let mut i: usize = 0;
    let ghost mut j: int = 0;
    while i < ks.len()
        invariant
            0 <= i <= ks@.len(),
            0 <= j <= orig.len(),
            interval >= 1,
            forall|k: int| 0 <= k < orig.len() ==> #[trigger] orig[k].frame >= 0,
            ks@.subrange(0, i as int) == on_grid(orig.take(j), interval as int),
            ks@.subrange(i as int, ks@.len() as int) == orig.subrange(j, orig.len() as int),
        decreases ks@.len() - i,
    {
        assert(j < orig.len() && ks@[i as int] == orig[j]) by {
            let tail = ks@.subrange(i as int, ks@.len() as int);
            assert(tail.len() == ks@.len() - i);
            assert(orig.subrange(j, orig.len() as int).len() == orig.len() - j);
            assert(tail[0] == ks@[i as int]);
            assert(orig.subrange(j, orig.len() as int)[0] == orig[j]);
        }
        proof {
            lemma_on_grid_take(orig, interval as int, j);
        }
        let ghost old_ks = ks@;
        let ghost i0 = i as int;
        let ghost j0 = j;
        assert forall|p: int| i0 <= p < old_ks.len() implies #[trigger] old_ks[p] == orig[p - i0 + j0] by {
            let a = old_ks.subrange(i0, old_ks.len() as int);
            let b = orig.subrange(j0, orig.len() as int);
            assert(a == b);
            assert(a.len() == b.len());
            assert(a[p - i0] == old_ks[p]);
            assert(b[p - i0] == orig[j0 + (p - i0)]);
        }
        assert(old_ks.len() - i0 == orig.len() - j0) by {
            assert(old_ks.subrange(i0, old_ks.len() as int).len() == orig.subrange(j0, orig.len() as int).len());
        }
        if ks[i].frame % interval == 0 {
            i = i + 1;
            proof {
                j = j + 1;
            }
            assert(ks@.subrange(0, i as int) =~= ks@.subrange(0, i - 1).push(ks@[i - 1]));
            assert forall|m: int| 0 <= m < ks@.len() - i implies #[trigger] ks@.subrange(i as int, ks@.len() as int)[m] == orig.subrange(j, orig.len() as int)[m] by {
                assert(old_ks[i0 + (m + 1)] == orig[i0 + (m + 1) - i0 + j0]);
                assert(ks@.subrange(i as int, ks@.len() as int)[m] == ks@[i + m]);
                assert(orig.subrange(j, orig.len() as int)[m] == orig[j + m]);
            }
            assert(ks@.subrange(i as int, ks@.len() as int) =~= orig.subrange(j, orig.len() as int));
        } else {
            ks.remove(i);
            proof {
                j = j + 1;
            }
            assert(ks@.subrange(0, i as int) =~= old_ks.subrange(0, i as int));
            assert forall|m: int| 0 <= m < ks@.len() - i implies #[trigger] ks@.subrange(i as int, ks@.len() as int)[m] == orig.subrange(j, orig.len() as int)[m] by {
                assert(ks@[i + m] == old_ks[i0 + (m + 1)]);
                assert(old_ks[i0 + (m + 1)] == orig[i0 + (m + 1) - i0 + j0]);
                assert(ks@.subrange(i as int, ks@.len() as int)[m] == ks@[i + m]);
                assert(orig.subrange(j, orig.len() as int)[m] == orig[j + m]);
            }
            assert(ks@.subrange(i as int, ks@.len() as int) =~= orig.subrange(j, orig.len() as int));
        }
    }
    assert(j == orig.len());
    assert(orig.take(j) =~= orig);
    assert(ks@ =~= ks@.subrange(0, i as int));
}

/// The bytes a run of keyframes holds.
fn total_bytes(ks: &Vec<Keyframe>) -> (n: usize)
    requires
        total_size(ks@) <= usize::MAX,
    ensures
        n == total_size(ks@),
{
    let mut sum: usize = 0;
    let mut i: usize = 0;
    while i < ks.len()
        invariant
            0 <= i <= ks@.len(),
            total_size(ks@) <= usize::MAX,
            sum == total_size(ks@.take(i as int)),
        decreases ks@.len() - i,
    {
        proof {
            lemma_total_take(ks@, i as int);
            lemma_total_prefix(ks@, i + 1);
            lemma_total_prefix(ks@, i as int);
            lemma_size_nonneg(ks@[i as int]);
        }
        let n = ks[i].bytes();
        sum = sum + n;
        i = i + 1;
    }
    assert(ks@.take(i as int) =~= ks@);
    sum
}

/// The keyframe ring of a replay player: the kept keyframes in capture
/// order, the memory budget and the bytes held, the finest and the current
/// spacing, and the highest frame captured.
pub struct KeyframeRing {
    keyframes: Vec<Keyframe>,
    keyframe_budget: usize,
    keyframe_bytes: usize,
    keyframe_min_interval: i32,
    keyframe_interval: i32,
    last_keyframe_frame: i32,
}

/// Where a seek resumes replaying from.
#[derive(Clone, Copy, Debug, PartialEq, Eq, Structural)]
pub enum SeekFrom {
    /// Restore the kept keyframe at this position.
    Keyframe(usize),
    /// Restore the first frame.
    Start,
    /// Keep going from the current frame.
    Current,
}

/// `b` is the keyframe a seek to `target` resumes from: below the target,
/// the latest such frame, and the first kept at that frame.
pub open spec fn is_best_below(ks: Seq<Keyframe>, target: int, b: int) -> bool {
    &&& 0 <= b < ks.len()
    &&& ks[b].frame < target
    &&& forall|j: int| 0 <= j < ks.len() && ks[j].frame < target ==> ks[j].frame <= ks[b].frame
    &&& forall|j: int| 0 <= j < b && ks[j].frame < target ==> ks[j].frame < ks[b].frame
}

/// The frame a seek aims at: the requested one, clamped at zero.
pub open spec fn seek_target(target_frame: i32) -> int {
    if target_frame > 0 {
        target_frame as int
    } else {
        0
    }
}

/// No kept keyframe lies below `target`.
pub open spec fn none_below(ks: Seq<Keyframe>, target: int) -> bool {
    forall|j: int| 0 <= j < ks.len() ==> ks[j].frame >= target
}

impl KeyframeRing {
    /// The kept keyframes, in capture order.
    pub closed spec fn kept(&self) -> Seq<Keyframe> {
        self.keyframes@
    }

    /// The memory budget in bytes.
    pub closed spec fn budget(&self) -> usize {
        self.keyframe_budget
    }

    /// The bytes the kept keyframes hold.
    pub closed spec fn bytes_held(&self) -> usize {
        self.keyframe_bytes
    }

    /// The finest spacing in frames.
    pub closed spec fn min_interval(&self) -> i32 {
        self.keyframe_min_interval
    }

    /// The current spacing in frames.
    pub closed spec fn interval(&self) -> i32 {
        self.keyframe_interval
    }

    /// The highest frame captured.
    pub closed spec fn last_frame(&self) -> i32 {
        self.last_keyframe_frame
    }

    /// The ring's invariant: positive spacings, keyframes in strictly
    /// increasing frame order, none past the last captured frame, and the
    /// bytes held counted exactly.
    pub open spec fn wf(&self) -> bool {
        &&& self.min_interval() >= 1
        &&& self.interval() >= 1
        &&& 0 <= self.last_frame() <= KEYFRAME_FRAME_LIMIT
        &&& frames_ok(self.kept(), self.last_frame() as int)
        &&& self.bytes_held() == total_size(self.kept())
    }

    /// An empty ring with the default budget and spacing.
    pub fn new() -> (r: KeyframeRing)
        ensures
            r.wf(),
            r.kept().len() == 0,
            r.budget() == KEYFRAME_BUDGET_DEFAULT,
            r.bytes_held() == 0,
            r.min_interval() == KEYFRAME_INTERVAL_DEFAULT,
            r.interval() == KEYFRAME_INTERVAL_DEFAULT,
            r.last_frame() == 0,
    {
        KeyframeRing {
            keyframes: Vec::new(),
            keyframe_budget: KEYFRAME_BUDGET_DEFAULT,
            keyframe_bytes: 0,
            keyframe_min_interval: KEYFRAME_INTERVAL_DEFAULT,
            keyframe_interval: KEYFRAME_INTERVAL_DEFAULT,
            last_keyframe_frame: 0,
        }
    }

    /// Tune the ring: a zero budget or a non-positive spacing keeps that
    /// value. The kept keyframes are dropped and the spacing starts over at
    /// the finest, so the ring fills again under the new policy.
    pub fn set_keyframe_policy(&mut self, budget_bytes: usize, min_interval_frames: i32)
        requires
            old(self).wf(),
        ensures
            final(self).wf(),
            final(self).kept().len() == 0,
            final(self).budget() == if budget_bytes > 0 { budget_bytes } else { old(self).budget() },
            final(self).min_interval() == if min_interval_frames > 0 {
                min_interval_frames
            } else {
                old(self).min_interval()
            },
            final(self).interval() == final(self).min_interval(),
            final(self).bytes_held() == 0,
            final(self).last_frame() == 0,
    {
        if budget_bytes > 0 {
            self.keyframe_budget = budget_bytes;
        }
        if min_interval_frames > 0 {
            self.keyframe_min_interval = min_interval_frames;
        }
        self.keyframes.clear();
        self.keyframe_bytes = 0;
        self.keyframe_interval = self.keyframe_min_interval;
        self.last_keyframe_frame = 0;
        assert(self.keyframes@ =~= Seq::<Keyframe>::empty());
    }

    /// The memory budget in bytes.
    pub fn keyframe_budget(&self) -> (b: usize)
        ensures
            b == self.budget(),
    {
        self.keyframe_budget
    }

    /// The finest spacing in frames.
    pub fn keyframe_min_interval(&self) -> (i: i32)
        ensures
            i == self.min_interval(),
    {
        self.keyframe_min_interval
    }

    /// The current spacing in frames: how finely a backward seek can land
    /// right now.
    pub fn keyframe_interval(&self) -> (i: i32)
        ensures
            i == self.interval(),
    {
        self.keyframe_interval
    }

    /// The bytes the kept keyframes hold.
    pub fn keyframe_bytes(&self) -> (n: usize)
        ensures
            n == self.bytes_held(),
    {
        self.keyframe_bytes
    }

    /// The number of kept keyframes.
    pub fn keyframe_count(&self) -> (n: usize)
        ensures
            n == self.kept().len(),
    {
        self.keyframes.len()
    }

    /// The kept keyframe at position `i`.
    pub fn keyframe_at(&self, i: usize) -> (kf: &Keyframe)
        requires
            i < self.kept().len(),
        ensures
            *kf == self.kept()[i as int],
    {
        &self.keyframes[i]
    }

    /// Whether the frame just completed gets a keyframe: one past the last
    /// captured and on the current grid. Re-stepping frames already covered
    /// never captures again.
    pub fn wants_keyframe(&self, frame: i32) -> (r: bool)
        requires
            self.wf(),
        ensures
            r == (frame > self.last_frame() && (frame as int) % (self.interval() as int) == 0),
    {
        frame > self.last_keyframe_frame && frame % self.keyframe_interval == 0
    }

    /// Keep a restore point for the frame just completed. Room is made
    /// under the budget first: the spacing doubles, dropping the keyframes
    /// off the coarser grid, until the new keyframe fits or a doubling drops
    /// nothing; the budget gives way where one keyframe alone exceeds it.
    pub fn capture_keyframe(&mut self, kf: Keyframe)
        requires
            old(self).wf(),
            kf.frame > old(self).last_frame(),
            (kf.frame as int) % (old(self).interval() as int) == 0,
            kf.frame <= KEYFRAME_FRAME_LIMIT,
            old(self).bytes_held() + keyframe_size(kf) <= usize::MAX,
        ensures
            ({
                let (kept, interval) = evict(
                    old(self).kept(),
                    old(self).interval() as int,
                    keyframe_size(kf),
                    old(self).budget() as int,
                );
                &&& final(self).kept() == kept.push(kf)
                &&& final(self).interval() == interval
                &&& final(self).bytes_held() == total_size(kept) + keyframe_size(kf)
            }),
            final(self).last_frame() == kf.frame,
            final(self).budget() == old(self).budget(),
            final(self).min_interval() == old(self).min_interval(),
            final(self).wf(),
    {
        proof {
            lemma_total_nonneg(self.keyframes@);
            lemma_multiple_ge(kf.frame as int, self.keyframe_interval as int);
        }
        let new_bytes = kf.bytes();
        let ghost orig = self.keyframes@;
        let ghost i0 = self.keyframe_interval as int;
        let ghost limit = self.last_keyframe_frame as int;
        let ghost b0 = self.keyframe_bytes as int;
        loop
            invariant_except_break
                evict(self.keyframes@, self.keyframe_interval as int, new_bytes as int, self.keyframe_budget as int)
                    == evict(orig, i0, new_bytes as int, self.keyframe_budget as int),
            invariant
                self.keyframe_budget == old(self).keyframe_budget,
                self.keyframe_min_interval == old(self).keyframe_min_interval,
                self.last_keyframe_frame == old(self).last_keyframe_frame,
                limit == self.last_keyframe_frame,
                0 <= limit <= KEYFRAME_FRAME_LIMIT,
                self.keyframe_interval >= 1,
                self.keyframes@.len() > 0 ==> self.keyframe_interval <= KEYFRAME_FRAME_LIMIT,
                frames_ok(self.keyframes@, limit),
                self.keyframe_bytes == total_size(self.keyframes@),
                self.keyframe_bytes <= b0,
                b0 + new_bytes <= usize::MAX,
                new_bytes == keyframe_size(kf),
            ensures
                (self.keyframes@, self.keyframe_interval as int) == evict(
                    orig,
                    i0,
                    new_bytes as int,
                    self.keyframe_budget as int,
                ),
                self.keyframe_budget == old(self).keyframe_budget,
                self.keyframe_min_interval == old(self).keyframe_min_interval,
                self.last_keyframe_frame == old(self).last_keyframe_frame,
                self.keyframe_interval >= 1,
                frames_ok(self.keyframes@, limit),
                self.keyframe_bytes == total_size(self.keyframes@),
                self.keyframe_bytes <= b0,
            decreases self.keyframes@.len(),
        {
            if self.keyframes.len() == 0 || self.keyframe_bytes + new_bytes <= self.keyframe_budget {
                break;
            }
            let ghost ks = self.keyframes@;
            let ghost before_bytes = self.keyframe_bytes;
            self.keyframe_interval = self.keyframe_interval * 2;
            let before = self.keyframes.len();
            retain_on_grid(&mut self.keyframes, self.keyframe_interval);
            proof {
                lemma_on_grid_size(ks, self.keyframe_interval as int);
                lemma_on_grid_frames_ok(ks, self.keyframe_interval as int, limit);
                lemma_on_grid_from(ks, self.keyframe_interval as int);
                ks.lemma_filter_len(on_grid_at(self.keyframe_interval as int));
                lemma_total_nonneg(self.keyframes@);
                if self.keyframes@.len() > 0 {
                    let f = self.keyframes@[0].frame as int;
                    lemma_multiple_ge(f, self.keyframe_interval as int);
                }
            }
            self.keyframe_bytes = total_bytes(&self.keyframes);
            if self.keyframes.len() == before {
                break;
            }
        }
        let frame = kf.frame;
        let ghost kept = self.keyframes@;
        self.keyframes.push(kf);
        self.keyframe_bytes = self.keyframe_bytes + new_bytes;
        self.last_keyframe_frame = frame;
        proof {
            assert(self.keyframes@.drop_last() =~= kept);
            assert forall|i: int, j: int| 0 <= i < j < self.keyframes@.len() implies self.keyframes@[i].frame
                < self.keyframes@[j].frame by {
                if j == self.keyframes@.len() - 1 {
                    assert(self.keyframes@[i] == kept[i]);
                } else {
                    assert(self.keyframes@[i] == kept[i]);
                    assert(self.keyframes@[j] == kept[j]);
                }
            }
            assert forall|i: int| 0 <= i < self.keyframes@.len() implies 1 <= #[trigger] self.keyframes@[i].frame
                <= frame by {
                if i < kept.len() {
                    assert(self.keyframes@[i] == kept[i]);
                }
            }
        }
    }

    /// The kept keyframe a seek to `target` resumes from: the latest below
    /// the target, the first kept at that frame; `None` when none lies below.
    pub fn best_keyframe_below(&self, target: i32) -> (best: Option<usize>)
        ensures
            match best {
                Some(b) => is_best_below(self.kept(), target as int, b as int),
                None => none_below(self.kept(), target as int),
            },
    {
        let mut best: Option<usize> = None;
        let mut i: usize = 0;
        while i < self.keyframes.len()
            invariant
                0 <= i <= self.keyframes@.len(),
                match best {
                    Some(b) => is_best_below(self.keyframes@.take(i as int), target as int, b as int),
                    None => none_below(self.keyframes@.take(i as int), target as int),
                },
            decreases self.keyframes@.len() - i,
        {
            let frame = self.keyframes[i].frame;
            let ghost prev = self.keyframes@.take(i as int);
            let ghost next = self.keyframes@.take(i + 1);
            assert(next =~= prev.push(self.keyframes@[i as int]));
            let better = match best {
                None => frame < target,
                Some(b) => frame < target && frame > self.keyframes[b].frame,
            };
            if better {
                best = Some(i);
            }
            i = i + 1;
            proof {
                match best {
                    Some(b) => {
                        assert forall|j: int| 0 <= j < next.len() && next[j].frame < target implies next[j].frame
                            <= next[b as int].frame by {
                            if j < prev.len() {
                                assert(next[j] == prev[j]);
                            }
                        }
                        assert forall|j: int| 0 <= j < b && next[j].frame < target implies next[j].frame
                            < next[b as int].frame by {
                            assert(next[j] == prev[j]);
                        }
                    },
                    None => {
                        assert forall|j: int| 0 <= j < next.len() implies next[j].frame >= target by {
                            if j < prev.len() {
                                assert(next[j] == prev[j]);
                            }
                        }
                    },
                }
            }
        }
        assert(self.keyframes@.take(i as int) =~= self.keyframes@);
        best
    }

    /// Where a seek from `frame` to `target_frame` (clamped at zero)
    /// resumes: backward, from the best keyframe below the target or from
    /// the start; forward, from that keyframe only when it lies past the
    /// current frame, else from the current frame. The resumed replay then
    /// steps up to the target.
    pub fn plan_seek(&self, frame: i32, target_frame: i32) -> (from: SeekFrom)
        ensures
            from matches SeekFrom::Keyframe(b) ==> is_best_below(self.kept(), seek_target(target_frame), b as int) && (
            seek_target(target_frame) < frame || self.kept()[b as int].frame > frame),
            from is Start ==> seek_target(target_frame) < frame && none_below(self.kept(), seek_target(target_frame)),
            from is Current ==> seek_target(target_frame) >= frame && (none_below(
                self.kept(),
                seek_target(target_frame),
            ) || exists|b: int|
                is_best_below(self.kept(), seek_target(target_frame), b) && self.kept()[b].frame <= frame),
    {
        let target = if target_frame > 0 { target_frame } else { 0 };
        let best = self.best_keyframe_below(target);
        if target < frame {
            match best {
                Some(b) => SeekFrom::Keyframe(b),
                None => SeekFrom::Start,
            }
        } else {
            match best {
                Some(b) => {
                    if self.keyframes[b].frame > frame {
                        SeekFrom::Keyframe(b)
                    } else {
                        assert(is_best_below(self.kept(), target as int, b as int) && self.kept()[b as int].frame
                            <= frame);
                        SeekFrom::Current
                    }
                },
                None => SeekFrom::Current,
            }
        }
    }
}

} // verus!
