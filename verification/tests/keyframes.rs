use lib::id::BodyId;
use lib::recording::keyframes::{Keyframe, KeyframeRing, SeekFrom, KEYFRAME_BUDGET_DEFAULT, KEYFRAME_INTERVAL_DEFAULT};

fn kf(frame: i32, image_len: usize) -> Keyframe {
    Keyframe {
        image: vec![0xAB; image_len],
        frame,
        cursor: 1000 + frame as usize,
        body_ids: vec![BodyId { index1: 1, world0: 0, generation: 1 }],
        diverge_frame: -1,
        diverged: false,
    }
}

fn frames(ring: &KeyframeRing) -> Vec<i32> {
    (0..ring.keyframe_count()).map(|i| ring.keyframe_at(i).frame).collect()
}

#[test]
fn new_ring_uses_the_defaults() {
    let ring = KeyframeRing::new();
    assert_eq!(ring.keyframe_budget(), KEYFRAME_BUDGET_DEFAULT);
    assert_eq!(ring.keyframe_budget(), 512 * 1024 * 1024);
    assert_eq!(ring.keyframe_interval(), KEYFRAME_INTERVAL_DEFAULT);
    assert_eq!(ring.keyframe_min_interval(), 16);
    assert_eq!(ring.keyframe_bytes(), 0);
    assert_eq!(ring.keyframe_count(), 0);
}

#[test]
fn keyframes_are_wanted_past_the_last_on_the_grid() {
    let mut ring = KeyframeRing::new();
    assert!(!ring.wants_keyframe(0));
    assert!(!ring.wants_keyframe(15));
    assert!(ring.wants_keyframe(16));
    ring.capture_keyframe(kf(16, 10));
    // re-stepping a covered frame never captures again
    assert!(!ring.wants_keyframe(16));
    assert!(ring.wants_keyframe(32));
}

#[test]
fn bytes_count_image_and_body_list() {
    let k = kf(16, 100);
    assert_eq!(k.bytes(), 100 + std::mem::size_of::<BodyId>());
    let mut ring = KeyframeRing::new();
    ring.capture_keyframe(k);
    assert_eq!(ring.keyframe_bytes(), 100 + std::mem::size_of::<BodyId>());
}

#[test]
fn over_budget_the_spacing_doubles_and_drops_off_grid_keyframes() {
    let each = 100 + std::mem::size_of::<BodyId>();
    let mut ring = KeyframeRing::new();
    // room for four keyframes
    ring.set_keyframe_policy(4 * each, 0);
    assert_eq!(ring.keyframe_interval(), 16);
    for f in [16, 32, 48, 64] {
        assert!(ring.wants_keyframe(f));
        ring.capture_keyframe(kf(f, 100));
    }
    assert_eq!(frames(&ring), vec![16, 32, 48, 64]);
    assert_eq!(ring.keyframe_bytes(), 4 * each);
    // the fifth does not fit: spacing 32 keeps 32 and 64
    ring.capture_keyframe(kf(80, 100));
    assert_eq!(ring.keyframe_interval(), 32);
    assert_eq!(frames(&ring), vec![32, 64, 80]);
    assert_eq!(ring.keyframe_bytes(), 3 * each);
    assert!(!ring.wants_keyframe(96 + 16));
    assert!(ring.wants_keyframe(96));
}

#[test]
fn one_keyframe_larger_than_the_budget_is_still_kept() {
    let mut ring = KeyframeRing::new();
    ring.set_keyframe_policy(50, 0);
    ring.capture_keyframe(kf(16, 100));
    assert_eq!(frames(&ring), vec![16]);
    // the next one empties the ring by doubling, then is kept alone
    ring.capture_keyframe(kf(32, 100));
    assert_eq!(frames(&ring), vec![32]);
    assert_eq!(ring.keyframe_interval(), 32);
}

#[test]
fn policy_keeps_values_it_is_not_given_and_clears_the_ring() {
    let mut ring = KeyframeRing::new();
    ring.capture_keyframe(kf(16, 10));
    ring.set_keyframe_policy(0, 8);
    assert_eq!(ring.keyframe_budget(), KEYFRAME_BUDGET_DEFAULT);
    assert_eq!(ring.keyframe_min_interval(), 8);
    assert_eq!(ring.keyframe_interval(), 8);
    assert_eq!(ring.keyframe_count(), 0);
    assert_eq!(ring.keyframe_bytes(), 0);
    ring.set_keyframe_policy(1000, -3);
    assert_eq!(ring.keyframe_budget(), 1000);
    assert_eq!(ring.keyframe_min_interval(), 8);
    // the ring fills again from the start
    assert!(ring.wants_keyframe(8));
}

#[test]
fn seeks_resume_from_the_nearest_keyframe_below_the_target() {
    let mut ring = KeyframeRing::new();
    for f in [16, 32, 48] {
        ring.capture_keyframe(kf(f, 10));
    }
    assert_eq!(ring.best_keyframe_below(40), Some(1));
    // strictly below: a target on a keyframe resumes from the one before
    assert_eq!(ring.best_keyframe_below(32), Some(0));
    assert_eq!(ring.best_keyframe_below(16), None);

    // backward
    assert_eq!(ring.plan_seek(50, 40), SeekFrom::Keyframe(1));
    assert_eq!(ring.plan_seek(50, 10), SeekFrom::Start);
    assert_eq!(ring.plan_seek(50, -5), SeekFrom::Start);
    // forward past a keyframe ahead of the current frame
    assert_eq!(ring.plan_seek(20, 45), SeekFrom::Keyframe(1));
    // forward with no keyframe ahead
    assert_eq!(ring.plan_seek(40, 45), SeekFrom::Current);
    assert_eq!(ring.plan_seek(0, 10), SeekFrom::Current);
    let k = ring.keyframe_at(1);
    assert_eq!((k.frame, k.cursor), (32, 1032));
}
