use eaststar::saver::{SizeSettle, STABLE_FRAME_COUNT};

#[test]
fn size_settles_after_six_steady_frames() {
    let mut settle = SizeSettle::new();
    assert!(!settle.watching);
    assert_eq!(settle.frames, 0);
    // The first frame starts watching the size.
    assert!(!settle.observe(false));
    assert_eq!(settle.frames, 1);
    for expected in 2..STABLE_FRAME_COUNT {
        assert!(!settle.observe(true));
        assert_eq!(settle.frames, expected);
    }
    assert!(settle.observe(true));
    assert_eq!(settle.frames, 6);
}

#[test]
fn size_change_restarts_the_count() {
    let mut settle = SizeSettle::new();
    for _ in 0..4 {
        settle.observe(true);
    }
    // Without a watched size, even a "close" report only starts watching.
    let mut fresh = SizeSettle::new();
    assert!(!fresh.observe(true));
    assert_eq!(fresh.frames, 1);
    assert!(!settle.observe(false));
    assert_eq!(settle.frames, 1);
    assert!(settle.watching);
}

#[test]
fn size_count_saturates() {
    let mut settle = SizeSettle { watching: true, frames: u8::MAX };
    assert!(settle.observe(true));
    assert_eq!(settle.frames, u8::MAX);
}
