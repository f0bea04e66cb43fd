use tile_viewport::clock::{AnimationClock, ClockError};

#[test]
fn new_clock_starts_at_frame_zero() {
    let clock = AnimationClock::new(100, 5, 1).unwrap();
    assert_eq!(clock.frame_index(), 0);
    assert_eq!(clock.frame_count(), 4);
    assert_eq!(clock.interval(), 100);
    assert_eq!(clock.elapsed(), 0);
}

#[test]
fn zero_interval_is_refused() {
    assert_eq!(AnimationClock::new(0, 5, 1).err(), Some(ClockError::ZeroInterval));
    assert_eq!(AnimationClock::new(0, 0, 0).err(), Some(ClockError::ZeroInterval));
}

#[test]
fn sheet_without_usable_frames_is_refused() {
    assert_eq!(AnimationClock::new(10, 1, 1).err(), Some(ClockError::NoFrames));
    assert_eq!(AnimationClock::new(10, 0, 0).err(), Some(ClockError::NoFrames));
    assert_eq!(AnimationClock::new(10, 2, 5).err(), Some(ClockError::NoFrames));
}

#[test]
fn no_reserved_frame_uses_the_whole_sheet() {
    let clock = AnimationClock::new(10, 6, 0).unwrap();
    assert_eq!(clock.frame_count(), 6);
}

#[test]
fn tick_below_interval_only_accumulates() {
    let mut clock = AnimationClock::new(100, 5, 1).unwrap();
    assert!(!clock.tick(40));
    assert_eq!(clock.elapsed(), 40);
    assert_eq!(clock.frame_index(), 0);
    assert!(!clock.tick(59));
    assert_eq!(clock.elapsed(), 99);
    assert_eq!(clock.frame_index(), 0);
}

#[test]
fn tick_reaching_interval_steps_and_resets() {
    let mut clock = AnimationClock::new(100, 5, 1).unwrap();
    clock.tick(40);
    assert!(clock.tick(60));
    assert_eq!(clock.frame_index(), 1);
    assert_eq!(clock.elapsed(), 0);
}

#[test]
fn overshoot_is_dropped_not_carried() {
    let mut clock = AnimationClock::new(100, 5, 1).unwrap();
    assert!(clock.tick(250));
    assert_eq!(clock.frame_index(), 1);
    assert_eq!(clock.elapsed(), 0);
    assert!(!clock.tick(99));
    assert_eq!(clock.frame_index(), 1);
}

#[test]
fn frame_index_wraps_after_last_frame() {
    let mut clock = AnimationClock::new(10, 4, 1).unwrap();
    let mut seen = Vec::new();
    for _ in 0..7 {
        clock.tick(10);
        seen.push(clock.frame_index());
    }
    assert_eq!(seen, vec![1, 2, 0, 1, 2, 0, 1]);
}

#[test]
fn single_frame_sheet_stays_at_frame_zero() {
    let mut clock = AnimationClock::new(10, 2, 1).unwrap();
    for _ in 0..5 {
        assert!(clock.tick(10));
        assert_eq!(clock.frame_index(), 0);
    }
}

#[test]
fn zero_delta_changes_nothing() {
    let mut clock = AnimationClock::new(10, 4, 1).unwrap();
    clock.tick(7);
    assert!(!clock.tick(0));
    assert_eq!(clock.elapsed(), 7);
    assert_eq!(clock.frame_index(), 0);
}

#[test]
fn huge_delta_does_not_overflow() {
    let mut clock = AnimationClock::new(u64::MAX, 3, 0).unwrap();
    assert!(!clock.tick(u64::MAX - 1));
    assert_eq!(clock.elapsed(), u64::MAX - 1);
    assert!(clock.tick(u64::MAX));
    assert_eq!(clock.elapsed(), 0);
    assert_eq!(clock.frame_index(), 1);
}

#[test]
fn even_ticks_show_each_frame_once_per_cycle() {
    let interval = 12;
    let frames = 5u32;
    for tick in [1u64, 2, 3, 4, 6, 12] {
        let mut clock = AnimationClock::new(interval, frames + 1, 1).unwrap();
        let per_step = interval / tick;
        let mut shown_for = vec![0u64; frames as usize];
        for n in 0..(frames as u64 * per_step) {
            assert_eq!(clock.frame_index() as u64, n / per_step);
            shown_for[clock.frame_index() as usize] += tick;
            clock.tick(tick);
        }
        assert_eq!(shown_for, vec![interval; frames as usize]);
        assert_eq!(clock.frame_index(), 0);
        assert_eq!(clock.elapsed(), 0);
    }
}

#[test]
fn even_ticks_repeat_after_a_full_cycle() {
    let mut clock = AnimationClock::new(9, 4, 1).unwrap();
    let mut first = Vec::new();
    for _ in 0..9 {
        clock.tick(3);
        first.push((clock.frame_index(), clock.elapsed()));
    }
    let mut second = Vec::new();
    for _ in 0..9 {
        clock.tick(3);
        second.push((clock.frame_index(), clock.elapsed()));
    }
    assert_eq!(first, second);
    assert_eq!(first[8], (0, 0));
}
