use tiled_game::time::{Timer, TimerMode, NANOS_PER_MILLI, NANOS_PER_SEC};

const SECOND: u64 = 1_000_000_000;

#[test]
fn new_timer_has_not_run() {
    let timer = Timer::new(SECOND, TimerMode::Repeating);
    assert_eq!(timer.elapsed, 0);
    assert_eq!(timer.duration, SECOND);
    assert!(!timer.finished());
    assert!(!timer.just_finished());
}

#[test]
fn timers_from_seconds_and_milliseconds() {
    assert_eq!(NANOS_PER_MILLI, 1_000_000);
    assert_eq!(NANOS_PER_SEC, 1_000_000_000);
    assert_eq!(Timer::from_millis(1500, TimerMode::Once).duration, 1_500_000_000);
    assert_eq!(Timer::from_secs(300, TimerMode::Repeating).duration, 300_000_000_000);
    assert_eq!(
        Timer::from_secs(u32::MAX, TimerMode::Once).duration,
        4_294_967_295_000_000_000
    );
}

#[test]
fn repeating_timer_keeps_what_went_past_the_end() {
    let mut timer = Timer::new(SECOND, TimerMode::Repeating);
    timer.tick(400_000_000);
    assert_eq!(timer.elapsed, 400_000_000);
    assert!(!timer.finished());
    assert!(!timer.just_finished());
    timer.tick(700_000_000);
    assert_eq!(timer.elapsed, 100_000_000);
    assert!(timer.finished());
    assert!(timer.just_finished());
    timer.tick(100_000_000);
    assert_eq!(timer.elapsed, 200_000_000);
    assert!(!timer.finished());
    assert!(!timer.just_finished());
}

#[test]
fn repeating_timer_finishes_at_the_duration_exactly() {
    let mut timer = Timer::new(SECOND, TimerMode::Repeating);
    timer.tick(999_999_999);
    assert!(!timer.just_finished());
    timer.tick(1);
    assert!(timer.just_finished());
    assert_eq!(timer.elapsed, 0);
}

#[test]
fn repeating_timer_survives_a_very_long_tick() {
    let mut timer = Timer::new(7, TimerMode::Repeating);
    timer.tick(5);
    timer.tick(u64::MAX);
    // 5 + (2^64 - 1) = 18446744073709551620, which leaves 6 when divided by 7.
    assert_eq!(timer.elapsed, 6);
    assert!(timer.just_finished());
}

#[test]
fn repeating_timer_of_no_duration_always_finishes() {
    let mut timer = Timer::new(0, TimerMode::Repeating);
    timer.tick(0);
    assert!(timer.finished());
    assert_eq!(timer.elapsed, 0);
    timer.tick(5);
    assert!(timer.just_finished());
    assert_eq!(timer.elapsed, 0);
}

#[test]
fn once_timer_stays_finished() {
    let mut timer = Timer::new(SECOND, TimerMode::Once);
    timer.tick(400_000_000);
    assert!(!timer.finished());
    timer.tick(2 * SECOND);
    assert!(timer.finished());
    assert!(timer.just_finished());
    assert_eq!(timer.elapsed, SECOND);
    timer.tick(SECOND);
    assert!(timer.finished());
    assert!(!timer.just_finished());
    assert_eq!(timer.elapsed, SECOND);
}

#[test]
fn reset_starts_over() {
    let mut timer = Timer::new(SECOND, TimerMode::Once);
    timer.tick(2 * SECOND);
    timer.reset();
    assert_eq!(timer, Timer::new(SECOND, TimerMode::Once));
    timer.tick(SECOND);
    assert!(timer.just_finished());
}

#[test]
fn repeating_timer_counts_its_completions_in_32_bits() {
    // A tick that completes the timer 2^32 times counts none.
    let mut timer = Timer::new(1, TimerMode::Repeating);
    timer.tick(4_294_967_296);
    assert!(timer.finished());
    assert!(!timer.just_finished());
    assert_eq!(timer.elapsed, 0);
    // One nanosecond more or less, and it counts.
    let mut timer = Timer::new(1, TimerMode::Repeating);
    timer.tick(4_294_967_295);
    assert!(timer.just_finished());
    let mut timer = Timer::new(1, TimerMode::Repeating);
    timer.tick(4_294_967_297);
    assert!(timer.just_finished());
    let mut timer = Timer::new(3, TimerMode::Repeating);
    timer.tick(2);
    timer.tick(3 * 4_294_967_296);
    assert!(timer.finished());
    assert!(!timer.just_finished());
    assert_eq!(timer.elapsed, 2);
}

#[test]
fn once_timer_of_no_duration_finishes_at_the_first_tick() {
    let mut timer = Timer::new(0, TimerMode::Once);
    assert!(!timer.finished());
    timer.tick(0);
    assert!(timer.finished());
    assert!(timer.just_finished());
    assert_eq!(timer.elapsed, 0);
}

#[test]
fn once_timer_stops_at_its_duration_however_long_the_tick() {
    let mut timer = Timer::new(u64::MAX, TimerMode::Once);
    timer.tick(u64::MAX - 1);
    assert!(!timer.finished());
    assert_eq!(timer.elapsed, u64::MAX - 1);
    timer.tick(u64::MAX);
    assert!(timer.finished());
    assert_eq!(timer.elapsed, u64::MAX);
}
