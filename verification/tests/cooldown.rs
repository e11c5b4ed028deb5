use arena_combat::cooldown::CooldownTimer;

const MS: u64 = 1_000_000;

#[test]
fn timer_starts_charging() {
    let timer = CooldownTimer::new(650 * MS);
    assert!(!timer.finished());
    assert_eq!(timer.elapsed(), 0);
    assert_eq!(timer.duration(), 650 * MS);
}

#[test]
fn zero_duration_timer_is_ready_at_once() {
    let mut timer = CooldownTimer::new(0);
    assert!(timer.finished());
    timer.tick(5 * MS);
    assert!(timer.finished());
    assert_eq!(timer.elapsed(), 0);
    timer.reset();
    assert!(timer.finished());
}

#[test]
fn tick_adds_the_delta() {
    let mut timer = CooldownTimer::new(650 * MS);
    timer.tick(300 * MS);
    assert_eq!(timer.elapsed(), 300 * MS);
    assert!(!timer.finished());
    timer.tick(349 * MS);
    assert_eq!(timer.elapsed(), 649 * MS);
    assert!(!timer.finished());
    timer.tick(MS);
    assert_eq!(timer.elapsed(), 650 * MS);
    assert!(timer.finished());
}

#[test]
fn tick_stops_at_the_duration() {
    let mut timer = CooldownTimer::new(650 * MS);
    timer.tick(10_000 * MS);
    assert_eq!(timer.elapsed(), 650 * MS);
    timer.tick(u64::MAX);
    assert_eq!(timer.elapsed(), 650 * MS);
    assert!(timer.finished());
}

#[test]
fn tick_survives_the_largest_numbers() {
    let mut timer = CooldownTimer::new(u64::MAX);
    timer.tick(u64::MAX - 1);
    assert!(!timer.finished());
    timer.tick(u64::MAX);
    assert!(timer.finished());
    assert_eq!(timer.elapsed(), u64::MAX);
}

#[test]
fn tick_of_nothing_changes_nothing() {
    let mut timer = CooldownTimer::new(650 * MS);
    timer.tick(200 * MS);
    timer.tick(0);
    assert_eq!(timer.elapsed(), 200 * MS);
    assert_eq!(timer.duration(), 650 * MS);
    assert!(!timer.finished());
}

#[test]
fn reset_starts_the_countdown_over() {
    let mut timer = CooldownTimer::new(650 * MS);
    timer.tick(650 * MS);
    assert!(timer.finished());
    timer.reset();
    assert!(!timer.finished());
    assert_eq!(timer.elapsed(), 0);
    assert_eq!(timer.duration(), 650 * MS);
}

#[test]
fn many_small_ticks_equal_one_large_tick() {
    let mut by_frames = CooldownTimer::new(650 * MS);
    let mut frame: u32 = 0;
    while frame < 40 {
        by_frames.tick(16 * MS);
        frame += 1;
    }
    let mut at_once = CooldownTimer::new(650 * MS);
    at_once.tick(640 * MS);
    assert_eq!(by_frames.elapsed(), at_once.elapsed());
    assert_eq!(by_frames.finished(), at_once.finished());
    by_frames.tick(16 * MS);
    at_once.tick(16 * MS);
    assert_eq!(by_frames.elapsed(), 650 * MS);
    assert_eq!(at_once.elapsed(), 650 * MS);
}

#[test]
fn timer_is_reused_after_many_shots() {
    let mut timer = CooldownTimer::new(100 * MS);
    let mut shots: u32 = 0;
    let mut frame: u32 = 0;
    while frame < 100 {
        timer.tick(10 * MS);
        if timer.finished() {
            shots += 1;
            timer.reset();
        }
        frame += 1;
    }
    assert_eq!(shots, 10);
}
