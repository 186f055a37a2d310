use space_trader::timer::{Timer, TimerError, TimerMode, MICROS_PER_SECOND};

const MS: u64 = 1_000;

#[test]
fn zero_duration_is_rejected() {
    assert_eq!(
        Timer::new(0, TimerMode::Once).err(),
        Some(TimerError::NonPositiveDuration)
    );
    assert_eq!(
        Timer::new(0, TimerMode::Repeating).err(),
        Some(TimerError::NonPositiveDuration)
    );
    assert!(Timer::new(1, TimerMode::Once).is_ok());
}

#[test]
fn once_timer_fires_on_exactly_one_tick() {
    let mut t = Timer::new(1_000 * MS, TimerMode::Once).unwrap();
    let mut fired = Vec::new();
    for _ in 0..8 {
        t.tick(400 * MS);
        fired.push(t.just_finished());
    }
    assert_eq!(fired, vec![false, false, true, false, false, false, false, false]);
    assert!(t.finished());
    assert_eq!(t.elapsed(), 1_000 * MS);
}

#[test]
fn once_timer_fires_when_reaching_duration_exactly() {
    let mut t = Timer::from_seconds(2, TimerMode::Once);
    t.tick(2 * MICROS_PER_SECOND);
    assert!(t.just_finished());
    t.tick(0);
    assert!(!t.just_finished());
    assert!(t.finished());
}

#[test]
fn repeating_timer_keeps_remainder() {
    let mut t = Timer::new(1_000 * MS, TimerMode::Repeating).unwrap();
    let mut fired = Vec::new();
    let mut elapsed = Vec::new();
    for _ in 0..5 {
        t.tick(600 * MS);
        fired.push(t.just_finished());
        elapsed.push(t.elapsed());
    }
    assert_eq!(fired, vec![false, true, false, true, true]);
    assert_eq!(elapsed, vec![600 * MS, 200 * MS, 800 * MS, 400 * MS, 0]);
}

#[test]
fn repeating_timer_fires_once_for_a_long_tick() {
    let mut t = Timer::from_seconds(1, TimerMode::Repeating);
    t.tick(5_500 * MS);
    assert!(t.just_finished());
    assert_eq!(t.elapsed(), 500 * MS);
    t.tick(100 * MS);
    assert!(!t.just_finished());
}

#[test]
fn spawn_timer_cadence() {
    let mut t = Timer::from_seconds(3, TimerMode::Repeating);
    let mut firing_ticks = Vec::new();
    for tick in 1..=10u32 {
        t.tick(MICROS_PER_SECOND);
        if t.just_finished() {
            firing_ticks.push(tick);
        }
    }
    assert_eq!(firing_ticks, vec![3, 6, 9]);
}

#[test]
fn reset_starts_over() {
    let mut t = Timer::from_seconds(1, TimerMode::Once);
    t.tick(MICROS_PER_SECOND);
    assert!(t.finished());
    t.reset();
    assert!(!t.finished());
    assert!(!t.just_finished());
    assert_eq!(t.elapsed(), 0);
    assert_eq!(t.duration(), MICROS_PER_SECOND);
    assert_eq!(t.mode(), TimerMode::Once);
}
