use typing_combat::timer::{Timer, TimerMode};
use typing_combat::Wave;

fn wave_at(current: usize) -> Wave {
    Wave { current, enemies_remaining: 0, timer: Timer::new(30_000, TimerMode::Repeating) }
}

#[test]
fn first_ten_waves_follow_the_fixed_counts() {
    let expected = [5, 7, 11, 13, 17, 19, 23, 29, 31, 37];
    for (i, want) in expected.iter().enumerate() {
        assert_eq!(wave_at(i + 1).get_enemy_count(), *want);
    }
}

#[test]
fn later_waves_add_two_per_wave() {
    assert_eq!(wave_at(11).get_enemy_count(), 39);
    assert_eq!(wave_at(12).get_enemy_count(), 41);
    assert_eq!(wave_at(20).get_enemy_count(), 57);
    assert_eq!(wave_at(110).get_enemy_count(), 237);
}

#[test]
fn default_wave_starts_at_one_with_five() {
    let w = Wave::default();
    assert_eq!(w.current, 1);
    assert_eq!(w.enemies_remaining, 5);
}

#[test]
fn wave_advances_only_when_spent_and_clear() {
    let mut w = Wave::default();
    assert!(!w.wave_progression(false, false));
    assert_eq!(w.current, 1);
    w.enemies_remaining = 0;
    assert!(!w.wave_progression(true, false));
    assert!(!w.wave_progression(false, true));
    assert_eq!(w.current, 1);
    assert!(w.wave_progression(false, false));
    assert_eq!(w.current, 2);
    assert_eq!(w.enemies_remaining, 7);
}

#[test]
fn once_timer_fires_once_and_stays_finished() {
    let mut t = Timer::new(100, TimerMode::Once);
    assert!(!t.finished());
    assert!(!t.tick(60));
    assert_eq!(t.remaining(), 40);
    assert!(t.tick(60));
    assert!(t.finished());
    assert_eq!(t.elapsed, 100);
    assert!(!t.tick(60));
}

#[test]
fn repeating_timer_wraps() {
    let mut t = Timer::new(2000, TimerMode::Repeating);
    assert!(!t.tick(1500));
    assert!(t.tick(1500));
    assert_eq!(t.elapsed, 1000);
    assert!(!t.finished());
}
