use rand::rngs::StdRng;
use rand::SeedableRng;
use typing_combat::boss::attack_pattern;
use typing_combat::boss::spawn_boss;
use typing_combat::{BossStrike, BossWarningTimer, Difficulty, Point, Ship};

fn lines(items: &[&str]) -> Vec<String> {
    items.iter().map(|s| s.to_string()).collect()
}

#[test]
fn boss_health_is_the_number_of_lines() {
    let b = spawn_boss(lines(&["one", "two words", "three"]));
    assert_eq!(b.boss.health, 3);
    assert_eq!(b.boss.max_health, 3);
    assert_eq!(b.line.current_line_index, 0);
    assert_eq!(b.challenge_text(), "one");
    assert_eq!(b.boss.particle_timer.duration, 3500);
}

#[test]
fn correct_line_advances_and_scores_by_length() {
    let mut b = spawn_boss(lines(&["Hello there", "bye"]));
    let mut ship = Ship::default();
    ship.combo = 1;
    assert_eq!(b.boss_typing_system(&mut ship, "Hello there", Difficulty::Hard), BossStrike::Hit);
    assert_eq!(b.boss.health, 1);
    assert_eq!(ship.score, 11 * 100 * 2);
    assert_eq!(ship.combo, 2);
    assert_eq!(b.challenge_text(), "bye");
    assert_eq!(b.boss_typing_system(&mut ship, "bye!", Difficulty::Hard), BossStrike::Wrong);
    assert_eq!(b.boss.health, 1);
    assert_eq!(ship.combo, 0);
    assert_eq!(ship.score, 2200);
    assert_eq!(b.boss_typing_system(&mut ship, "BYE", Difficulty::Easy), BossStrike::Defeated);
    assert_eq!(b.boss.health, 0);
    assert_eq!(ship.score, 2200 + 3 * 100);
    assert_eq!(b.challenge_text(), "DEFEATED!");
}

#[test]
fn warning_counts_down_three_beats() {
    let mut w = BossWarningTimer::setup_boss_warning();
    assert_eq!(w.count, 3);
    assert!(!w.boss_warning_countdown(999));
    assert!(!w.boss_warning_countdown(1));
    assert_eq!(w.count, 2);
    assert!(!w.boss_warning_countdown(1000));
    assert_eq!(w.count, 1);
    assert!(w.boss_warning_countdown(1000));
    assert_eq!(w.count, 0);
}

#[test]
fn attack_patterns_have_their_sizes() {
    let mut rng = StdRng::seed_from_u64(4);
    let sizes = [12, 6, 12, 5, 12, 15, 12, 4];
    for (pattern, want) in sizes.iter().enumerate() {
        let mut out = Vec::new();
        attack_pattern(&mut out, &mut rng, pattern as u64, Point { x: 0, y: 0 }, 45, 1234);
        assert_eq!(out.len(), *want);
        assert!(out.iter().all(|p| p.position == Point { x: 0, y: 0 }));
    }
}

#[test]
fn ring_flies_at_boss_speed() {
    let mut rng = StdRng::seed_from_u64(4);
    let mut out = Vec::new();
    attack_pattern(&mut out, &mut rng, 0, Point { x: 0, y: 0 }, 0, 0);
    assert_eq!(out[0].velocity, Point { x: 90_000, y: 0 });
    assert_eq!(out[3].velocity, Point { x: 0, y: 90_000 });
    assert_eq!(out[6].velocity, Point { x: -90_000, y: 0 });
}

#[test]
fn boss_fires_when_its_timer_does() {
    let mut rng = StdRng::seed_from_u64(8);
    let mut b = spawn_boss(lines(&["x"]));
    let mut out = Vec::new();
    assert_eq!(b.boss_particle_system(&mut out, &mut rng, Point { x: 100_000, y: 0 }, 0, 3000), None);
    assert!(out.is_empty());
    let fired = b.boss_particle_system(&mut out, &mut rng, Point { x: 100_000, y: 0 }, 0, 500);
    let sizes = [12, 6, 12, 5, 12, 15, 12, 4];
    let p = fired.expect("the timer completes its period");
    assert_eq!(out.len(), sizes[p as usize]);
}

#[test]
fn each_pattern_has_its_own_color() {
    let mut rng = StdRng::seed_from_u64(6);
    let colors = [(255, 0, 0), (255, 51, 0), (255, 0, 77), (255, 0, 255), (0, 255, 255), (0, 204, 255), (255, 255, 0), (204, 0, 204)];
    for (pattern, (r, g, b)) in colors.iter().enumerate() {
        let mut out = Vec::new();
        attack_pattern(&mut out, &mut rng, pattern as u64, Point { x: 1_000, y: 2_000 }, 0, 0);
        assert!(out.iter().all(|p| (p.color.r, p.color.g, p.color.b) == (*r, *g, *b)));
        assert!(out.iter().all(|p| p.position == Point { x: 1_000, y: 2_000 }));
    }
}

#[test]
fn line_reward_counts_bytes() {
    let mut b = spawn_boss(lines(&["héllo"]));
    let mut ship = Ship::default();
    assert_eq!(b.boss_typing_system(&mut ship, "héllo", Difficulty::Hard), BossStrike::Defeated);
    assert_eq!(ship.score, 6 * 100);
}

#[test]
fn attack_speeds_follow_the_pattern() {
    let mut rng = StdRng::seed_from_u64(9);
    let speeds: [&[i64]; 8] = [&[90], &[90], &[90, 117, 144], &[135], &[81], &[90], &[], &[45]];
    for (pattern, allowed) in speeds.iter().enumerate() {
        let mut out = Vec::new();
        attack_pattern(&mut out, &mut rng, pattern as u64, Point { x: 0, y: 0 }, 10, 500);
        for p in &out {
            let v2 = (p.velocity.x as i128).pow(2) + (p.velocity.y as i128).pow(2);
            let ok = |s: i64| {
                let lo = (s as i128 * 997).pow(2);
                let hi = (s as i128 * 1003).pow(2);
                v2 >= lo && v2 <= hi
            };
            if allowed.is_empty() {
                assert!(v2 >= (63i128 * 997).pow(2) && v2 <= (135i128 * 1003).pow(2));
            } else {
                assert!(allowed.iter().any(|&s| ok(s)));
            }
        }
    }
}
