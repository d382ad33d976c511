use rand::rngs::StdRng;
use rand::SeedableRng;
use typing_combat::combat::{collision_system, enemy_bullet_collision, resolve_submission};
use typing_combat::{
    Difficulty, Enemy, Health, ParticleEngine, ParticleType, Point, Projectile, Rgb, Ship, Strike, Timer, TimerMode,
    Weapon, Word,
};

fn enemy(text: &str, x: i64, y: i64) -> Enemy {
    Enemy {
        position: Point { x, y },
        speed: 100,
        word: Word { text: text.to_string(), typed_index: 0 },
        health: Health { current: 2, max: 2 },
        shoot_timer: None,
    }
}

fn bullet(x: i64, y: i64) -> Projectile {
    Projectile { position: Point { x, y }, velocity: Point { x: 0, y: 0 }, color: Rgb { r: 255, g: 204, b: 0 }, size: 8 }
}

#[test]
fn blade_kill_removes_target_and_pays_combo_reward() {
    let mut rng = StdRng::seed_from_u64(1);
    let mut ship = Ship::default();
    ship.combo = 2;
    ship.score = 50;
    let mut enemies = vec![enemy("Alpha", 100_000, 0), enemy("Beta", 0, 200_000)];
    let mut particles = ParticleEngine::new();
    let r = resolve_submission(&mut ship, &mut enemies, &mut particles, &mut rng, "Beta", Difficulty::Hard);
    assert_eq!(r, Strike::Kill(1));
    assert_eq!(enemies.len(), 1);
    assert_eq!(enemies[0].word.text, "Alpha");
    assert_eq!(ship.score, 50 + 300);
    assert_eq!(ship.combo, 3);
    assert_eq!(ship.position, Point { x: 0, y: 200_000 });
    assert!(!ship.is_exposed());
    // a 200-unit slide leaves a trail of 10 particles, plus 20 for the explosion
    assert_eq!(particles.particles.len(), 30);
}

#[test]
fn short_slide_leaves_five_trail_particles() {
    let mut rng = StdRng::seed_from_u64(2);
    let mut ship = Ship::default();
    let mut enemies = vec![enemy("a", 3_000, 4_000)];
    let mut particles = ParticleEngine::new();
    resolve_submission(&mut ship, &mut enemies, &mut particles, &mut rng, "a", Difficulty::Hard);
    let trail = particles.particles.iter().filter(|p| p.particle_type == ParticleType::Trail).count();
    assert_eq!(trail, 5);
}

#[test]
fn hard_mode_is_case_sensitive() {
    let mut rng = StdRng::seed_from_u64(1);
    let mut ship = Ship::default();
    ship.combo = 4;
    let mut enemies = vec![enemy("Alpha", 100_000, 0)];
    let mut particles = ParticleEngine::new();
    let r = resolve_submission(&mut ship, &mut enemies, &mut particles, &mut rng, "alpha", Difficulty::Hard);
    assert_eq!(r, Strike::Miss);
    assert_eq!(enemies.len(), 1);
    assert_eq!(ship.combo, 0);
}

#[test]
fn easy_mode_ignores_case() {
    let mut rng = StdRng::seed_from_u64(1);
    let mut ship = Ship::default();
    let mut enemies = vec![enemy("ALPHA", 100_000, 0)];
    let mut particles = ParticleEngine::new();
    let r = resolve_submission(&mut ship, &mut enemies, &mut particles, &mut rng, "alPha", Difficulty::Easy);
    assert_eq!(r, Strike::Kill(0));
    assert!(enemies.is_empty());
    assert_eq!(ship.score, 100);
}

#[test]
fn first_matching_enemy_wins() {
    let mut rng = StdRng::seed_from_u64(1);
    let mut ship = Ship::default();
    let mut enemies = vec![enemy("x", 1, 0), enemy("same", 2, 0), enemy("same", 3, 0)];
    let mut particles = ParticleEngine::new();
    let r = resolve_submission(&mut ship, &mut enemies, &mut particles, &mut rng, "same", Difficulty::Hard);
    assert_eq!(r, Strike::Kill(1));
    assert_eq!(enemies.len(), 2);
    assert_eq!(enemies[1].position, Point { x: 3, y: 0 });
}

#[test]
fn laser_needs_as_many_hits_as_health() {
    let mut rng = StdRng::seed_from_u64(1);
    let mut ship = Ship::default();
    ship.current_weapon = Weapon::Laser;
    ship.combo = 1;
    let mut enemies = vec![enemy("Omega", 100_000, 0)];
    let mut particles = ParticleEngine::new();
    let r = resolve_submission(&mut ship, &mut enemies, &mut particles, &mut rng, "Omega", Difficulty::Hard);
    assert_eq!(r, Strike::Wound(0));
    assert_eq!(enemies[0].health.current, 1);
    assert_eq!(ship.score, 0);
    assert_eq!(ship.combo, 1);
    assert_eq!(ship.position, Point { x: 0, y: 0 });
    assert_eq!(particles.particles.len(), 8);
    let r = resolve_submission(&mut ship, &mut enemies, &mut particles, &mut rng, "Omega", Difficulty::Hard);
    assert_eq!(r, Strike::Kill(0));
    assert!(enemies.is_empty());
    assert_eq!(ship.score, 200);
    assert_eq!(ship.combo, 2);
    assert_eq!(ship.position, Point { x: 0, y: 0 });
    assert_eq!(particles.particles.len(), 8 + 15);
}

#[test]
fn miss_resets_combo_and_spares_health() {
    let mut rng = StdRng::seed_from_u64(1);
    let mut ship = Ship::default();
    ship.combo = 7;
    ship.score = 900;
    let mut enemies = vec![enemy("one", 1, 0), enemy("two", 2, 0)];
    let mut particles = ParticleEngine::new();
    let r = resolve_submission(&mut ship, &mut enemies, &mut particles, &mut rng, "three", Difficulty::Easy);
    assert_eq!(r, Strike::Miss);
    assert_eq!(ship.combo, 0);
    assert_eq!(ship.score, 900);
    assert!(enemies.iter().all(|e| e.health.current == 2));
    assert!(particles.particles.is_empty());
}

#[test]
fn laser_miss_sparks_error_particles_above_the_ship() {
    let mut rng = StdRng::seed_from_u64(1);
    let mut ship = Ship::default();
    ship.current_weapon = Weapon::Laser;
    let mut enemies = vec![enemy("one", 1, 0)];
    let mut particles = ParticleEngine::new();
    let r = resolve_submission(&mut ship, &mut enemies, &mut particles, &mut rng, "nope", Difficulty::Hard);
    assert_eq!(r, Strike::Miss);
    assert_eq!(particles.particles.len(), 12);
    assert!(particles.particles.iter().all(|p| p.particle_type == ParticleType::Error));
    assert!(particles.particles.iter().all(|p| p.position == Point { x: 0, y: 30_000 }));
}

#[test]
fn score_saturates_at_the_top() {
    let mut rng = StdRng::seed_from_u64(1);
    let mut ship = Ship::default();
    ship.score = u32::MAX - 10;
    let mut enemies = vec![enemy("a", 1, 0)];
    let mut particles = ParticleEngine::new();
    resolve_submission(&mut ship, &mut enemies, &mut particles, &mut rng, "a", Difficulty::Hard);
    assert_eq!(ship.score, u32::MAX);
}

#[test]
fn contact_costs_one_hit_point_per_enemy() {
    let mut rng = StdRng::seed_from_u64(1);
    let mut ship = Ship::default();
    ship.combo = 3;
    let mut enemies = vec![enemy("near", 29_000, 0), enemy("far", 31_000, 0), enemy("close", 0, -10_000)];
    let mut particles = ParticleEngine::new();
    let over = collision_system(&mut ship, &mut enemies, &mut particles, &mut rng);
    assert!(!over);
    assert_eq!(ship.hp, 1);
    assert_eq!(ship.combo, 0);
    assert_eq!(enemies.len(), 1);
    assert_eq!(enemies[0].word.text, "far");
    assert_eq!(particles.particles.len(), 24);
}

#[test]
fn invulnerable_ship_takes_no_contact_damage() {
    let mut rng = StdRng::seed_from_u64(1);
    let mut ship = Ship::default();
    ship.invulnerability_timer = Timer::new(150, TimerMode::Once);
    let mut enemies = vec![enemy("near", 0, 0)];
    let mut particles = ParticleEngine::new();
    assert!(!collision_system(&mut ship, &mut enemies, &mut particles, &mut rng));
    assert_eq!(ship.hp, 3);
    assert_eq!(enemies.len(), 1);
    ship.update_invulnerability(150);
    assert!(ship.is_exposed());
}

#[test]
fn three_contacts_end_the_game() {
    let mut rng = StdRng::seed_from_u64(1);
    let mut ship = Ship::default();
    let mut enemies = vec![enemy("a", 0, 0), enemy("b", 1_000, 0), enemy("c", 0, 1_000)];
    let mut particles = ParticleEngine::new();
    assert!(collision_system(&mut ship, &mut enemies, &mut particles, &mut rng));
    assert_eq!(ship.hp, 0);
    assert_eq!(ship.displayed_hp(), 0);
}

#[test]
fn bullet_hit_grants_half_a_second_of_grace() {
    let mut rng = StdRng::seed_from_u64(1);
    let mut ship = Ship::default();
    let mut bullets = vec![bullet(500_000, 0), bullet(10_000, 0), bullet(0, 0)];
    let mut particles = ParticleEngine::new();
    let hit = enemy_bullet_collision(&mut ship, &mut bullets, &mut particles, &mut rng);
    assert_eq!(hit, Some(1));
    assert_eq!(bullets.len(), 2);
    assert_eq!(ship.hp, 2);
    assert_eq!(particles.particles.len(), 8);
    assert!(!ship.is_exposed());
    assert_eq!(ship.invulnerability_timer.duration, 500);
    assert_eq!(enemy_bullet_collision(&mut ship, &mut bullets, &mut particles, &mut rng), None);
    assert_eq!(ship.hp, 2);
}

#[test]
fn weapon_switching_toggles() {
    let mut ship = Ship::default();
    assert_eq!(ship.current_weapon, Weapon::Blade);
    ship.weapon_switching();
    assert_eq!(ship.current_weapon, Weapon::Laser);
    ship.weapon_switching();
    assert_eq!(ship.current_weapon, Weapon::Blade);
}

#[test]
fn displayed_hp_is_never_negative() {
    let mut ship = Ship::default();
    ship.hp = -2;
    assert_eq!(ship.displayed_hp(), 0);
    ship.hp = 2;
    assert_eq!(ship.displayed_hp(), 2);
}
