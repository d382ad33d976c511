use rand::rngs::StdRng;
use rand::SeedableRng;
use typing_combat::{ParticleEngine, ParticleType, Point, Rgb};

#[test]
fn explosion_emits_exactly_count_particles() {
    let mut rng = StdRng::seed_from_u64(11);
    let mut engine = ParticleEngine::new();
    let at = Point { x: 5_000, y: -7_000 };
    engine.spawn_explosion(&mut rng, at, Rgb { r: 1, g: 2, b: 3 }, 17);
    assert_eq!(engine.particles.len(), 17);
    for p in &engine.particles {
        assert_eq!(p.particle_type, ParticleType::Explosion);
        assert_eq!(p.position, at);
        assert_eq!(p.color, Rgb { r: 1, g: 2, b: 3 });
        assert!(p.lifetime.duration >= 300 && p.lifetime.duration < 800);
        assert_eq!(p.max_lifetime, 800);
        let speed2 = p.velocity.x as i128 * p.velocity.x as i128 + p.velocity.y as i128 * p.velocity.y as i128;
        // speeds of 100 to 300 units per second, within the sine approximation
        assert!(speed2 >= 95_000i128 * 95_000 && speed2 <= 305_000i128 * 305_000);
    }
    engine.spawn_explosion(&mut rng, at, Rgb { r: 1, g: 2, b: 3 }, 0);
    assert_eq!(engine.particles.len(), 17);
}

#[test]
fn hit_and_error_bursts_have_fixed_sizes() {
    let mut rng = StdRng::seed_from_u64(12);
    let mut engine = ParticleEngine::new();
    engine.spawn_laser_hit(&mut rng, Point { x: 0, y: 0 });
    assert_eq!(engine.particles.len(), 8);
    engine.spawn_error_particles(&mut rng, Point { x: 0, y: 0 });
    assert_eq!(engine.particles.len(), 20);
    assert!(engine.particles[8..].iter().all(|p| p.position == Point { x: 0, y: 30_000 }));
}

#[test]
fn trail_count_follows_length() {
    let mut rng = StdRng::seed_from_u64(13);
    let mut engine = ParticleEngine::new();
    engine.spawn_blade_trail(&mut rng, Point { x: 0, y: 0 }, Point { x: 300_000, y: 400_000 });
    assert_eq!(engine.particles.len(), 25);
    assert!(engine.particles.iter().all(|p| p.particle_type == ParticleType::Trail));
    assert!(engine.particles.iter().all(|p| p.lifetime.duration >= 200 && p.lifetime.duration < 500));
    let mut engine = ParticleEngine::new();
    engine.spawn_blade_trail(&mut rng, Point { x: 0, y: 0 }, Point { x: 0, y: 0 });
    assert_eq!(engine.particles.len(), 5);
}

#[test]
fn particles_are_removed_when_their_lifetime_completes() {
    let mut rng = StdRng::seed_from_u64(14);
    let mut engine = ParticleEngine::new();
    engine.spawn_explosion(&mut rng, Point { x: 0, y: 0 }, Rgb { r: 0, g: 0, b: 0 }, 30);
    let lifetimes: Vec<u64> = engine.particles.iter().map(|p| p.lifetime.duration).collect();
    let mut t = 0u64;
    while t < 900 {
        engine.update_particles(10);
        t += 10;
        let expected = lifetimes.iter().filter(|&&l| l > t).count();
        assert_eq!(engine.particles.len(), expected);
        assert!(engine.particles.iter().all(|p| p.lifetime.elapsed == t));
    }
    assert!(engine.particles.is_empty());
}

#[test]
fn particles_move_and_slow_down() {
    let mut rng = StdRng::seed_from_u64(15);
    let mut engine = ParticleEngine::new();
    engine.spawn_explosion(&mut rng, Point { x: 0, y: 0 }, Rgb { r: 0, g: 0, b: 0 }, 1);
    let v = engine.particles[0].velocity;
    engine.update_particles(100);
    let p = engine.particles[0];
    assert_eq!(p.position, Point { x: v.x * 100 / 1000, y: v.y * 100 / 1000 });
    assert_eq!(p.velocity, Point { x: v.x * 95 / 100, y: v.y * 95 / 100 });
}

#[test]
fn opacity_fades_with_remaining_life() {
    let mut rng = StdRng::seed_from_u64(16);
    let mut engine = ParticleEngine::new();
    engine.spawn_laser_hit(&mut rng, Point { x: 0, y: 0 });
    let mut p = engine.particles[0];
    p.lifetime.duration = 400;
    p.lifetime.elapsed = 100;
    assert_eq!(p.opacity(), 750);
    p.lifetime.elapsed = 0;
    assert_eq!(p.opacity(), 1000);
}
