use rand::rngs::StdRng;
use rand::SeedableRng;
use typing_combat::enemy::{enemy_movement, projectile_movement, shooting_enemy_fire_system};
use typing_combat::geometry::{cos_milli, heading_toward, isqrt, sin_milli};
use typing_combat::items::{health_item_collection, health_item_movement, spawn_health_item, spawn_periodic_items};
use typing_combat::{
    Enemy, Health, HealthItem, MenuSelection, ParticleEngine, Point, Projectile, Rgb, ShootTimer, Ship, Timer, TimerMode,
    Word,
};

#[test]
fn integer_square_root() {
    assert_eq!(isqrt(0), 0);
    assert_eq!(isqrt(15), 3);
    assert_eq!(isqrt(16), 4);
    assert_eq!(isqrt(8_000_000_000_000_000_000), 2_828_427_124);
}

#[test]
fn sine_table_points() {
    assert_eq!(sin_milli(0), 0);
    assert_eq!(sin_milli(90), 1000);
    assert_eq!(sin_milli(270), -1000);
    assert_eq!(cos_milli(0), 1000);
    assert_eq!(cos_milli(180), -1000);
    assert_eq!(sin_milli(30), 500);
    assert_eq!(sin_milli(390), 500);
}

#[test]
fn heading_points_along_the_offset() {
    assert_eq!(heading_toward(1000, 0), 0);
    assert_eq!(heading_toward(0, 1000), 90);
    assert_eq!(heading_toward(-1000, 0), 180);
    assert_eq!(heading_toward(0, -1000), 270);
}

#[test]
fn menu_wraps_both_ways() {
    let mut m = MenuSelection::new(3);
    assert_eq!(m.selected_index, 0);
    m.move_up();
    assert_eq!(m.selected_index, 2);
    m.move_down();
    assert_eq!(m.selected_index, 0);
    m.move_down();
    assert_eq!(m.selected_index, 1);
}

fn walker(x: i64, y: i64, speed: u64) -> Enemy {
    Enemy {
        position: Point { x, y },
        speed,
        word: Word { text: "w".to_string(), typed_index: 0 },
        health: Health { current: 2, max: 2 },
        shoot_timer: None,
    }
}

#[test]
fn enemies_close_in_and_slow_time() {
    let mut es = vec![walker(500_000, 0, 100), walker(0, 1_000, 100)];
    let close = enemy_movement(&mut es, Point { x: 0, y: 0 }, 1000);
    assert_eq!(es[0].position, Point { x: 400_000, y: 0 });
    assert_eq!(es[1].position, Point { x: 0, y: 0 });
    assert!(close);
    let mut far = vec![walker(500_000, 0, 100)];
    assert!(!enemy_movement(&mut far, Point { x: 0, y: 0 }, 1000));
}

#[test]
fn shooters_fire_at_the_ship() {
    let mut e = walker(300_000, 0, 60);
    e.shoot_timer = Some(ShootTimer { timer: Timer::new(2500, TimerMode::Repeating) });
    let mut es = vec![e, walker(0, 300_000, 100)];
    let mut bullets = Vec::new();
    assert_eq!(shooting_enemy_fire_system(&mut es, &mut bullets, Point { x: 0, y: 0 }, 2000), 0);
    assert_eq!(shooting_enemy_fire_system(&mut es, &mut bullets, Point { x: 0, y: 0 }, 600), 1);
    assert_eq!(bullets[0].position, Point { x: 300_000, y: 0 });
    assert_eq!(bullets[0].velocity, Point { x: -150_000, y: 0 });
}

#[test]
fn projectiles_leave_past_the_range() {
    let v = Point { x: 100_000, y: 0 };
    let c = Rgb { r: 0, g: 0, b: 0 };
    let mut ps = vec![
        Projectile { position: Point { x: 700_000, y: 0 }, velocity: v, color: c, size: 1 },
        Projectile { position: Point { x: 750_000, y: 0 }, velocity: v, color: c, size: 1 },
    ];
    projectile_movement(&mut ps, 1000);
    assert_eq!(ps.len(), 1);
    assert_eq!(ps[0].position, Point { x: 800_000, y: 0 });
}

#[test]
fn health_items_fall_and_heal() {
    let mut rng = StdRng::seed_from_u64(2);
    let mut items: Vec<HealthItem> = Vec::new();
    spawn_health_item(&mut items, Point { x: 0, y: 100_000 });
    spawn_health_item(&mut items, Point { x: 0, y: -450_000 });
    health_item_movement(&mut items, 500);
    assert_eq!(items.len(), 1);
    assert_eq!(items[0].position, Point { x: 0, y: 40_000 });
    let mut ship = Ship::default();
    let mut particles = ParticleEngine::new();
    assert_eq!(health_item_collection(&mut ship, &mut items, &mut particles, &mut rng), 0);
    health_item_movement(&mut items, 100);
    assert_eq!(health_item_collection(&mut ship, &mut items, &mut particles, &mut rng), 1);
    assert_eq!(ship.hp, 4);
    assert!(items.is_empty());
    assert_eq!(particles.particles.len(), 12);
}

#[test]
fn pickups_appear_every_seventeen_seconds() {
    let mut rng = StdRng::seed_from_u64(2);
    let mut timer = Timer::new(17_000, TimerMode::Repeating);
    let mut items = Vec::new();
    assert!(!spawn_periodic_items(&mut timer, &mut items, &mut rng, 16_999));
    assert!(spawn_periodic_items(&mut timer, &mut items, &mut rng, 1));
    assert_eq!(items.len(), 1);
    assert_eq!(items[0].position.y, 450_000);
    assert!(items[0].position.x >= -300_000 && items[0].position.x < 300_000);
}
