use rand::rngs::StdRng;
use rand::SeedableRng;
use typing_combat::boss::spawn_boss;
use typing_combat::{
    BossPhase, BossStrike, ContentManager, Difficulty, Enemy, GameState, Game, Health, Key, KeyEvent,
    Point, SpawnEvent, Steer, Submission, Word,
};

fn still() -> Steer {
    Steer { up: false, down: false, left: false, right: false }
}

fn press(key: Key) -> KeyEvent {
    KeyEvent { key, pressed: true }
}

fn type_text(game: &mut Game, rng: &mut StdRng, text: &str) {
    for c in text.chars() {
        let key = if c == ' ' { Key::Space } else { Key::Character(c) };
        assert_eq!(game.handle_key(rng, press(key)), Submission::Empty);
    }
}

fn content(texts: &[&str]) -> ContentManager {
    let v: Vec<String> = texts.iter().map(|s| s.to_string()).collect();
    ContentManager::from_texts(&v)
}

#[test]
fn first_wave_of_five_leads_to_a_wave_of_seven() {
    let mut rng = StdRng::seed_from_u64(21);
    let mut game = Game::new(content(&["alpha"]), Difficulty::Easy);
    assert_eq!((game.wave.current, game.wave.enemies_remaining), (1, 5));
    for _ in 0..5 {
        assert_eq!(game.spawn_enemies(&mut rng, 2000), SpawnEvent::Spawned);
    }
    assert_eq!(game.spawn_enemies(&mut rng, 2000), SpawnEvent::Nothing);
    assert_eq!(game.enemies.len(), 5);
    assert_eq!(game.wave.enemies_remaining, 0);
    for e in &game.enemies {
        assert_eq!(e.word.text, "alpha");
        assert_eq!(e.health, Health { current: 2, max: 2 });
        assert!(e.speed == 60 || e.speed == 100);
        assert_eq!(e.speed == 60, e.shoot_timer.is_some());
        let r2 = e.position.x as i128 * e.position.x as i128 + e.position.y as i128 * e.position.y as i128;
        assert!(r2 >= 498_000i128 * 498_000 && r2 <= 501_000i128 * 501_000);
    }
    assert!(!game.wave_progression());
    for _ in 0..5 {
        type_text(&mut game, &mut rng, "alpha");
        match game.handle_key(&mut rng, press(Key::Enter)) {
            Submission::Enemy(typing_combat::Strike::Kill(0)) => {},
            other => panic!("unexpected {:?}", other),
        }
    }
    assert!(game.enemies.is_empty());
    assert!(game.wave_progression());
    assert_eq!((game.wave.current, game.wave.enemies_remaining), (2, 7));
}

fn contact_enemy() -> Enemy {
    Enemy {
        position: Point { x: 0, y: 0 },
        speed: 100,
        word: Word { text: "x".to_string(), typed_index: 0 },
        health: Health { current: 2, max: 2 },
        shoot_timer: None,
    }
}

#[test]
fn three_contacts_give_one_game_over() {
    let mut rng = StdRng::seed_from_u64(22);
    let mut game = Game::new(content(&["alpha"]), Difficulty::Easy);
    assert_eq!(game.ship.hp, 3);
    game.enemies.push(contact_enemy());
    assert!(!game.tick(&mut rng, 0, &Vec::new(), still()));
    assert_eq!(game.ship.hp, 2);
    game.enemies.push(contact_enemy());
    assert!(!game.tick(&mut rng, 0, &Vec::new(), still()));
    assert_eq!(game.ship.hp, 1);
    game.enemies.push(contact_enemy());
    assert!(game.tick(&mut rng, 0, &Vec::new(), still()));
    assert_eq!(game.ship.hp, 0);
    assert_eq!(game.state, GameState::GameOver);
    game.enemies.push(contact_enemy());
    assert!(!game.tick(&mut rng, 16, &Vec::new(), still()));
    assert!(!game.tick(&mut rng, 16, &Vec::new(), still()));
    assert_eq!(game.ship.hp, 0);
    // a further contact at zero hit points does not end the game again
    let mut particles = typing_combat::ParticleEngine::new();
    let mut more = vec![contact_enemy()];
    assert!(!typing_combat::combat::collision_system(&mut game.ship, &mut more, &mut particles, &mut rng));
    assert_eq!(game.ship.hp, -1);
    assert_eq!(game.state, GameState::GameOver);
}

#[test]
fn four_line_boss_is_defeated_once() {
    let mut rng = StdRng::seed_from_u64(23);
    let lines = ["First line here", "second", "third one", "last"];
    let mut game = Game::new(content(&[&lines.join("\n"), "next paragraph"]), Difficulty::Hard);
    game.wave.current = 10;
    game.wave.enemies_remaining = 19;
    assert_eq!(game.spawn_enemies(&mut rng, 16), SpawnEvent::BossWarning);
    assert_eq!(game.state, GameState::BossWarning);
    assert_eq!(game.wave.enemies_remaining, 0);
    assert!(!game.tick(&mut rng, 1000, &Vec::new(), still()));
    assert!(!game.tick(&mut rng, 1000, &Vec::new(), still()));
    assert!(!game.tick(&mut rng, 1000, &Vec::new(), still()));
    assert_eq!(game.state, GameState::Running);
    let health = |g: &Game| match &g.boss {
        BossPhase::Active(b) => Some(b.boss.health),
        _ => None,
    };
    assert_eq!(health(&game), Some(4));
    let mut seen = vec![4];
    let mut defeats = 0;
    for line in lines.iter() {
        type_text(&mut game, &mut rng, line);
        let before = game.particles.particles.len();
        match game.handle_key(&mut rng, press(Key::Enter)) {
            Submission::Boss(BossStrike::Hit) => seen.push(health(&game).unwrap()),
            Submission::Boss(BossStrike::Defeated) => {
                defeats += 1;
                seen.push(0);
                assert_eq!(game.particles.particles.len(), before + 30);
            },
            other => panic!("unexpected {:?}", other),
        }
        assert!(game.typing_buffer.text.is_empty());
    }
    assert_eq!(seen, vec![4, 3, 2, 1, 0]);
    assert_eq!(defeats, 1);
    assert!(matches!(game.boss, BossPhase::Idle));
    assert_eq!(game.content.current_index, 1);
    assert_eq!(game.wave.enemies_remaining, 0);
    assert!(game.wave_progression());
    assert_eq!((game.wave.current, game.wave.enemies_remaining), (11, 39));
}

#[test]
fn wrong_boss_line_keeps_health() {
    let mut rng = StdRng::seed_from_u64(24);
    let mut game = Game::new(content(&["only line"]), Difficulty::Easy);
    game.boss = BossPhase::Active(spawn_boss(vec!["only line".to_string()]));
    type_text(&mut game, &mut rng, "only lime");
    assert_eq!(game.handle_key(&mut rng, press(Key::Enter)), Submission::Boss(BossStrike::Wrong));
    assert!(game.typing_buffer.text.is_empty());
    match &game.boss {
        BossPhase::Active(b) => assert_eq!(b.boss.health, 1),
        _ => panic!("boss should be alive"),
    }
}

#[test]
fn whitespace_only_submission_does_nothing() {
    let mut rng = StdRng::seed_from_u64(25);
    let mut game = Game::new(content(&["alpha"]), Difficulty::Easy);
    game.ship.combo = 3;
    assert_eq!(game.handle_key(&mut rng, press(Key::Space)), Submission::Empty);
    assert_eq!(game.handle_key(&mut rng, press(Key::Enter)), Submission::Empty);
    assert_eq!(game.ship.combo, 3);
    assert_eq!(game.typing_buffer.text, " ");
}

#[test]
fn space_submits_against_enemies() {
    let mut rng = StdRng::seed_from_u64(26);
    let mut game = Game::new(content(&["alpha"]), Difficulty::Easy);
    game.ship.combo = 3;
    type_text(&mut game, &mut rng, "beta");
    assert_eq!(game.handle_key(&mut rng, press(Key::Space)), Submission::Enemy(typing_combat::Strike::Miss));
    assert_eq!(game.ship.combo, 0);
    assert!(game.typing_buffer.text.is_empty());
}

#[test]
fn tab_switches_weapon_and_paused_game_stands_still() {
    let mut rng = StdRng::seed_from_u64(27);
    let mut game = Game::new(content(&["alpha"]), Difficulty::Easy);
    game.handle_key(&mut rng, press(Key::Tab));
    assert_eq!(game.ship.current_weapon, typing_combat::Weapon::Laser);
    game.state = GameState::Paused;
    game.enemies.push(contact_enemy());
    assert!(!game.tick(&mut rng, 5000, &Vec::new(), still()));
    assert_eq!(game.ship.hp, 3);
    assert_eq!(game.enemies.len(), 1);
}

#[test]
fn reset_starts_over() {
    let mut rng = StdRng::seed_from_u64(28);
    let mut game = Game::new(content(&["alpha"]), Difficulty::Hard);
    game.enemies.push(contact_enemy());
    game.tick(&mut rng, 0, &Vec::new(), still());
    game.wave.current = 4;
    game.reset_game_on_start();
    assert_eq!(game.ship.hp, 3);
    assert_eq!(game.wave.current, 1);
    assert_eq!(game.wave.enemies_remaining, 5);
    assert!(game.enemies.is_empty());
    assert_eq!(game.state, GameState::Running);
    assert_eq!(game.difficulty, Difficulty::Hard);
}

#[test]
fn arrow_keys_fly_the_ship() {
    let mut ship = typing_combat::Ship::default();
    ship.player_movement(Steer { up: true, down: false, left: false, right: false }, 1000);
    assert_eq!(ship.position, Point { x: 0, y: 300_000 });
    ship.player_movement(Steer { up: true, down: true, left: false, right: false }, 1000);
    assert_eq!(ship.position, Point { x: 0, y: 300_000 });
    ship.player_movement(Steer { up: false, down: true, left: true, right: false }, 1000);
    // 300 units along the diagonal: about 212 units on each axis
    assert_eq!(ship.position.x, -212_132);
    assert_eq!(ship.position.y, 300_000 - 212_132);
}

#[test]
fn wave_waits_during_the_boss_warning() {
    let mut rng = StdRng::seed_from_u64(29);
    let mut game = Game::new(content(&["alpha"]), Difficulty::Easy);
    game.wave.current = 10;
    game.wave.enemies_remaining = 1;
    assert_eq!(game.spawn_enemies(&mut rng, 16), SpawnEvent::BossWarning);
    assert!(!game.wave_progression());
    assert_eq!(game.wave.current, 10);
}
