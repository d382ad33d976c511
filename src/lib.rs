//! Simulation core of an arcade typing-combat game: wave spawning, typed-input
//! combat, particle effects and the boss encounter, on integer fixed-point
//! state driven by an explicit, fixed-order tick.

pub mod boss;
pub mod combat;
pub mod content;
pub mod enemy;
pub mod game;
pub mod geometry;
pub mod items;
pub mod menu;
pub mod particles;
pub mod player;
mod random;
pub mod state;
pub mod text;
pub mod timer;
pub mod wave;

pub use boss::{ActiveBoss, Boss, BossLine, BossParticle, BossStrike, BossWarningTimer};
pub use combat::Strike;
pub use content::{ContentManager, ParagraphContent};
pub use enemy::{Enemy, EnemyBullet, Health, Projectile, ShootTimer, Word};
pub use game::{BossPhase, Game, SpawnEvent, Submission};
pub use geometry::Point;
pub use items::HealthItem;
pub use menu::MenuSelection;
pub use particles::{Particle, ParticleEngine, ParticleType, Rgb};
pub use player::{Ship, Steer, Weapon};
pub use state::{Difficulty, GameState, ShouldResetOnStart};
pub use text::{Key, KeyEvent, TypingBuffer};
pub use timer::{Timer, TimerMode};
pub use wave::Wave;
