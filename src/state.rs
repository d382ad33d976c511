//! Game-wide modes and settings that the simulation reads.

use vstd::prelude::*;

verus! {

/// The outer game-state machine; the simulation systems run only while
/// `Running`, and the boss countdown while `BossWarning`.
#[derive(Clone, Copy, Debug, PartialEq, Eq, Structural)]
pub enum GameState {
    Menu,
    Settings,
    DifficultySelect,
    Running,
    BossWarning,
    Paused,
    GameOver,
}

impl Default for GameState {
    fn default() -> (r: GameState)
        ensures
            r == GameState::Menu,
    {
        GameState::Menu
    }
}

/// `Easy` compares typed text without regard to letter case and hands out
/// lower-case words; `Hard` compares exactly and hands out mixed case.
#[derive(Clone, Copy, Debug, PartialEq, Eq, Structural)]
pub enum Difficulty {
    Easy,
    Hard,
}

impl Default for Difficulty {
    fn default() -> (r: Difficulty)
        ensures
            r == Difficulty::Easy,
    {
        Difficulty::Easy
    }
}

/// Whether entering `Running` should start a fresh session.
#[derive(Clone, Copy, Debug, PartialEq, Eq, Structural)]
pub struct ShouldResetOnStart(pub bool);

impl Default for ShouldResetOnStart {
    fn default() -> (r: ShouldResetOnStart)
        ensures
            r.0 == false,
    {
        ShouldResetOnStart(false)
    }
}

} // verus!
