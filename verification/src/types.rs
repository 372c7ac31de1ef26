//! Plain enums shared by the games: game state, power-ups, sound effects, teams.
use vstd::prelude::*;

verus! {

/// Phase of an Arkanoid game.
#[derive(Clone, Copy, Debug, PartialEq, Eq, Structural)]
pub enum GameState {
    Ready,
    Playing,
    GameOver,
    Win,
}

/// Power-ups that fall from broken bricks.
#[derive(Clone, Copy, Debug, PartialEq, Eq, Structural)]
pub enum Powerup {
    Expand,
    Multiball,
    Slow,
    Pierce,
    ExtraLife,
    Laser,
}

/// Procedural sound effects.
#[derive(Clone, Copy, Debug, PartialEq, Eq, Structural)]
pub enum Sfx {
    Paddle,
    Brick,
    Shatter,
    Wall,
    Pickup,
    Laser,
    LifeLost,
    Launch,
    Win,
    Cannon,
    Explosion,
    Spawn,
}

/// The two armies of the tank battle.
#[derive(Clone, Copy, Debug, PartialEq, Eq, Structural)]
pub enum Team {
    Green,
    Steel,
}

} // verus!
