//! Core engine of a turn-stepped arcade shooter: a defending ship at the
//! bottom of a fixed grid exchanges fire with a descending formation of
//! aliens. The engine owns the player, the live blasts and the aliens, and
//! advances the whole world by exactly one step per input event; rendering
//! and input decoding live outside this crate.

pub mod alien;
pub mod blast;
pub mod constants;
pub mod game;
pub mod player;
pub mod rng;

pub use constants::GAME_HEIGHT;
pub use constants::GAME_WIDTH;
pub use game::Game;
pub use game::GameEvent;
pub use game::GameState;
