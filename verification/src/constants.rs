//! Fixed parameters of the playfield and of the entities that move on it.

use vstd::prelude::*;

verus! {

/// The width of the game screen in columns.
pub const GAME_WIDTH: u16 = 80;

/// The height of the game screen in rows.
pub const GAME_HEIGHT: u16 = 24;

/// The character used to represent blasts.
pub const BLAST_CHAR: char = '*';

/// The frequency at which aliens move down, in game frames.
pub const ALIEN_MOVE_DOWN_FREQ: u64 = 10;

/// The visual width of the player's ship in characters.
pub const PLAYER_WIDTH: u16 = 6;

/// The visual width of an alien in characters.
pub const ALIEN_WIDTH: u16 = 2;

/// The visual height of an alien in characters.
pub const ALIEN_HEIGHT: u16 = 2;

/// The fixed vertical offset from the bottom of the screen for the player's ship.
pub const PLAYER_Y_OFFSET: u16 = 2;

/// The starting score for a new game.
pub const INITIAL_SCORE: i32 = 100;

/// The score bonus awarded when an alien's destruction animation completes.
pub const DESTROY_BONUS: i32 = 250;

/// The cost deducted from the score for each movement or fire action.
pub const ACTION_COST: i32 = 1;

/// The 2x2 character designs an alien may wear, as
/// [top-left, top-right, bottom-left, bottom-right]. A fresh alien picks one
/// at random; the code points are block-drawing glyphs.
pub const ALIEN_DESIGNS: [[char; 4]; 4] = [
    ['\u{b2}', '\u{b2}', '\u{b0}', '\u{b0}'],
    ['\u{db}', '\u{db}', '\u{df}', '\u{df}'],
    ['\u{dc}', '\u{dc}', '\u{dc}', '\u{dc}'],
    ['\u{ea}', '\u{ea}', '\u{c4}', '\u{c4}'],
];

/// The number of designs in `ALIEN_DESIGNS`.
pub const ALIEN_DESIGN_COUNT: usize = 4;

} // verus!
