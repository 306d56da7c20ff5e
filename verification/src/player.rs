//! The `Player` entity: the defending ship, a horizontally bounded position
//! on a fixed row near the bottom of the screen.

use crate::alien::Alien;
use crate::constants::{ALIEN_HEIGHT, ALIEN_WIDTH, GAME_HEIGHT, GAME_WIDTH, PLAYER_WIDTH,
    PLAYER_Y_OFFSET};
use vstd::prelude::*;

verus! {

/// The player's ship. Its vertical position is fixed; only the horizontal
/// center `x` changes, clamped to the playfield.
#[derive(Debug, Clone, Copy)]
pub struct Player {
    /// The x-coordinate of the player's center.
    pub x: u16,
}

/// The smallest center column the ship may occupy: its left half must stay
/// on screen.
pub open spec fn player_min_x() -> int {
    PLAYER_WIDTH as int / 2
}

/// The largest center column the ship may occupy: its right half must stay
/// on screen.
pub open spec fn player_max_x() -> int {
    GAME_WIDTH as int - PLAYER_WIDTH as int / 2 - 1
}

/// The fixed row on which the ship is drawn.
pub open spec fn player_row() -> int {
    GAME_HEIGHT as int - PLAYER_Y_OFFSET as int
}

/// Where the ship stands after one move to the left: one column over, unless
/// it is already at the left bound.
pub open spec fn moved_left(p: Player) -> Player {
    if p.x > player_min_x() {
        Player { x: (p.x - 1) as u16 }
    } else {
        p
    }
}

/// Where the ship stands after one move to the right: one column over,
/// unless it is already at the right bound.
pub open spec fn moved_right(p: Player) -> Player {
    if p.x < player_max_x() {
        Player { x: (p.x + 1) as u16 }
    } else {
        p
    }
}

/// Purely geometric bounding-box test between the ship's single-row span and
/// an alien's 2-wide, 2-tall box. Knows nothing of liveness or explosions.
pub open spec fn overlaps_alien(p: Player, a: Alien) -> bool {
    let p_left = if p.x >= PLAYER_WIDTH as int / 2 {
        p.x - PLAYER_WIDTH as int / 2
    } else {
        0
    };
    let p_right = p.x + PLAYER_WIDTH as int / 2 - 1;
    let a_left = a.x as int;
    let a_right = a.x + ALIEN_WIDTH - 1;
    let a_top = a.y as int;
    let a_bottom = a.y + ALIEN_HEIGHT - 1;
    &&& p_left <= a_right
    &&& p_right >= a_left
    &&& player_row() <= a_bottom
    &&& player_row() >= a_top
}

impl Player {
    /// Creates a new player at the horizontal center of the screen.
    pub fn new() -> (p: Player)
        ensures
            p.x == GAME_WIDTH / 2,
    {
        Player { x: GAME_WIDTH / 2 }
    }

    /// Creates a new player at an explicit position, for tests that need a
    /// precisely controlled starting state.
    pub fn new_for_test(x: u16) -> (p: Player)
        ensures
            p.x == x,
    {
        Player { x }
    }

    /// Returns the player's current x-coordinate.
    pub fn x(&self) -> (r: u16)
        ensures
            r == self.x,
    {
        self.x
    }

    /// Moves the ship one column left, clamped at the left edge of the
    /// screen.
    pub fn move_left(&mut self)
        ensures
            *final(self) == moved_left(*old(self)),
    {
        if self.x > PLAYER_WIDTH / 2 {
            self.x = self.x - 1;
        }
    }

    /// Moves the ship one column right, clamped at the right edge of the
    /// screen.
    pub fn move_right(&mut self)
        ensures
            *final(self) == moved_right(*old(self)),
    {
        if self.x < GAME_WIDTH - PLAYER_WIDTH / 2 - 1 {
            self.x = self.x + 1;
        }
    }

    /// Returns the ship's rendering, a fixed piece of ASCII art.
    pub fn display_string(&self) -> &str {
        "\u{2551}_||_\u{2551}"
    }

    /// Returns the fixed row on which the ship stands.
    pub fn y_pos(&self) -> (r: u16)
        ensures
            r == player_row(),
    {
        GAME_HEIGHT - PLAYER_Y_OFFSET
    }

    /// Reports whether the ship's bounding box geometrically overlaps the
    /// alien's. The alien's liveness and explosion stage are ignored here:
    /// the caller decides whether a geometric overlap matters.
    pub fn collides_with_alien(&self, alien: &Alien) -> (r: bool)
        ensures
            r == overlaps_alien(*self, *alien),
    {
        let half = (PLAYER_WIDTH / 2) as u32;
        let px = self.x as u32;
        let p_left = if px >= half { px - half } else { 0 };
        let p_right = px + half - 1;

        let a_left = alien.x() as u32;
        let a_right = alien.x() as u32 + ALIEN_WIDTH as u32 - 1;
        let a_top = alien.y() as u32;
        let a_bottom = alien.y() as u32 + ALIEN_HEIGHT as u32 - 1;

        let p_row = self.y_pos() as u32;

        let horizontal_overlap = p_left <= a_right && p_right >= a_left;
        let vertical_overlap = p_row <= a_bottom && p_row >= a_top;
        horizontal_overlap && vertical_overlap
    }
}

impl Default for Player {
    /// A fresh player, at the horizontal center of the screen.
    fn default() -> (p: Player)
        ensures
            p.x == GAME_WIDTH / 2,
    {
        Player::new()
    }
}

/// Law: a ship standing at the left bound is not moved by a further command
/// to the left, so repeated commands toward that bound never change its
/// position.
pub proof fn lemma_clamped_at_left_bound(p: Player)
    requires
        p.x == player_min_x(),
    ensures
        moved_left(p) == p,
{
}

/// Law: a ship standing at the right bound is not moved by a further command
/// to the right, so repeated commands toward that bound never change its
/// position.
pub proof fn lemma_clamped_at_right_bound(p: Player)
    requires
        p.x == player_max_x(),
    ensures
        moved_right(p) == p,
{
}

} // verus!
