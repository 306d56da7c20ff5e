//! The `Blast` entity: a projectile unleashed by the player's ship that
//! climbs one row per step and expires at the top edge of the screen.

use vstd::prelude::*;

verus! {

/// A blast unleashed by the player's ship, identified by its position.
#[derive(Debug, Clone, Copy)]
pub struct Blast {
    /// The x-coordinate (horizontal position) of the blast.
    pub x: u16,
    /// The y-coordinate (vertical position) of the blast.
    pub y: u16,
}

/// Where a blast stands after one step of flight: one row up, except that a
/// blast already on the top row stays where it is.
pub open spec fn risen(b: Blast) -> Blast {
    if b.y > 0 {
        Blast { x: b.x, y: (b.y - 1) as u16 }
    } else {
        b
    }
}

impl Blast {
    /// Creates a new blast at the given position.
    pub fn new(x: u16, y: u16) -> (b: Blast)
        ensures
            b.x == x,
            b.y == y,
    {
        Blast { x, y }
    }

    /// Returns the blast's current x-coordinate.
    pub fn x(&self) -> (r: u16)
        ensures
            r == self.x,
    {
        self.x
    }

    /// Returns the blast's current y-coordinate.
    pub fn y(&self) -> (r: u16)
        ensures
            r == self.y,
    {
        self.y
    }

    /// Sets the blast's y-coordinate.
    pub fn set_y(&mut self, y: u16)
        ensures
            final(self).x == old(self).x,
            final(self).y == y,
    {
        self.y = y;
    }

    /// Moves the blast up one row and reports whether it is still on screen:
    /// a blast on the top row does not move and reports `false`.
    pub fn move_up(&mut self) -> (on_screen: bool)
        ensures
            *final(self) == risen(*old(self)),
            on_screen == (old(self).y > 0),
    {
        if self.y > 0 {
            self.y = self.y - 1;
            true
        } else {
            false
        }
    }
}

} // verus!
