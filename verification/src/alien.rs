//! The `Alien` entity: position, liveness, a fixed 2x2 visual pattern, and a
//! five-stage destruction animation. Stage 0 is intact and hittable; stages
//! 1 through 4 are an irreversible animation during which the alien is
//! immune to further hits; stage 5 means the animation has finished and the
//! alien is no longer alive.

use crate::blast::Blast;
use crate::constants::{ALIEN_DESIGNS, ALIEN_DESIGN_COUNT, ALIEN_HEIGHT, ALIEN_WIDTH, BLAST_CHAR,
    GAME_WIDTH};
use vstd::prelude::*;

verus! {

/// An enemy alien.
#[derive(Debug, Clone, Copy)]
pub struct Alien {
    /// The x-coordinate of the alien's top-left corner.
    pub x: u16,
    /// The y-coordinate of the alien's top-left corner.
    pub y: u16,
    /// Whether the alien is still alive. An alien stays alive through its
    /// explosion animation and turns dead the moment the animation
    /// completes.
    pub alive: bool,
    /// The 2x2 character design of this alien.
    pub design: [char; 4],
    /// The current stage of the destruction animation: 0 when intact, 1
    /// through 4 while animating, 5 once complete.
    pub explosion_frame: u8,
}

/// Whether a blast at its position strikes this alien: the alien must be
/// alive and intact (an alien mid-explosion or dead is immune), and the
/// blast's coordinates must fall inside the alien's 2-wide, 2-tall box.
pub open spec fn hits(a: Alien, b: Blast) -> bool {
    &&& a.alive
    &&& a.explosion_frame == 0
    &&& a.x <= b.x < a.x + ALIEN_WIDTH
    &&& a.y <= b.y < a.y + ALIEN_HEIGHT
}

/// Where the alien stands after one shift left: one column over, unless it
/// is already at the left edge.
pub open spec fn shifted_left(a: Alien) -> Alien {
    if a.x > 0 {
        Alien { x: (a.x - 1) as u16, ..a }
    } else {
        a
    }
}

/// Where the alien stands after one shift right: one column over, unless its
/// right edge already touches the right edge of the screen.
pub open spec fn shifted_right(a: Alien) -> Alien {
    if a.x < GAME_WIDTH - ALIEN_WIDTH {
        Alien { x: (a.x + 1) as u16, ..a }
    } else {
        a
    }
}

/// The character shown in cell `i` of the alien's 2x2 box: each stage of the
/// explosion animation replaces one further cell, in order, with the blast
/// glyph, and a replaced cell is never restored at a later stage.
pub open spec fn display_cell(a: Alien, i: int) -> char {
    if a.explosion_frame > i {
        BLAST_CHAR
    } else {
        a.design[i]
    }
}

impl Alien {
    /// Creates a new alien at the given position, wearing the design with
    /// the given index. The index is drawn by the caller, so a test can pin
    /// the design down and the game can draw it at random.
    pub fn new(x: u16, y: u16, design_index: usize) -> (a: Alien)
        requires
            design_index < ALIEN_DESIGN_COUNT,
        ensures
            a.x == x,
            a.y == y,
            a.alive,
            a.explosion_frame == 0,
            a.design == ALIEN_DESIGNS[design_index as int],
    {
        Alien { x, y, alive: true, design: ALIEN_DESIGNS[design_index], explosion_frame: 0 }
    }

    /// Creates a new alien with every field explicit, for tests that need a
    /// precisely controlled starting state.
    pub fn new_for_test(x: u16, y: u16, alive: bool, design: [char; 4], explosion_frame: u8) -> (a:
        Alien)
        ensures
            a.x == x,
            a.y == y,
            a.alive == alive,
            a.design == design,
            a.explosion_frame == explosion_frame,
    {
        Alien { x, y, alive, design, explosion_frame }
    }

    /// Returns the alien's current x-coordinate.
    pub fn x(&self) -> (r: u16)
        ensures
            r == self.x,
    {
        self.x
    }

    /// Returns the alien's current y-coordinate.
    pub fn y(&self) -> (r: u16)
        ensures
            r == self.y,
    {
        self.y
    }

    /// Sets the alien's y-coordinate.
    pub fn set_y(&mut self, y: u16)
        ensures
            *final(self) == (Alien { y, ..*old(self) }),
    {
        self.y = y;
    }

    /// Returns whether the alien is alive.
    pub fn alive(&self) -> (r: bool)
        ensures
            r == self.alive,
    {
        self.alive
    }

    /// Sets the alien's alive status.
    pub fn set_alive(&mut self, alive: bool)
        ensures
            *final(self) == (Alien { alive, ..*old(self) }),
    {
        self.alive = alive;
    }

    /// Returns the current explosion stage of the alien.
    pub fn explosion_frame(&self) -> (r: u8)
        ensures
            r == self.explosion_frame,
    {
        self.explosion_frame
    }

    /// Sets the alien's explosion stage.
    pub fn set_explosion_frame(&mut self, frame: u8)
        ensures
            *final(self) == (Alien { explosion_frame: frame, ..*old(self) }),
    {
        self.explosion_frame = frame;
    }

    /// Advances the explosion animation by one stage.
    pub fn increment_explosion_frame(&mut self)
        requires
            old(self).explosion_frame < u8::MAX,
        ensures
            *final(self) == (Alien {
                explosion_frame: (old(self).explosion_frame + 1) as u8,
                ..*old(self)
            }),
    {
        self.explosion_frame = self.explosion_frame + 1;
    }

    /// Returns the alien's design.
    pub fn design(&self) -> (r: [char; 4])
        ensures
            r == self.design,
    {
        self.design
    }

    /// Moves the alien one column left, stopping at the left edge of the
    /// screen.
    pub fn move_left(&mut self)
        ensures
            *final(self) == shifted_left(*old(self)),
    {
        if self.x > 0 {
            self.x = self.x - 1;
        }
    }

    /// Moves the alien one column right, stopping where its right edge
    /// touches the right edge of the screen.
    pub fn move_right(&mut self)
        ensures
            *final(self) == shifted_right(*old(self)),
    {
        if self.x < GAME_WIDTH - ALIEN_WIDTH {
            self.x = self.x + 1;
        }
    }

    /// Moves the alien one row down. Descent is unbounded: reaching the
    /// bottom is a loss condition, not a wall.
    pub fn move_down(&mut self)
        requires
            old(self).y < u16::MAX,
        ensures
            *final(self) == (Alien { y: (old(self).y + 1) as u16, ..*old(self) }),
    {
        self.y = self.y + 1;
    }

    /// Reports whether the given blast strikes this alien. An alien that is
    /// dead or mid-explosion is immune; this is the sole invulnerability
    /// rule, enforced only here.
    pub fn collides_with_blast(&self, blast: &Blast) -> (r: bool)
        ensures
            r == hits(*self, *blast),
    {
        self.alive && self.explosion_frame == 0 && blast.x() >= self.x && blast.x() - self.x
            < ALIEN_WIDTH && blast.y() >= self.y && blast.y() - self.y < ALIEN_HEIGHT
    }

    /// Returns the two display rows of the alien's 2x2 box, with the cells
    /// already consumed by the explosion animation replaced by the blast
    /// glyph.
    pub fn display_strings(&self) -> (r: (String, String))
        ensures
            r.0@ == seq![display_cell(*self, 0), display_cell(*self, 1)],
            r.1@ == seq![display_cell(*self, 2), display_cell(*self, 3)],
    {
        let c0 = if self.explosion_frame > 0 { BLAST_CHAR } else { self.design[0] };
        let c1 = if self.explosion_frame > 1 { BLAST_CHAR } else { self.design[1] };
        let c2 = if self.explosion_frame > 2 { BLAST_CHAR } else { self.design[2] };
        let c3 = if self.explosion_frame > 3 { BLAST_CHAR } else { self.design[3] };
        let mut top = String::new();
        push_char(&mut top, c0);
        push_char(&mut top, c1);
        let mut bottom = String::new();
        push_char(&mut bottom, c2);
        push_char(&mut bottom, c3);
        proof {
            assert(top@ =~= seq![display_cell(*self, 0), display_cell(*self, 1)]);
            assert(bottom@ =~= seq![display_cell(*self, 2), display_cell(*self, 3)]);
        }
        (top, bottom)
    }
}

/// Relies on String::push: appends the given character to the end of the
/// string.
#[verifier::external_body]
fn push_char(s: &mut String, c: char)
    ensures
        final(s)@ == old(s)@.push(c),
{
    s.push(c)
}

/// Law: an alien whose destruction animation has begun never satisfies the
/// hit test against any blast, wherever both stand.
pub proof fn lemma_exploding_alien_immune(a: Alien, b: Blast)
    requires
        a.explosion_frame > 0,
    ensures
        !hits(a, b),
{
}

/// Law: the cells revealed by the explosion animation are cumulative: every
/// cell showing the blast glyph at some stage still shows it at every later
/// stage.
pub proof fn lemma_explosion_cells_additive(a1: Alien, a2: Alien, i: int)
    requires
        a1.design == a2.design,
        a1.explosion_frame <= a2.explosion_frame,
        0 <= i < 4,
        display_cell(a1, i) == BLAST_CHAR,
        a1.design[i] != BLAST_CHAR,
    ensures
        display_cell(a2, i) == BLAST_CHAR,
{
}

} // verus!
