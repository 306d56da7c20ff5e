//! The simulation engine. A `Game` owns the player, the live blasts, the
//! alien formation, a frame counter, the score and the lifecycle state, and
//! advances the whole world by exactly one discrete step per input event:
//! command, blast flight, collision resolution, explosion animation, alien
//! movement, and the end-of-game checks, in that fixed order.

use crate::alien::{hits, shifted_left, shifted_right, Alien};
use crate::blast::{risen, Blast};
use crate::constants::{ACTION_COST, ALIEN_DESIGNS, ALIEN_DESIGN_COUNT, ALIEN_HEIGHT, ALIEN_MOVE_DOWN_FREQ,
    ALIEN_WIDTH, DESTROY_BONUS, GAME_HEIGHT, GAME_WIDTH, INITIAL_SCORE, PLAYER_WIDTH};
use crate::player::{moved_left, moved_right, overlaps_alien, player_max_x, player_min_x,
    player_row, Player};
use crate::rng;
use vstd::prelude::*;

verus! {

/// The lifecycle state of the game. `Playing` is initial; the three others
/// are terminal: once one of them is entered, no step mutates the world
/// again.
#[derive(Debug, PartialEq, Eq, Structural, Clone, Copy)]
pub enum GameState {
    /// The game is running and accepting input.
    Playing,
    /// The player has destroyed every alien.
    Win,
    /// An alien invaded the player's row or rammed the ship.
    GameOver,
    /// The player chose to stop.
    Quit,
}

/// One abstract input command, already decoded from raw input by the caller.
#[derive(Debug, Clone, Copy)]
pub enum GameEvent {
    /// Move the player ship one column left.
    MoveLeft,
    /// Move the player ship one column right.
    MoveRight,
    /// Unleash a blast from the ship.
    Fire,
    /// Stop the game.
    Quit,
    /// Advance the simulation one frame with no player action.
    AdvanceFrame,
}

/// The whole state of one game session.
#[derive(Debug)]
pub struct Game {
    /// The player's ship.
    pub player: Player,
    /// The blasts currently in flight.
    pub blasts: Vec<Blast>,
    /// The alien formation, intact and exploding aliens alike.
    pub aliens: Vec<Alien>,
    /// How many steps the game has taken.
    pub frame_counter: u64,
    /// The lifecycle state.
    pub game_state: GameState,
    /// The source of random draws for alien behaviour.
    pub rng: rand::rngs::ThreadRng,
    /// The player's score.
    pub score: i32,
}

/// Whether the alien is intact: alive with its destruction animation not yet
/// begun. Only intact aliens are hittable, movable, and dangerous.
pub open spec fn intact(a: Alien) -> bool {
    a.alive && a.explosion_frame == 0
}

/// Addition on the score, saturating at the bounds of its representation.
pub open spec fn sat_add32(a: int, b: int) -> int {
    if a + b > i32::MAX {
        i32::MAX as int
    } else if a + b < i32::MIN {
        i32::MIN as int
    } else {
        a + b
    }
}

/// The player after the command phase: movement commands move the ship,
/// every other command leaves it.
pub open spec fn player_after_event(p: Player, ev: GameEvent) -> Player {
    match ev {
        GameEvent::MoveLeft => moved_left(p),
        GameEvent::MoveRight => moved_right(p),
        _ => p,
    }
}

/// The score after the command phase: movement and fire each cost a fixed
/// amount, saturating; the other commands are free.
pub open spec fn score_after_event(sc: int, ev: GameEvent) -> int {
    match ev {
        GameEvent::MoveLeft | GameEvent::MoveRight | GameEvent::Fire => sat_add32(
            sc,
            -(ACTION_COST as int),
        ),
        _ => sc,
    }
}

/// The lifecycle state after the command phase: only `Quit` changes it.
pub open spec fn state_after_event(st: GameState, ev: GameEvent) -> GameState {
    match ev {
        GameEvent::Quit => GameState::Quit,
        _ => st,
    }
}

/// The blast a fire command spawns: at the player's column, one row above
/// the ship.
pub open spec fn spawned_blast(p: Player) -> Blast {
    Blast { x: p.x, y: (player_row() - 1) as u16 }
}

/// The blasts after the command phase: `Fire` appends one new blast, every
/// other command leaves the collection.
pub open spec fn blasts_after_event(bs: Seq<Blast>, p: Player, ev: GameEvent) -> Seq<Blast> {
    match ev {
        GameEvent::Fire => bs.push(spawned_blast(p)),
        _ => bs,
    }
}

/// The blasts still on screen: those whose row is above zero, in order.
pub open spec fn live_blasts(bs: Seq<Blast>) -> Seq<Blast>
    decreases bs.len(),
{
    if bs.len() == 0 {
        Seq::empty()
    } else {
        let rest = live_blasts(bs.drop_last());
        if bs.last().y > 0 {
            rest.push(bs.last())
        } else {
            rest
        }
    }
}

/// The blasts after the flight phase: each climbs one row, and those that
/// reach the top row expire.
pub open spec fn blasts_after_flight(bs: Seq<Blast>) -> Seq<Blast> {
    live_blasts(bs.map_values(|b: Blast| risen(b)))
}

/// The index of the first alien, at or after position `i`, struck by the
/// blast; -1 when none is.
pub open spec fn first_hit_from(aliens: Seq<Alien>, b: Blast, i: int) -> int
    decreases aliens.len() - i,
{
    if i < 0 || i >= aliens.len() {
        -1
    } else if hits(aliens[i], b) {
        i
    } else {
        first_hit_from(aliens, b, i + 1)
    }
}

/// An alien the instant a blast strikes it: its destruction animation
/// begins.
pub open spec fn struck(a: Alien) -> Alien {
    Alien { explosion_frame: 1, ..a }
}

/// A blast that has struck an alien: moved to the top row, marking it for
/// removal.
pub open spec fn spent(b: Blast) -> Blast {
    Blast { x: b.x, y: 0 }
}

/// Collision resolution from blast `i` onward: each still-live blast, in
/// order, strikes the first alien it overlaps, if any, and is consumed by
/// the strike; at most one alien is hit per blast.
pub open spec fn collide_from(aliens: Seq<Alien>, bs: Seq<Blast>, i: int) -> (Seq<Alien>, Seq<
    Blast,
>)
    decreases bs.len() - i,
{
    if i < 0 || i >= bs.len() {
        (aliens, bs)
    } else if bs[i].y > 0 {
        let j = first_hit_from(aliens, bs[i], 0);
        if j >= 0 {
            collide_from(aliens.update(j, struck(aliens[j])), bs.update(i, spent(bs[i])), i + 1)
        } else {
            collide_from(aliens, bs, i + 1)
        }
    } else {
        collide_from(aliens, bs, i + 1)
    }
}

/// One alien after the animation phase: an animation in progress advances
/// one stage, and the alien dies the instant the final stage is reached; an
/// intact or finished alien is untouched.
pub open spec fn after_burst(a: Alien) -> Alien {
    if 0 < a.explosion_frame < 5 {
        if a.explosion_frame + 1 == 5 {
            Alien { explosion_frame: 5, alive: false, ..a }
        } else {
            Alien { explosion_frame: (a.explosion_frame + 1) as u8, ..a }
        }
    } else {
        a
    }
}

/// Whether this step's animation phase completes the alien's destruction,
/// which is the one moment the destruction bonus is awarded.
pub open spec fn completes_now(a: Alien) -> bool {
    a.explosion_frame == 4
}

/// The aliens after the animation phase.
pub open spec fn aliens_after_bursts(s: Seq<Alien>) -> Seq<Alien> {
    s.map_values(|a: Alien| after_burst(a))
}

/// The score after the animation phase: one saturating bonus per alien whose
/// destruction completes this step, in formation order.
pub open spec fn score_after_bursts(aliens: Seq<Alien>, sc: int) -> int
    decreases aliens.len(),
{
    if aliens.len() == 0 {
        sc
    } else {
        let s1 = score_after_bursts(aliens.drop_last(), sc);
        if completes_now(aliens.last()) {
            sat_add32(s1, DESTROY_BONUS as int)
        } else {
            s1
        }
    }
}

/// One alien's horizontal move toward the player's column: right if it is
/// strictly left of the ship's span, left if strictly right of it, no move
/// when aligned; both moves stop at the screen edges.
pub open spec fn toward(a: Alien, px: int) -> Alien {
    let left_limit = if px >= PLAYER_WIDTH as int / 2 {
        px - PLAYER_WIDTH as int / 2
    } else {
        0
    };
    if a.x < left_limit && a.x < GAME_WIDTH - ALIEN_WIDTH {
        shifted_right(a)
    } else if a.x > px + PLAYER_WIDTH as int / 2 - 1 && a.x > 0 {
        shifted_left(a)
    } else {
        a
    }
}

/// One alien after a descent tick: an intact alien drops one row, any other
/// stays.
pub open spec fn sunk(a: Alien) -> Alien {
    if intact(a) {
        Alien { y: (a.y + 1) as u16, ..a }
    } else {
        a
    }
}

/// The formation after the vertical part of the movement phase: on a
/// descent tick every intact alien drops one row.
pub open spec fn descended(s: Seq<Alien>, go: bool) -> Seq<Alien> {
    if go {
        s.map_values(|a: Alien| sunk(a))
    } else {
        s
    }
}

/// What the movement phase may produce from formation `s`, given the
/// player's column and the current frame count: one intact alien, chosen at
/// random when any exists, steps toward the player, and on a descent tick
/// the whole intact formation drops one row.
pub open spec fn movement_post(s: Seq<Alien>, px: int, frame: int, r: Seq<Alien>) -> bool {
    let go = frame % (ALIEN_MOVE_DOWN_FREQ as int) == 0;
    if exists|j: int| 0 <= j < s.len() && intact(#[trigger] s[j]) {
        exists|j: int|
            0 <= j < s.len() && intact(#[trigger] s[j]) && r == descended(
                s.update(j, toward(s[j], px)),
                go,
            )
    } else {
        r == descended(s, go)
    }
}

/// Whether the alien still belongs in the formation: an alien is removed
/// only once it is dead and its destruction animation has fully played out.
pub open spec fn active(a: Alien) -> bool {
    a.alive || a.explosion_frame < 5
}

/// The formation once fully exploded aliens have been purged.
pub open spec fn purged(s: Seq<Alien>) -> Seq<Alien>
    decreases s.len(),
{
    if s.len() == 0 {
        Seq::empty()
    } else {
        let rest = purged(s.drop_last());
        if active(s.last()) {
            rest.push(s.last())
        } else {
            rest
        }
    }
}

/// Whether no alien in the formation is alive: the win condition.
pub open spec fn all_defeated(s: Seq<Alien>) -> bool {
    forall|i: int| 0 <= i < s.len() ==> !(#[trigger] s[i]).alive
}

/// Whether some intact alien has descended to or past the player's row: the
/// invasion loss condition.
pub open spec fn any_invaded(s: Seq<Alien>) -> bool {
    exists|i: int|
        0 <= i < s.len() && intact(#[trigger] s[i]) && s[i].y + ALIEN_HEIGHT - 1 >= player_row()
}

/// Whether some intact alien geometrically overlaps the ship: the collision
/// loss condition.
pub open spec fn any_rammed(s: Seq<Alien>, p: Player) -> bool {
    exists|i: int| 0 <= i < s.len() && intact(#[trigger] s[i]) && overlaps_alien(p, s[i])
}

/// The lifecycle state after the end-of-game checks, on the purged
/// formation: win is checked strictly before either loss condition, so
/// destroying the last alien on the same step an invasion would land always
/// resolves as a win.
pub open spec fn outcome(s: Seq<Alien>, p: Player, st: GameState) -> GameState {
    if all_defeated(s) {
        GameState::Win
    } else if any_invaded(s) {
        GameState::GameOver
    } else if any_rammed(s, p) {
        GameState::GameOver
    } else {
        st
    }
}

/// Whether one alien is within the bounds the engine maintains: an intact
/// alien never stands past the right edge nor below the screen.
pub open spec fn alien_in_field(a: Alien) -> bool {
    intact(a) ==> a.x <= GAME_WIDTH - ALIEN_WIDTH && a.y <= GAME_HEIGHT
}

/// The engine's well-formedness while play is in progress: the ship's
/// center is within its clamped range and every intact alien is on the
/// board. Terminal states promise nothing, since nothing moves any more.
pub open spec fn wf(g: Game) -> bool {
    g.game_state == GameState::Playing ==> {
        &&& player_min_x() <= g.player.x <= player_max_x()
        &&& forall|i: int| 0 <= i < g.aliens@.len() ==> alien_in_field(#[trigger] g.aliens@[i])
    }
}

/// The whole one-step contract of `update` when play is in progress: the
/// phases run in their fixed order on one another's output, and only the
/// random pick of the horizontal mover is left open.
pub open spec fn step_post(pre: Game, post: Game, ev: GameEvent) -> bool {
    let p1 = player_after_event(pre.player, ev);
    let sc1 = score_after_event(pre.score as int, ev);
    let st1 = state_after_event(pre.game_state, ev);
    let bs1 = blasts_after_event(pre.blasts@, pre.player, ev);
    let bs2 = blasts_after_flight(bs1);
    let a1 = collide_from(pre.aliens@, bs2, 0).0;
    let bs3 = live_blasts(collide_from(pre.aliens@, bs2, 0).1);
    let a2 = aliens_after_bursts(a1);
    let sc2 = score_after_bursts(a1, sc1);
    &&& post.frame_counter == pre.frame_counter + 1
    &&& post.player == p1
    &&& post.blasts@ == bs3
    &&& post.score as int == sc2
    &&& exists|r: Seq<Alien>|
        {
            &&& #[trigger] movement_post(a2, p1.x as int, pre.frame_counter as int + 1, r)
            &&& post.aliens@ == purged(r)
            &&& post.game_state == outcome(purged(r), p1, st1)
        }
}

impl Game {
    /// Creates a fresh game: the player at the center, no blasts, the full
    /// 10-by-3 alien grid in its starting position, the starting score, and
    /// play in progress.
    pub fn new() -> (g: Game)
        ensures
            g.player.x == GAME_WIDTH / 2,
            g.blasts@.len() == 0,
            g.frame_counter == 0,
            g.game_state == GameState::Playing,
            g.score == INITIAL_SCORE,
            g.aliens@.len() == 30,
            forall|k: int|
                0 <= k < 30 ==> {
                    &&& (#[trigger] g.aliens@[k]).x == (k % 10) * 6 + 10
                    &&& g.aliens@[k].y == (k / 10) * 3 + 3
                    &&& g.aliens@[k].alive
                    &&& g.aliens@[k].explosion_frame == 0
                    &&& exists|d: int|
                        0 <= d < ALIEN_DESIGN_COUNT && g.aliens@[k].design == ALIEN_DESIGNS[d]
                },
            wf(g),
    {
        let mut game = Game {
            player: Player::new(),
            blasts: Vec::new(),
            aliens: Vec::new(),
            frame_counter: 0,
            game_state: GameState::Playing,
            rng: rng::fresh_rng(),
            score: INITIAL_SCORE,
        };
        Game::initialize_aliens_for_game(&mut game.aliens, &mut game.rng);
        proof {
            assert forall|k: int| 0 <= k < 30 implies {
                &&& (#[trigger] game.aliens@[k]).x == (k % 10) * 6 + 10
                &&& game.aliens@[k].y == (k / 10) * 3 + 3
                &&& game.aliens@[k].alive
                &&& game.aliens@[k].explosion_frame == 0
                &&& exists|d: int|
                    0 <= d < ALIEN_DESIGN_COUNT && game.aliens@[k].design == ALIEN_DESIGNS[d]
            } by {
                assert(game.aliens@[0 + k].alive);
                let d = choose|d: int|
                    0 <= d < ALIEN_DESIGN_COUNT && game.aliens@[0 + k].design == ALIEN_DESIGNS[d];
                assert(game.aliens@[k].design == ALIEN_DESIGNS[d]);
            }
        }
        game
    }

    /// Appends the starting grid of aliens to the given collection: three
    /// rows of ten, spaced six columns and three rows apart, each wearing a
    /// randomly drawn design.
    pub fn initialize_aliens_for_game(aliens: &mut Vec<Alien>, rng: &mut rand::rngs::ThreadRng)
        ensures
            final(aliens)@.len() == old(aliens)@.len() + 30,
            final(aliens)@.subrange(0, old(aliens)@.len() as int) == old(aliens)@,
            forall|k: int|
                0 <= k < 30 ==> {
                    &&& (#[trigger] final(aliens)@[old(aliens)@.len() + k]).x == (k % 10) * 6 + 10
                    &&& final(aliens)@[old(aliens)@.len() + k].y == (k / 10) * 3 + 3
                    &&& final(aliens)@[old(aliens)@.len() + k].alive
                    &&& final(aliens)@[old(aliens)@.len() + k].explosion_frame == 0
                    &&& exists|d: int|
                        0 <= d < ALIEN_DESIGN_COUNT && final(aliens)@[old(aliens)@.len() + k].design
                            == ALIEN_DESIGNS[d]
                },
    {
        let base = aliens.len();
        let mut k: usize = 0;
        while k < 30
            invariant
                aliens@.len() == base + k,
                base == old(aliens)@.len(),
                k <= 30,
                aliens@.subrange(0, base as int) == old(aliens)@,
                forall|m: int|
                    0 <= m < k ==> {
                        &&& (#[trigger] aliens@[base + m]).x == (m % 10) * 6 + 10
                        &&& aliens@[base + m].y == (m / 10) * 3 + 3
                        &&& aliens@[base + m].alive
                        &&& aliens@[base + m].explosion_frame == 0
                        &&& exists|d: int|
                            0 <= d < ALIEN_DESIGN_COUNT && aliens@[base + m].design
                                == ALIEN_DESIGNS[d]
                    },
            decreases 30 - k,
        {
            let col = (k % 10) as u16;
            let row = (k / 10) as u16;
            let design_index = rng::pick_index(rng, ALIEN_DESIGN_COUNT);
            let a = Alien::new(col * 6 + 10, row * 3 + 3, design_index);
            aliens.push(a);
            proof {
                assert(aliens@.subrange(0, base as int) =~= old(aliens)@);
            }
            k = k + 1;
        }
    }

    /// Returns the current lifecycle state of the game.
    pub fn state(&self) -> (r: GameState)
        ensures
            r == self.game_state,
    {
        self.game_state
    }

    /// Returns the player's current score.
    pub fn score(&self) -> (r: i32)
        ensures
            r == self.score,
    {
        self.score
    }

    /// Returns an immutable reference to the player.
    pub fn player(&self) -> (r: &Player)
        ensures
            *r == self.player,
    {
        &self.player
    }

    /// Returns an immutable view of the blasts in flight.
    pub fn blasts(&self) -> (r: &[Blast])
        ensures
            r@ == self.blasts@,
    {
        self.blasts.as_slice()
    }

    /// Returns the blast collection for direct manipulation, as a test
    /// harness needs.
    pub fn blasts_mut(&mut self) -> (r: &mut Vec<Blast>)
        ensures
            *r == old(self).blasts,
            *final(self) == (Game { blasts: *final(r), ..*old(self) }),
    {
        &mut self.blasts
    }

    /// Returns an immutable view of the alien formation.
    pub fn aliens(&self) -> (r: &[Alien])
        ensures
            r@ == self.aliens@,
    {
        self.aliens.as_slice()
    }

    /// Returns the alien collection for direct manipulation, as a test
    /// harness needs.
    pub fn aliens_mut(&mut self) -> (r: &mut Vec<Alien>)
        ensures
            *r == old(self).aliens,
            *final(self) == (Game { aliens: *final(r), ..*old(self) }),
    {
        &mut self.aliens
    }

    /// Returns the current frame counter.
    pub fn frame_counter(&self) -> (r: u64)
        ensures
            r == self.frame_counter,
    {
        self.frame_counter
    }

    /// Unleashes a new blast from the player's current position, one row
    /// above the ship.
    fn fire_blast(&mut self)
        ensures
            *final(self) == (Game { blasts: final(self).blasts, ..*old(self) }),
            final(self).blasts@ == old(self).blasts@.push(spawned_blast(old(self).player)),
    {
        let y = self.player.y_pos() - 1;
        let b = Blast::new(self.player.x(), y);
        self.blasts.push(b);
    }

    /// Advances every blast one row and removes those that have expired at
    /// the top edge.
    pub fn update_blasts(&mut self)
        ensures
            *final(self) == (Game { blasts: final(self).blasts, ..*old(self) }),
            final(self).blasts@ == blasts_after_flight(old(self).blasts@),
    {
        let ghost moved_all = self.blasts@.map_values(|b: Blast| risen(b));
        let mut kept: Vec<Blast> = Vec::new();
        let n = self.blasts.len();
        let mut i: usize = 0;
        while i < n
            invariant
                i <= n,
                n == self.blasts@.len(),
                *self == *old(self),
                moved_all == self.blasts@.map_values(|b: Blast| risen(b)),
                kept@ == live_blasts(moved_all.subrange(0, i as int)),
            decreases n - i,
        {
            let mut b = self.blasts[i];
            b.move_up();
            proof {
                assert(moved_all.subrange(0, i + 1).drop_last() =~= moved_all.subrange(
                    0,
                    i as int,
                ));
                assert(b == moved_all[i as int]);
            }
            if b.y() > 0 {
                kept.push(b);
            }
            i = i + 1;
        }
        proof {
            assert(moved_all.subrange(0, n as int) =~= moved_all);
        }
        self.blasts = kept;
    }

    /// Resolves collisions between blasts and aliens: each still-live
    /// blast strikes the first alien it overlaps, starting that alien's
    /// destruction animation and consuming the blast; spent blasts are then
    /// removed. At most one alien is hit per blast per step.
    pub fn handle_collisions(&mut self)
        ensures
            *final(self) == (Game {
                aliens: final(self).aliens,
                blasts: final(self).blasts,
                ..*old(self)
            }),
            final(self).aliens@ == collide_from(old(self).aliens@, old(self).blasts@, 0).0,
            final(self).blasts@ == live_blasts(
                collide_from(old(self).aliens@, old(self).blasts@, 0).1,
            ),
    {
        let nb = self.blasts.len();
        let mut bi: usize = 0;
        while bi < nb
            invariant
                bi <= nb,
                nb == self.blasts@.len(),
                self.player == old(self).player,
                self.frame_counter == old(self).frame_counter,
                self.game_state == old(self).game_state,
                self.score == old(self).score,
                self.rng == old(self).rng,
                collide_from(self.aliens@, self.blasts@, bi as int) == collide_from(
                    old(self).aliens@,
                    old(self).blasts@,
                    0,
                ),
            decreases nb - bi,
        {
            let ghost cur_aliens = self.aliens@;
            let ghost cur_blasts = self.blasts@;
            let b = self.blasts[bi];
            if b.y() > 0 {
                match find_first_hit(&self.aliens, &b) {
                    Some(j) => {
                        let mut a = self.aliens[j];
                        a.set_explosion_frame(1);
                        self.aliens[j] = a;
                        let mut bb = b;
                        bb.set_y(0);
                        self.blasts[bi] = bb;
                        proof {
                            assert(self.aliens@ == cur_aliens.update(
                                j as int,
                                struck(cur_aliens[j as int]),
                            ));
                            assert(self.blasts@ == cur_blasts.update(
                                bi as int,
                                spent(cur_blasts[bi as int]),
                            ));
                        }
                    },
                    None => {},
                }
            }
            proof {
                assert(collide_from(self.aliens@, self.blasts@, bi + 1) == collide_from(
                    cur_aliens,
                    cur_blasts,
                    bi as int,
                ));
            }
            bi = bi + 1;
        }
        let ghost resolved = self.blasts@;
        let mut kept: Vec<Blast> = Vec::new();
        let mut i: usize = 0;
        while i < nb
            invariant
                i <= nb,
                nb == self.blasts@.len(),
                self.blasts@ == resolved,
                self.player == old(self).player,
                self.frame_counter == old(self).frame_counter,
                self.game_state == old(self).game_state,
                self.score == old(self).score,
                self.rng == old(self).rng,
                self.aliens@ == collide_from(old(self).aliens@, old(self).blasts@, 0).0,
                resolved == collide_from(old(self).aliens@, old(self).blasts@, 0).1,
                kept@ == live_blasts(resolved.subrange(0, i as int)),
            decreases nb - i,
        {
            let b = self.blasts[i];
            proof {
                assert(resolved.subrange(0, i + 1).drop_last() =~= resolved.subrange(0, i as int));
            }
            if b.y() > 0 {
                kept.push(b);
            }
            i = i + 1;
        }
        proof {
            assert(resolved.subrange(0, nb as int) =~= resolved);
        }
        self.blasts = kept;
    }

    /// Advances every explosion animation in progress by one stage. An
    /// alien whose animation completes this step dies at that instant, and
    /// the destruction bonus is awarded exactly then, once per alien.
    pub fn update_explosions(&mut self)
        ensures
            *final(self) == (Game {
                aliens: final(self).aliens,
                score: final(self).score,
                ..*old(self)
            }),
            final(self).aliens@ == aliens_after_bursts(old(self).aliens@),
            final(self).score as int == score_after_bursts(old(self).aliens@, old(self).score as int),
    {
        let n = self.aliens.len();
        let mut i: usize = 0;
        while i < n
            invariant
                i <= n,
                n == self.aliens@.len(),
                n == old(self).aliens@.len(),
                self.player == old(self).player,
                self.blasts == old(self).blasts,
                self.frame_counter == old(self).frame_counter,
                self.game_state == old(self).game_state,
                self.rng == old(self).rng,
                self.aliens@.subrange(i as int, n as int) == old(self).aliens@.subrange(
                    i as int,
                    n as int,
                ),
                self.aliens@.subrange(0, i as int) == aliens_after_bursts(
                    old(self).aliens@.subrange(0, i as int),
                ),
                self.score as int == score_after_bursts(
                    old(self).aliens@.subrange(0, i as int),
                    old(self).score as int,
                ),
            decreases n - i,
        {
            let ghost prefix = old(self).aliens@.subrange(0, i as int);
            let ghost pre_aliens = self.aliens@;
            let a = self.aliens[i];
            proof {
                assert(old(self).aliens@.subrange(i as int, n as int)[0] == old(self).aliens@[i as int]);
                assert(a == old(self).aliens@[i as int]);
                assert(old(self).aliens@.subrange(0, i + 1).drop_last() =~= prefix);
                assert(old(self).aliens@.subrange(0, i + 1).last() == a);
            }
            if a.explosion_frame() > 0 && a.explosion_frame() < 5 {
                let mut a2 = a;
                a2.increment_explosion_frame();
                if a2.explosion_frame() == 5 {
                    a2.set_alive(false);
                    self.score = score_saturating_add(self.score, DESTROY_BONUS);
                }
                self.aliens[i] = a2;
                proof {
                    assert(a2 == after_burst(a));
                }
            }
            proof {
                assert(self.aliens@ =~= pre_aliens.update(i as int, after_burst(a)));
                assert(self.aliens@.subrange(0, i + 1) =~= pre_aliens.subrange(0, i as int).push(
                    after_burst(a),
                ));
                assert(aliens_after_bursts(old(self).aliens@.subrange(0, i + 1))
                    =~= aliens_after_bursts(prefix).push(after_burst(a)));
                assert forall|m: int| i + 1 <= m < n implies self.aliens@[m] == old(
                    self,
                ).aliens@[m] by {
                    assert(pre_aliens.subrange(i as int, n as int)[m - i] == old(
                        self,
                    ).aliens@.subrange(i as int, n as int)[m - i]);
                }
                assert(self.aliens@.subrange(i + 1, n as int) =~= old(self).aliens@.subrange(
                    i + 1,
                    n as int,
                ));
            }
            i = i + 1;
        }
        proof {
            assert(old(self).aliens@.subrange(0, n as int) =~= old(self).aliens@);
            assert(self.aliens@.subrange(0, n as int) =~= self.aliens@);
        }
    }

    /// Moves the aliens: one intact alien, drawn at random, steps toward
    /// the player's column, and on a descent tick the whole intact
    /// formation drops one row.
    fn update_alien_movement(&mut self)
        requires
            forall|i: int|
                0 <= i < old(self).aliens@.len() && intact(#[trigger] old(self).aliens@[i]) ==> old(
                    self,
                ).aliens@[i].y < u16::MAX,
        ensures
            *final(self) == (Game {
                aliens: final(self).aliens,
                rng: final(self).rng,
                ..*old(self)
            }),
            movement_post(
                old(self).aliens@,
                old(self).player.x as int,
                old(self).frame_counter as int,
                final(self).aliens@,
            ),
    {
        let n = self.aliens.len();
        let mut movable: Vec<usize> = Vec::new();
        let mut i: usize = 0;
        while i < n
            invariant
                i <= n,
                n == self.aliens@.len(),
                *self == *old(self),
                forall|k: int|
                    0 <= k < movable@.len() ==> (#[trigger] movable@[k]) < n && intact(
                        self.aliens@[movable@[k] as int],
                    ),
                movable@.len() == 0 ==> forall|k: int|
                    0 <= k < i ==> !intact(#[trigger] self.aliens@[k]),
            decreases n - i,
        {
            let a = self.aliens[i];
            if a.alive() && a.explosion_frame() == 0 {
                movable.push(i);
            }
            i = i + 1;
        }
        let ghost s0 = self.aliens@;
        let ghost px = self.player.x as int;
        let ghost chosen: int = -1;
        if movable.len() > 0 {
            let pick = rng::pick_index(&mut self.rng, movable.len());
            let j = movable[pick];
            let a = self.aliens[j];
            let half = (PLAYER_WIDTH / 2) as u32;
            let px32 = self.player.x() as u32;
            let left_limit = if px32 >= half {
                px32 - half
            } else {
                0
            };
            let mut a2 = a;
            if (a.x() as u32) < left_limit && a.x() < GAME_WIDTH - ALIEN_WIDTH {
                a2.move_right();
            } else if (a.x() as u32) > px32 + half - 1 && a.x() > 0 {
                a2.move_left();
            }
            proof {
                assert(a2 == toward(a, px));
            }
            self.aliens[j] = a2;
            proof {
                chosen = j as int;
            }
        }
        let ghost s1 = self.aliens@;
        proof {
            if chosen >= 0 {
                assert(s1 == s0.update(chosen, toward(s0[chosen], px)));
            } else {
                assert(s1 == s0);
            }
            assert forall|k: int|
                0 <= k < s1.len() && intact(#[trigger] s1[k]) implies s1[k].y < u16::MAX by {
                if k == chosen {
                    assert(s1[k].y == s0[k].y && s1[k].alive == s0[k].alive && s1[k].explosion_frame
                        == s0[k].explosion_frame);
                }
            }
        }
        if self.frame_counter % ALIEN_MOVE_DOWN_FREQ == 0 {
            let mut k: usize = 0;
            while k < n
                invariant
                    k <= n,
                    n == self.aliens@.len(),
                    n == s1.len(),
                    self.player == old(self).player,
                    self.blasts == old(self).blasts,
                    self.frame_counter == old(self).frame_counter,
                    self.game_state == old(self).game_state,
                    self.score == old(self).score,
                    self.aliens@.subrange(k as int, n as int) == s1.subrange(k as int, n as int),
                    self.aliens@.subrange(0, k as int) == s1.subrange(0, k as int).map_values(
                        |a: Alien| sunk(a),
                    ),
                    forall|m: int| 0 <= m < s1.len() && intact(#[trigger] s1[m]) ==> s1[m].y
                        < u16::MAX,
                decreases n - k,
            {
                let ghost pre_aliens = self.aliens@;
                let a = self.aliens[k];
                proof {
                    assert(pre_aliens.subrange(k as int, n as int)[0] == pre_aliens[k as int]);
                    assert(a == s1[k as int]);
                }
                if a.alive() && a.explosion_frame() == 0 {
                    let mut a2 = a;
                    a2.move_down();
                    self.aliens[k] = a2;
                }
                proof {
                    assert(self.aliens@ =~= pre_aliens.update(k as int, sunk(a)));
                    assert(self.aliens@.subrange(0, k + 1) =~= self.aliens@.subrange(0,
                        k as int,
                    ).push(sunk(a)));
                    assert(s1.subrange(0, k + 1).map_values(|a: Alien| sunk(a)) =~= s1.subrange(
                        0,
                        k as int,
                    ).map_values(|a: Alien| sunk(a)).push(sunk(a)));
                    assert forall|m: int| k + 1 <= m < n implies self.aliens@[m] == s1[m] by {
                        assert(pre_aliens.subrange(k as int, n as int)[m - k] == s1.subrange(
                            k as int,
                            n as int,
                        )[m - k]);
                    }
                    assert(self.aliens@.subrange(k + 1, n as int) =~= s1.subrange(k + 1, n as int));
                }
                k = k + 1;
            }
            proof {
                assert(s1.subrange(0, n as int) =~= s1);
                assert(self.aliens@.subrange(0, n as int) =~= self.aliens@);
                assert(self.aliens@ == descended(s1, true));
            }
        } else {
            proof {
                assert(self.aliens@ == descended(s1, false));
            }
        }
        proof {
            let go = old(self).frame_counter as int % (ALIEN_MOVE_DOWN_FREQ as int) == 0;
            assert(go == (old(self).frame_counter % ALIEN_MOVE_DOWN_FREQ == 0));
            if chosen >= 0 {
                assert(intact(s0[chosen]));
                assert(self.aliens@ == descended(s0.update(chosen, toward(s0[chosen], px)), go));
            } else {
                assert(forall|k: int| 0 <= k < s0.len() ==> !intact(#[trigger] s0[k]));
                assert(self.aliens@ == descended(s0, go));
            }
        }
    }

    /// Advances the whole world by exactly one step for the given event.
    /// When play is over this is a no-op, so no step mutates the world
    /// after a terminal state is entered. When play is in progress the
    /// phases run in their fixed order: the frame counter rises, the
    /// command is applied, blasts fly and expire, collisions start
    /// explosion animations, animations advance and award the destruction
    /// bonus, aliens move, and the end-of-game checks run last, each phase
    /// on the previous phase's output.
    pub fn update(&mut self, event: GameEvent)
        requires
            wf(*old(self)),
            old(self).game_state == GameState::Playing ==> old(self).frame_counter < u64::MAX,
        ensures
            old(self).game_state != GameState::Playing ==> *final(self) == *old(self),
            old(self).game_state == GameState::Playing ==> step_post(
                *old(self),
                *final(self),
                event,
            ),
            wf(*final(self)),
    {
        if self.game_state != GameState::Playing {
            return ;
        }
        self.frame_counter = self.frame_counter + 1;
        match event {
            GameEvent::MoveLeft => {
                self.player.move_left();
                self.score = score_saturating_sub(self.score, ACTION_COST);
            },
            GameEvent::MoveRight => {
                self.player.move_right();
                self.score = score_saturating_sub(self.score, ACTION_COST);
            },
            GameEvent::Fire => {
                self.fire_blast();
                self.score = score_saturating_sub(self.score, ACTION_COST);
            },
            GameEvent::Quit => {
                self.game_state = GameState::Quit;
            },
            GameEvent::AdvanceFrame => {},
        }
        let ghost pre = *old(self);
        let ghost p1 = self.player;
        let ghost sc1 = self.score as int;
        let ghost st1 = self.game_state;
        let ghost bs1 = self.blasts@;
        proof {
            assert(p1 == player_after_event(pre.player, event));
            assert(sc1 == score_after_event(pre.score as int, event));
            assert(st1 == state_after_event(pre.game_state, event));
            assert(bs1 == blasts_after_event(pre.blasts@, pre.player, event));
        }
        self.update_blasts();
        let ghost bs2 = self.blasts@;
        self.handle_collisions();
        let ghost a1 = self.aliens@;
        let ghost bs3 = self.blasts@;
        self.update_explosions();
        let ghost a2 = self.aliens@;
        let ghost sc2 = self.score as int;
        proof {
            lemma_collide_geometry(pre.aliens@, bs2, 0);
            assert forall|i: int| 0 <= i < a2.len() && intact(#[trigger] a2[i]) implies a2[i].y
                < u16::MAX by {
                assert(a2[i] == after_burst(a1[i]));
                assert(intact(pre.aliens@[i]));
                assert(alien_in_field(pre.aliens@[i]));
            }
        }
        self.update_alien_movement();
        let ghost r = self.aliens@;
        self.check_game_over_conditions();
        proof {
            let go = (pre.frame_counter as int + 1) % (ALIEN_MOVE_DOWN_FREQ as int) == 0;
            assert(movement_post(a2, p1.x as int, pre.frame_counter as int + 1, r));
            assert(self.aliens@ == purged(r));
            assert(self.game_state == outcome(purged(r), p1, st1));
            assert(step_post(pre, *self, event));
            if self.game_state == GameState::Playing {
                assert(st1 == GameState::Playing);
                assert(!any_invaded(purged(r)));
                lemma_purged_membership(r);
                assert forall|i: int| 0 <= i < self.aliens@.len() implies alien_in_field(
                    #[trigger] self.aliens@[i],
                ) by {
                    if intact(self.aliens@[i]) {
                        assert(!(purged(r)[i].y + ALIEN_HEIGHT - 1 >= player_row()));
                        let m = choose|m: int| 0 <= m < r.len() && purged(r)[i] == r[m];
                        let u = if exists|j: int| 0 <= j < a2.len() && intact(#[trigger] a2[j]) {
                            let j = choose|j: int|
                                0 <= j < a2.len() && intact(#[trigger] a2[j]) && r == descended(
                                    a2.update(j, toward(a2[j], p1.x as int)),
                                    go,
                                );
                            a2.update(j, toward(a2[j], p1.x as int))
                        } else {
                            a2
                        };
                        assert(r == descended(u, go));
                        assert(r[m] == if go {
                            sunk(u[m])
                        } else {
                            u[m]
                        });
                        assert(r[m].x == u[m].x && intact(u[m]) == intact(r[m]));
                        assert(u[m].x <= GAME_WIDTH - ALIEN_WIDTH) by {
                            if exists|j: int| 0 <= j < a2.len() && intact(#[trigger] a2[j]) {
                                let j = choose|j: int|
                                    0 <= j < a2.len() && intact(#[trigger] a2[j]) && r == descended(
                                        a2.update(j, toward(a2[j], p1.x as int)),
                                        go,
                                    );
                                if m == j {
                                    assert(intact(a2[j]));
                                    assert(a2[j] == after_burst(a1[j]));
                                    assert(intact(pre.aliens@[j]));
                                    assert(alien_in_field(pre.aliens@[j]));
                                } else {
                                    assert(u[m] == a2[m]);
                                    assert(a2[m] == after_burst(a1[m]));
                                    assert(intact(pre.aliens@[m]));
                                    assert(alien_in_field(pre.aliens@[m]));
                                }
                            } else {
                                assert(u[m] == a2[m]);
                                assert(a2[m] == after_burst(a1[m]));
                                assert(intact(pre.aliens@[m]));
                                assert(alien_in_field(pre.aliens@[m]));
                            }
                        }
                    }
                }
            }
        }
    }

    /// Runs the end-of-game checks: purges fully exploded aliens, then, in
    /// strict priority order, declares a win when no alien is left alive, a
    /// loss when an intact alien has reached the player's row, and a loss
    /// when an intact alien overlaps the ship.
    pub fn check_game_over_conditions(&mut self)
        ensures
            *final(self) == (Game {
                aliens: final(self).aliens,
                game_state: final(self).game_state,
                ..*old(self)
            }),
            final(self).aliens@ == purged(old(self).aliens@),
            final(self).game_state == outcome(
                purged(old(self).aliens@),
                old(self).player,
                old(self).game_state,
            ),
    {
        let n = self.aliens.len();
        let mut kept: Vec<Alien> = Vec::new();
        let mut i: usize = 0;
        while i < n
            invariant
                i <= n,
                n == self.aliens@.len(),
                *self == *old(self),
                kept@ == purged(self.aliens@.subrange(0, i as int)),
            decreases n - i,
        {
            let a = self.aliens[i];
            proof {
                assert(self.aliens@.subrange(0, i + 1).drop_last() =~= self.aliens@.subrange(
                    0,
                    i as int,
                ));
            }
            if a.alive() || a.explosion_frame() < 5 {
                kept.push(a);
            }
            i = i + 1;
        }
        proof {
            assert(self.aliens@.subrange(0, n as int) =~= self.aliens@);
        }
        self.aliens = kept;
        let ghost world = purged(old(self).aliens@);

        let m = self.aliens.len();
        let mut any_alive = false;
        let mut k: usize = 0;
        while k < m
            invariant
                k <= m,
                m == self.aliens@.len(),
                self.aliens@ == world,
                self.player == old(self).player,
                self.blasts == old(self).blasts,
                self.frame_counter == old(self).frame_counter,
                self.game_state == old(self).game_state,
                self.score == old(self).score,
                self.rng == old(self).rng,
                any_alive <==> exists|q: int| 0 <= q < k && (#[trigger] world[q]).alive,
            decreases m - k,
        {
            if self.aliens[k].alive() {
                any_alive = true;
            }
            k = k + 1;
        }
        if !any_alive {
            self.game_state = GameState::Win;
            proof {
                assert(all_defeated(world));
            }
            return ;
        }

        let mut invaded = false;
        k = 0;
        while k < m
            invariant
                k <= m,
                m == self.aliens@.len(),
                self.aliens@ == world,
                self.player == old(self).player,
                self.blasts == old(self).blasts,
                self.frame_counter == old(self).frame_counter,
                self.game_state == old(self).game_state,
                self.score == old(self).score,
                self.rng == old(self).rng,
                invaded <==> exists|q: int|
                    0 <= q < k && intact(#[trigger] world[q]) && world[q].y + ALIEN_HEIGHT - 1
                        >= player_row(),
            decreases m - k,
        {
            let a = self.aliens[k];
            if a.alive() && a.explosion_frame() == 0 && (a.y() as u32) + (ALIEN_HEIGHT as u32) - 1
                >= (self.player.y_pos() as u32) {
                invaded = true;
            }
            k = k + 1;
        }
        if invaded {
            self.game_state = GameState::GameOver;
            proof {
                assert(any_invaded(world));
                assert(!all_defeated(world));
            }
            return ;
        }

        let mut rammed = false;
        k = 0;
        while k < m
            invariant
                k <= m,
                m == self.aliens@.len(),
                self.aliens@ == world,
                self.player == old(self).player,
                self.blasts == old(self).blasts,
                self.frame_counter == old(self).frame_counter,
                self.game_state == old(self).game_state,
                self.score == old(self).score,
                self.rng == old(self).rng,
                rammed <==> exists|q: int|
                    0 <= q < k && intact(#[trigger] world[q]) && overlaps_alien(
                        old(self).player,
                        world[q],
                    ),
            decreases m - k,
        {
            let a = self.aliens[k];
            if a.alive() && a.explosion_frame() == 0 && self.player.collides_with_alien(&a) {
                rammed = true;
            }
            k = k + 1;
        }
        if rammed {
            self.game_state = GameState::GameOver;
            proof {
                assert(any_rammed(world, old(self).player));
                assert(!all_defeated(world));
                assert(!any_invaded(world));
            }
        } else {
            proof {
                assert(!all_defeated(world));
                assert(!any_invaded(world));
                assert(!any_rammed(world, old(self).player));
            }
        }
    }
}

impl Default for Game {
    /// A fresh game, exactly as `Game::new` builds it.
    fn default() -> (g: Game)
        ensures
            g.game_state == GameState::Playing,
            g.score == INITIAL_SCORE,
            g.frame_counter == 0,
            wf(g),
    {
        Game::new()
    }
}

/// Finds the first alien in formation order that the given blast strikes.
fn find_first_hit(aliens: &Vec<Alien>, b: &Blast) -> (r: Option<usize>)
    ensures
        match r {
            Some(j) => j < aliens@.len() && first_hit_from(aliens@, *b, 0) == j as int,
            None => first_hit_from(aliens@, *b, 0) == -1,
        },
{
    let n = aliens.len();
    let mut i: usize = 0;
    while i < n
        invariant
            i <= n,
            n == aliens@.len(),
            forall|k: int| 0 <= k < i ==> !hits(#[trigger] aliens@[k], *b),
        decreases n - i,
    {
        if aliens[i].collides_with_blast(b) {
            proof {
                lemma_first_hit_prefix(aliens@, *b, i as int);
            }
            return Some(i);
        }
        i = i + 1;
    }
    proof {
        lemma_first_hit_prefix(aliens@, *b, n as int);
    }
    None
}

/// A found first hit names an intact alien within the formation.
proof fn lemma_first_hit_bounds(aliens: Seq<Alien>, b: Blast, i: int)
    requires
        0 <= i,
    ensures
        first_hit_from(aliens, b, i) == -1 || (i <= first_hit_from(aliens, b, i) < aliens.len()
            && hits(aliens[first_hit_from(aliens, b, i)], b) && aliens[first_hit_from(
            aliens,
            b,
            i,
        )].explosion_frame == 0),
    decreases aliens.len() - i,
{
    if i < aliens.len() && !hits(aliens[i], b) {
        lemma_first_hit_bounds(aliens, b, i + 1);
    }
}

/// Collision resolution never moves an alien, never revives or kills one,
/// and changes an explosion stage only by starting a fresh animation on an
/// intact alien.
proof fn lemma_collide_geometry(s: Seq<Alien>, bs: Seq<Blast>, i: int)
    ensures
        collide_from(s, bs, i).0.len() == s.len(),
        forall|k: int|
            0 <= k < s.len() ==> {
                let a = #[trigger] collide_from(s, bs, i).0[k];
                &&& a.x == s[k].x
                &&& a.y == s[k].y
                &&& a.alive == s[k].alive
                &&& a.design == s[k].design
                &&& (a.explosion_frame == s[k].explosion_frame || (s[k].explosion_frame == 0
                    && a.explosion_frame == 1))
            },
    decreases bs.len() - i,
{
    if i < 0 || i >= bs.len() {
    } else if bs[i].y > 0 {
        let j = first_hit_from(s, bs[i], 0);
        lemma_first_hit_bounds(s, bs[i], 0);
        if j >= 0 {
            lemma_collide_geometry(s.update(j, struck(s[j])), bs.update(i, spent(bs[i])), i + 1);
        } else {
            lemma_collide_geometry(s, bs, i + 1);
        }
    } else {
        lemma_collide_geometry(s, bs, i + 1);
    }
}

/// Every alien in the purged formation stood in the unpurged one.
proof fn lemma_purged_membership(s: Seq<Alien>)
    ensures
        purged(s).len() <= s.len(),
        forall|k: int|
            0 <= k < purged(s).len() ==> exists|m: int|
                0 <= m < s.len() && #[trigger] purged(s)[k] == s[m],
    decreases s.len(),
{
    if s.len() > 0 {
        let dl = s.drop_last();
        lemma_purged_membership(dl);
        assert forall|k: int| 0 <= k < purged(s).len() implies exists|m: int|
            0 <= m < s.len() && #[trigger] purged(s)[k] == s[m] by {
            if k < purged(dl).len() {
                let m = choose|m: int| 0 <= m < dl.len() && purged(dl)[k] == dl[m];
                assert(purged(s)[k] == s[m]);
            } else {
                assert(purged(s)[k] == s[s.len() - 1]);
            }
        }
    }
}

/// The first struck alien lies at or beyond any prefix of aliens none of
/// which is struck.
proof fn lemma_first_hit_prefix(aliens: Seq<Alien>, b: Blast, i: int)
    requires
        0 <= i <= aliens.len(),
        forall|k: int| 0 <= k < i ==> !hits(#[trigger] aliens[k], b),
    ensures
        first_hit_from(aliens, b, 0) == first_hit_from(aliens, b, i),
    decreases i,
{
    if i > 0 {
        lemma_first_hit_prefix(aliens, b, i - 1);
        assert(first_hit_from(aliens, b, i - 1) == first_hit_from(aliens, b, i));
    }
}

/// Law: an alien's explosion stage never decreases, and neither the
/// collision phase nor the animation phase of a step raises it by more than
/// one, so an animation under way visits every stage from its start value
/// upward in order; and a stage once positive never returns to zero. The
/// movement phase and the purge touch no stage at all.
pub proof fn lemma_explosion_stage_monotonic(s: Seq<Alien>, bs: Seq<Blast>, k: int)
    requires
        0 <= k < s.len(),
    ensures
        s[k].explosion_frame <= collide_from(s, bs, 0).0[k].explosion_frame <= s[k].explosion_frame
            + 1,
        collide_from(s, bs, 0).0[k].explosion_frame <= after_burst(
            collide_from(s, bs, 0).0[k],
        ).explosion_frame <= collide_from(s, bs, 0).0[k].explosion_frame + 1,
        s[k].explosion_frame > 0 ==> aliens_after_bursts(collide_from(s, bs, 0).0)[
            k
        ].explosion_frame >= s[k].explosion_frame,
{
    lemma_collide_geometry(s, bs, 0);
}

/// Law: across one whole step every alien's explosion stage is
/// non-decreasing, a stage once positive never returns to zero, and an
/// animation in progress advances by exactly one stage per step, so it
/// visits every stage from its start value up to five without skipping.
/// The purge that ends the step only removes aliens, never alters one.
pub proof fn lemma_step_stages_monotonic(
    s: Seq<Alien>,
    bs: Seq<Blast>,
    px: int,
    frame: int,
    r: Seq<Alien>,
    k: int,
)
    requires
        movement_post(aliens_after_bursts(collide_from(s, bs, 0).0), px, frame, r),
        0 <= k < s.len(),
    ensures
        r.len() == s.len(),
        s[k].explosion_frame <= r[k].explosion_frame <= s[k].explosion_frame + 2,
        s[k].explosion_frame > 0 ==> r[k].explosion_frame >= s[k].explosion_frame,
        0 < s[k].explosion_frame < 5 ==> r[k].explosion_frame == s[k].explosion_frame + 1,
{
    lemma_collide_geometry(s, bs, 0);
    let a1 = collide_from(s, bs, 0).0;
    let a2 = aliens_after_bursts(a1);
    let go = frame % (ALIEN_MOVE_DOWN_FREQ as int) == 0;
    assert(a2[k] == after_burst(a1[k]));
    if exists|j: int| 0 <= j < a2.len() && intact(#[trigger] a2[j]) {
        let j = choose|j: int|
            0 <= j < a2.len() && intact(#[trigger] a2[j]) && r == descended(
                a2.update(j, toward(a2[j], px)),
                go,
            );
        let u = a2.update(j, toward(a2[j], px));
        assert(r[k] == if go {
            sunk(u[k])
        } else {
            u[k]
        });
        if k == j {
            assert(u[k].explosion_frame == a2[k].explosion_frame);
        }
    } else {
        assert(r == descended(a2, go));
        assert(r[k] == if go {
            sunk(a2[k])
        } else {
            a2[k]
        });
    }
}

/// Law: neither part of the movement phase touches an alien's explosion
/// stage or its liveness, so the per-step monotonicity of the stage is
/// settled by the collision and animation phases alone.
pub proof fn lemma_movement_preserves_stage(a: Alien, px: int)
    ensures
        toward(a, px).explosion_frame == a.explosion_frame,
        toward(a, px).alive == a.alive,
        sunk(a).explosion_frame == a.explosion_frame,
        sunk(a).alive == a.alive,
{
}

/// Law: the destruction bonus moment is exactly the step on which an
/// alien's stage moves to five; the alien dies at that same instant, and an
/// alien already at stage five is never advanced or counted again.
pub proof fn lemma_single_bonus(a: Alien)
    ensures
        completes_now(a) <==> (after_burst(a).explosion_frame == 5 && a.explosion_frame != 5),
        a.explosion_frame >= 5 ==> after_burst(a) == a,
        completes_now(a) ==> !completes_now(after_burst(a)),
        completes_now(a) ==> !after_burst(a).alive,
{
}

/// Law: a step whose animation phase completes no alien's destruction
/// leaves the score of the animation phase untouched, so the bonus is paid
/// only at completion moments.
pub proof fn lemma_no_completion_no_bonus(s: Seq<Alien>, sc: int)
    requires
        forall|i: int| 0 <= i < s.len() ==> !completes_now(#[trigger] s[i]),
    ensures
        score_after_bursts(s, sc) == sc,
    decreases s.len(),
{
    if s.len() > 0 {
        lemma_no_completion_no_bonus(s.drop_last(), sc);
    }
}

/// Law: the win check runs strictly before either loss check, so a
/// formation with no alien left alive resolves as a win whatever the
/// aliens' positions, even ones at or past the player's row.
pub proof fn lemma_win_takes_precedence(s: Seq<Alien>, p: Player, st: GameState)
    requires
        all_defeated(s),
    ensures
        outcome(s, p, st) == GameState::Win,
{
}

/// Law: if the last alive alien's destruction completes during a step's
/// animation phase, that step ends in a win, not a loss, however far the
/// formation has descended.
pub proof fn lemma_win_precedence_in_step(pre: Game, post: Game, ev: GameEvent)
    requires
        pre.game_state == GameState::Playing,
        step_post(pre, post, ev),
        all_defeated(
            aliens_after_bursts(
                collide_from(
                    pre.aliens@,
                    blasts_after_flight(blasts_after_event(pre.blasts@, pre.player, ev)),
                    0,
                ).0,
            ),
        ),
    ensures
        post.game_state == GameState::Win,
{
    let p1 = player_after_event(pre.player, ev);
    let a2 = aliens_after_bursts(
        collide_from(
            pre.aliens@,
            blasts_after_flight(blasts_after_event(pre.blasts@, pre.player, ev)),
            0,
        ).0,
    );
    let r = choose|r: Seq<Alien>|
        {
            &&& #[trigger] movement_post(a2, p1.x as int, pre.frame_counter as int + 1, r)
            &&& post.aliens@ == purged(r)
            &&& post.game_state == outcome(purged(r), p1, state_after_event(pre.game_state, ev))
        };
    let go = (pre.frame_counter as int + 1) % (ALIEN_MOVE_DOWN_FREQ as int) == 0;
    assert(all_defeated(r)) by {
        if exists|j: int| 0 <= j < a2.len() && intact(#[trigger] a2[j]) {
            let j = choose|j: int| 0 <= j < a2.len() && intact(#[trigger] a2[j]);
            assert(a2[j].alive);
            assert(false);
        }
        assert(r == descended(a2, go));
        assert forall|i: int| 0 <= i < r.len() implies !(#[trigger] r[i]).alive by {
            assert(r[i] == if go {
                sunk(a2[i])
            } else {
                a2[i]
            });
        }
    }
    lemma_purged_membership(r);
    assert forall|i: int| 0 <= i < purged(r).len() implies !(#[trigger] purged(r)[i]).alive by {
        let m = choose|m: int| 0 <= m < r.len() && purged(r)[i] == r[m];
    }
    assert(all_defeated(purged(r)));
}

/// Subtraction on the score, saturating at the lower bound of its
/// representation.
fn score_saturating_sub(sc: i32, d: i32) -> (r: i32)
    requires
        d >= 0,
    ensures
        r as int == sat_add32(sc as int, -(d as int)),
{
    match sc.checked_sub(d) {
        Some(v) => v,
        None => i32::MIN,
    }
}

/// Addition on the score, saturating at the upper bound of its
/// representation.
fn score_saturating_add(sc: i32, d: i32) -> (r: i32)
    requires
        d >= 0,
    ensures
        r as int == sat_add32(sc as int, d as int),
{
    match sc.checked_add(d) {
        Some(v) => v,
        None => i32::MAX,
    }
}

} // verus!
