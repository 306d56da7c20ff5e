//! Tests of the individual entities: player movement and clamping, blast
//! flight, alien movement, collision, and display.

use asciiliens::alien::Alien;
use asciiliens::blast::Blast;
use asciiliens::constants::{ALIEN_DESIGNS, GAME_WIDTH, PLAYER_WIDTH};
use asciiliens::player::Player;

#[test]
fn test_player_new() {
    let player = Player::new();
    assert_eq!(player.x(), GAME_WIDTH / 2);
}

#[test]
fn test_player_move_left() {
    let mut player = Player::new_for_test(10);
    player.move_left();
    assert_eq!(player.x(), 9);

    let mut player_at_edge = Player::new_for_test(PLAYER_WIDTH / 2);
    player_at_edge.move_left();
    assert_eq!(
        player_at_edge.x(),
        PLAYER_WIDTH / 2,
        "Player should not move past left boundary."
    );
}

#[test]
fn test_player_move_right() {
    let mut player = Player::new_for_test(10);
    player.move_right();
    assert_eq!(player.x(), 11);

    let mut player_at_edge = Player::new_for_test(GAME_WIDTH - PLAYER_WIDTH / 2 - 1);
    player_at_edge.move_right();
    assert_eq!(
        player_at_edge.x(),
        GAME_WIDTH - PLAYER_WIDTH / 2 - 1,
        "Player should not move past right boundary."
    );
}

#[test]
fn test_player_repeated_moves_at_bounds() {
    // However many commands press toward a bound, the position never moves.
    let mut player = Player::new_for_test(PLAYER_WIDTH / 2);
    for _ in 0..5 {
        player.move_left();
        assert_eq!(player.x(), PLAYER_WIDTH / 2);
    }
    let mut player = Player::new_for_test(GAME_WIDTH - PLAYER_WIDTH / 2 - 1);
    for _ in 0..5 {
        player.move_right();
        assert_eq!(player.x(), GAME_WIDTH - PLAYER_WIDTH / 2 - 1);
    }
}

#[test]
fn test_blast_move_up() {
    let mut blast = Blast::new(10, 5);
    assert!(blast.move_up());
    assert_eq!(blast.y(), 4);

    let mut blast_at_top = Blast::new(10, 0);
    assert!(!blast_at_top.move_up());
    assert_eq!(
        blast_at_top.y(),
        0,
        "Blast should stay at 0 if already off screen."
    );
}

#[test]
fn test_alien_new() {
    let alien = Alien::new(5, 5, 0);
    assert_eq!(alien.x(), 5);
    assert_eq!(alien.y(), 5);
    assert!(alien.alive());
    assert_eq!(alien.design(), ALIEN_DESIGNS[0]);
}

#[test]
fn test_alien_move_down() {
    let mut alien = Alien::new_for_test(10, 5, true, ALIEN_DESIGNS[0], 0);
    alien.move_down();
    assert_eq!(alien.y(), 6);
}

#[test]
fn test_alien_collides_with_blast() {
    let alien = Alien::new_for_test(10, 5, true, ALIEN_DESIGNS[0], 0);

    let blast_hit = Blast::new(10, 5);
    assert!(alien.collides_with_blast(&blast_hit));

    let blast_hit_offset = Blast::new(11, 5);
    assert!(alien.collides_with_blast(&blast_hit_offset));

    let blast_hit_bottom = Blast::new(10, 6);
    assert!(alien.collides_with_blast(&blast_hit_bottom));

    let blast_miss = Blast::new(12, 5);
    assert!(!alien.collides_with_blast(&blast_miss));

    let blast_miss_y = Blast::new(10, 7);
    assert!(!alien.collides_with_blast(&blast_miss_y));

    let dead_alien = Alien::new_for_test(10, 5, false, ALIEN_DESIGNS[0], 0);
    assert!(!dead_alien.collides_with_blast(&blast_hit));

    let exploding_alien = Alien::new_for_test(10, 5, true, ALIEN_DESIGNS[0], 1);
    assert!(
        !exploding_alien.collides_with_blast(&blast_hit),
        "Exploding alien should not be hit by a new blast."
    );
}

#[test]
fn test_exploding_alien_immune_at_every_stage() {
    // Whatever the blast's position inside the box, a stage above zero is immune.
    for stage in 1..=5u8 {
        let alien = Alien::new_for_test(10, 5, true, ALIEN_DESIGNS[0], stage);
        for bx in 10..=11u16 {
            for by in 5..=6u16 {
                assert!(!alien.collides_with_blast(&Blast::new(bx, by)));
            }
        }
    }
}

#[test]
fn test_player_collides_with_alien() {
    let player = Player::new_for_test(GAME_WIDTH / 2);
    let player_y = player.y_pos();

    let alien_overlap = Alien::new_for_test(
        player.x().saturating_sub(PLAYER_WIDTH / 2),
        player_y,
        true,
        ALIEN_DESIGNS[0],
        0,
    );
    assert!(
        player.collides_with_alien(&alien_overlap),
        "Should geometrically collide with any alien overlapping player."
    );

    let alien_overlap_x = Alien::new_for_test(
        player.x().saturating_sub(PLAYER_WIDTH / 2) + 1,
        player_y,
        true,
        ALIEN_DESIGNS[0],
        0,
    );
    assert!(
        player.collides_with_alien(&alien_overlap_x),
        "Should geometrically collide with alien overlapping player horizontally."
    );

    let alien_overlap_y = Alien::new_for_test(
        player.x().saturating_sub(PLAYER_WIDTH / 2),
        player_y - 2 + 1,
        true,
        ALIEN_DESIGNS[0],
        0,
    );
    assert!(
        player.collides_with_alien(&alien_overlap_y),
        "Should geometrically collide with alien overlapping player vertically."
    );

    let alien_above = Alien::new_for_test(player.x(), player_y - 2, true, ALIEN_DESIGNS[0], 0);
    assert!(
        !player.collides_with_alien(&alien_above),
        "Should not geometrically collide with alien just above player."
    );

    let alien_side = Alien::new_for_test(
        player.x() + PLAYER_WIDTH,
        player_y,
        true,
        ALIEN_DESIGNS[0],
        0,
    );
    assert!(
        !player.collides_with_alien(&alien_side),
        "Should not geometrically collide with alien to the side of player."
    );

    let dead_alien = Alien::new_for_test(
        player.x().saturating_sub(PLAYER_WIDTH / 2),
        player_y,
        false,
        ALIEN_DESIGNS[0],
        0,
    );
    assert!(
        player.collides_with_alien(&dead_alien),
        "Should geometrically collide with a dead alien if positions overlap."
    );

    let exploding_alien = Alien::new_for_test(
        player.x().saturating_sub(PLAYER_WIDTH / 2),
        player_y,
        true,
        ALIEN_DESIGNS[0],
        1,
    );
    assert!(
        player.collides_with_alien(&exploding_alien),
        "Should geometrically collide with an exploding alien if positions overlap."
    );
}

#[test]
fn test_alien_display_strings() {
    // Intact: the design shows unchanged.
    let intact = Alien::new_for_test(0, 0, true, ALIEN_DESIGNS[0], 0);
    let (top, bottom) = intact.display_strings();
    assert_eq!(top, "\u{b2}\u{b2}");
    assert_eq!(bottom, "\u{b0}\u{b0}");

    // Each stage replaces one further cell with the blast glyph, in order.
    let stage_2 = Alien::new_for_test(0, 0, true, ALIEN_DESIGNS[0], 2);
    let (top, bottom) = stage_2.display_strings();
    assert_eq!(top, "**");
    assert_eq!(bottom, "\u{b0}\u{b0}");

    let stage_3 = Alien::new_for_test(0, 0, true, ALIEN_DESIGNS[0], 3);
    let (top, bottom) = stage_3.display_strings();
    assert_eq!(top, "**");
    assert_eq!(bottom, "*\u{b0}");

    let stage_4 = Alien::new_for_test(0, 0, true, ALIEN_DESIGNS[0], 4);
    let (top, bottom) = stage_4.display_strings();
    assert_eq!(top, "**");
    assert_eq!(bottom, "**");
}
