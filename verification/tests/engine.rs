//! Tests of the simulation engine: the per-step phases, the score rules,
//! and the three end conditions with their priority order.

use asciiliens::alien::Alien;
use asciiliens::blast::Blast;
use asciiliens::constants::{ALIEN_DESIGNS, ALIEN_MOVE_DOWN_FREQ, INITIAL_SCORE};
use asciiliens::{Game, GameEvent, GameState};

#[test]
fn test_game_fire_blast() {
    let mut game = Game::new();
    game.blasts_mut().clear();
    let initial_score = game.score();

    game.update(GameEvent::Fire);

    assert_eq!(game.blasts().len(), 1);
    assert_eq!(
        game.blasts()[0].x(),
        game.player().x(),
        "Blast X should match player X at fire."
    );
    // The blast climbs one row in the same update call, so it sits two rows
    // above the player.
    assert_eq!(game.blasts()[0].y(), game.player().y_pos() - 2);
    assert_eq!(
        game.score(),
        initial_score - 1,
        "Unleashing should deduct 1 point."
    );
}

#[test]
fn test_game_movement_score_deduction() {
    let mut game = Game::new();
    let initial_score = game.score();

    game.update(GameEvent::MoveLeft);
    assert_eq!(
        game.score(),
        initial_score - 1,
        "Moving left should deduct 1 point."
    );

    let current_score = game.score();
    game.update(GameEvent::MoveRight);
    assert_eq!(
        game.score(),
        current_score - 1,
        "Moving right should deduct 1 point."
    );
}

#[test]
fn test_game_update_blasts() {
    let mut game = Game::new();
    game.blasts_mut().clear();
    game.blasts_mut().push(Blast::new(10, 1));
    game.blasts_mut().push(Blast::new(20, 5));

    game.update_blasts();

    assert_eq!(game.blasts().len(), 1, "Only blast at y=5 should remain.");
    assert_eq!(game.blasts()[0].y(), 4, "Blast should have moved up.");
}

#[test]
fn test_game_handle_collisions_starts_explosion() {
    let mut game = Game::new();
    game.aliens_mut().clear();
    game.blasts_mut().clear();

    game.aliens_mut()
        .push(Alien::new_for_test(10, 5, true, ALIEN_DESIGNS[0], 0));
    game.blasts_mut().push(Blast::new(10, 5));

    game.handle_collisions();

    assert_eq!(
        game.aliens()[0].explosion_frame(),
        1,
        "Alien should start exploding (frame 1)."
    );
    assert!(
        game.aliens()[0].alive(),
        "Alien should still be alive during explosion animation."
    );
    assert!(
        game.blasts().is_empty(),
        "Blast should be removed after hitting."
    );
    assert_eq!(
        game.score(),
        INITIAL_SCORE,
        "Score should not change on hit, only after after explosion completes."
    );
}

#[test]
fn test_game_update_explosions_animates_and_scores() {
    let mut game = Game::new();
    game.aliens_mut().clear();
    game.aliens_mut()
        .push(Alien::new_for_test(10, 5, true, ALIEN_DESIGNS[0], 1));
    let initial_score = game.score();

    game.update_explosions();
    assert_eq!(game.aliens()[0].explosion_frame(), 2);
    assert!(game.aliens()[0].alive());
    assert_eq!(game.score(), initial_score);

    game.update_explosions();
    assert_eq!(game.aliens()[0].explosion_frame(), 3);
    assert!(game.aliens()[0].alive());
    assert_eq!(game.score(), initial_score);

    game.update_explosions();
    assert_eq!(game.aliens()[0].explosion_frame(), 4);
    assert!(game.aliens()[0].alive());
    assert_eq!(game.score(), initial_score);

    game.update_explosions();
    assert_eq!(
        game.aliens()[0].explosion_frame(),
        5,
        "Alien should reach frame 5."
    );
    assert!(
        !game.aliens()[0].alive(),
        "Alien should be marked as not alive after explosion completes."
    );
    assert_eq!(
        game.score(),
        initial_score + 250,
        "Score should increase by 250 after explosion completes."
    );
}

#[test]
fn test_game_bonus_awarded_only_once() {
    let mut game = Game::new();
    game.aliens_mut().clear();
    game.aliens_mut()
        .push(Alien::new_for_test(10, 5, true, ALIEN_DESIGNS[0], 4));
    let initial_score = game.score();

    game.update_explosions();
    assert_eq!(game.aliens()[0].explosion_frame(), 5);
    assert_eq!(game.score(), initial_score + 250);

    // A finished animation is never advanced or rewarded again.
    game.update_explosions();
    game.update_explosions();
    assert_eq!(game.aliens()[0].explosion_frame(), 5);
    assert_eq!(game.score(), initial_score + 250);
}

#[test]
fn test_game_alien_vertical_movement() {
    let mut game = Game::new();
    game.aliens_mut()
        .iter_mut()
        .for_each(|alien| alien.set_explosion_frame(0));
    let initial_y = game.aliens()[0].y();

    for _i in 0..ALIEN_MOVE_DOWN_FREQ {
        game.update(GameEvent::AdvanceFrame);
    }
    assert_eq!(
        game.aliens()[0].y(),
        initial_y + 1,
        "Alien should have moved down."
    );
}

#[test]
fn test_game_win_condition() {
    let mut game = Game::new();
    game.aliens_mut()
        .iter_mut()
        .for_each(|alien| alien.set_alive(false));
    game.check_game_over_conditions();
    assert_eq!(game.state(), GameState::Win);
}

#[test]
fn test_game_over_alien_invaded() {
    let mut game = Game::new();
    let player_y_pos = game.player().y_pos();

    game.aliens_mut()[0].set_y(player_y_pos - 2 + 1);
    game.check_game_over_conditions();
    assert_eq!(game.state(), GameState::GameOver);
}

#[test]
fn test_game_over_player_collision() {
    let mut game = Game::new();
    game.aliens_mut().clear();

    let player_x = game.player().x().saturating_sub(3);
    let player_y_pos = game.player().y_pos();

    game.aliens_mut().push(Alien::new_for_test(
        player_x,
        player_y_pos,
        true,
        ALIEN_DESIGNS[0],
        0,
    ));
    game.check_game_over_conditions();
    assert_eq!(game.state(), GameState::GameOver);
}

#[test]
fn scenario_fresh_game_fire_and_destroy() {
    // A fresh engine: player at the center, 30 aliens on rows 3, 6 and 9 at
    // columns 10, 16, ..., 64, score 100.
    let mut game = Game::new();
    assert_eq!(game.player().x(), 40);
    assert_eq!(game.score(), 100);
    assert_eq!(game.aliens().len(), 30);
    for k in 0..30 {
        let a = &game.aliens()[k];
        assert_eq!(a.x(), (k as u16 % 10) * 6 + 10);
        assert_eq!(a.y(), (k as u16 / 10) * 3 + 3);
        assert!(a.alive());
        assert_eq!(a.explosion_frame(), 0);
        assert!(ALIEN_DESIGNS.contains(&a.design()));
    }

    // One fire: exactly one blast, two rows above the player, score 99.
    game.update(GameEvent::Fire);
    assert_eq!(game.blasts().len(), 1);
    assert_eq!(game.blasts()[0].x(), game.player().x());
    assert_eq!(game.blasts()[0].y(), game.player().y_pos() - 2);
    assert_eq!(game.score(), 99);

    // Align a single alien with the player's column and fire: the blast
    // climbs one row per step until it strikes. The alien stays aligned
    // with the player, so it never moves horizontally, and it is hit
    // before any descent tick turns into an invasion.
    let mut game = Game::new();
    game.update(GameEvent::Fire);
    game.blasts_mut().clear();
    game.aliens_mut().clear();
    game.aliens_mut()
        .push(Alien::new_for_test(40, 10, true, ALIEN_DESIGNS[0], 0));
    let pre_hit_score = game.score();

    game.update(GameEvent::Fire);
    // Steps until the blast reaches the alien's box.
    while game.aliens()[0].explosion_frame() == 0 {
        assert!(game.blasts().len() == 1);
        game.update(GameEvent::AdvanceFrame);
    }
    // On the collision step the animation has begun and the blast is
    // consumed; the bonus is not yet paid.
    assert!(game.aliens()[0].explosion_frame() > 0);
    assert!(game.aliens()[0].alive());
    assert!(game.blasts().is_empty());
    assert_eq!(game.score(), pre_hit_score - 1);

    // Four more idle steps are ample for the animation to play out: the
    // alien dies, the bonus lands, and with no alien left the game is won.
    for _ in 0..4 {
        game.update(GameEvent::AdvanceFrame);
    }
    assert!(game.aliens().is_empty());
    assert_eq!(game.score(), pre_hit_score - 1 + 250);
    assert_eq!(game.state(), GameState::Win);
}

#[test]
fn scenario_all_dead_step_wins() {
    let mut game = Game::new();
    game.aliens_mut()
        .iter_mut()
        .for_each(|alien| alien.set_alive(false));
    game.update(GameEvent::AdvanceFrame);
    assert_eq!(game.state(), GameState::Win);
}

#[test]
fn scenario_intact_alien_above_player_loses() {
    let mut game = Game::new();
    let row_above = game.player().y_pos() - 1;
    game.aliens_mut()[0].set_y(row_above);
    game.update(GameEvent::AdvanceFrame);
    assert_eq!(game.state(), GameState::GameOver);
}

#[test]
fn scenario_win_beats_invasion_on_same_step() {
    // The last alive alien finishes exploding on the very step its position
    // would otherwise count as an invasion: win takes precedence.
    let mut game = Game::new();
    game.aliens_mut().clear();
    let player_row = game.player().y_pos();
    game.aliens_mut()
        .push(Alien::new_for_test(40, player_row, true, ALIEN_DESIGNS[0], 4));
    game.update(GameEvent::AdvanceFrame);
    assert_eq!(game.state(), GameState::Win);
}

#[test]
fn test_terminal_state_freezes_world() {
    let mut game = Game::new();
    game.update(GameEvent::Quit);
    assert_eq!(game.state(), GameState::Quit);

    let score = game.score();
    let frames = game.frame_counter();
    let player_x = game.player().x();
    let alien_states: Vec<(u16, u16, bool, u8)> = game
        .aliens()
        .iter()
        .map(|a| (a.x(), a.y(), a.alive(), a.explosion_frame()))
        .collect();
    let blast_count = game.blasts().len();

    for ev in [
        GameEvent::MoveLeft,
        GameEvent::MoveRight,
        GameEvent::Fire,
        GameEvent::AdvanceFrame,
        GameEvent::Quit,
    ] {
        game.update(ev);
    }

    assert_eq!(game.state(), GameState::Quit);
    assert_eq!(game.score(), score);
    assert_eq!(game.frame_counter(), frames);
    assert_eq!(game.player().x(), player_x);
    assert_eq!(game.blasts().len(), blast_count);
    let after: Vec<(u16, u16, bool, u8)> = game
        .aliens()
        .iter()
        .map(|a| (a.x(), a.y(), a.alive(), a.explosion_frame()))
        .collect();
    assert_eq!(after, alien_states);
}

#[test]
fn test_initial_grid_through_helper() {
    // The grid builder appends exactly the starting formation.
    let mut rng = rand::thread_rng();
    let mut fresh: Vec<Alien> = Vec::new();
    Game::initialize_aliens_for_game(&mut fresh, &mut rng);
    assert_eq!(fresh.len(), 30);
    for (k, a) in fresh.iter().enumerate() {
        assert_eq!(a.x(), (k as u16 % 10) * 6 + 10);
        assert_eq!(a.y(), (k as u16 / 10) * 3 + 3);
        assert!(a.alive());
        assert_eq!(a.explosion_frame(), 0);
        assert!(ALIEN_DESIGNS.contains(&a.design()));
    }
}

#[test]
fn test_quit_is_kept_unless_overridden() {
    // A quit with aliens still alive stays a quit after that step's checks.
    let mut game = Game::new();
    game.update(GameEvent::Quit);
    assert_eq!(game.state(), GameState::Quit);
    assert_eq!(game.frame_counter(), 1);
}
