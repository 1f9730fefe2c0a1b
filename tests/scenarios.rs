use space_invaders::alien::Alien;
use space_invaders::constants::{ALIEN1, ALIEN2, ALIEN3, ALIEN_LASER_SPEED, LASER_SPEED};
use space_invaders::context::{Context, Size};
use space_invaders::frame::Rolls;
use space_invaders::game::{Game, GameState, Input};
use space_invaders::geometry::{Rect, Vector2};
use space_invaders::laser::Laser;

fn ctx() -> Context {
    Context::new(
        Size { width: 44, height: 32 },
        Size { width: 48, height: 32 },
        Size { width: 40, height: 32 },
        Size { width: 56, height: 48 },
        Size { width: 64, height: 28 },
    )
}

fn quiet_rolls() -> Rolls {
    Rolls { alien: 0, mystery_from_left: true, mystery_interval: 15000 }
}

/// A game with one alien of the given kind at (300, 300) and no shields.
fn lone_alien(kind: usize) -> Game {
    let mut game = Game::new(ctx());
    game.aliens.clear();
    game.obstacles.clear();
    let alien = Alien::new(kind, Vector2 { x: 300, y: 300 }, &game.ctx);
    game.aliens.push(alien);
    game
}

fn no_keys() -> Input {
    Input { left: false, right: false, fire: false, pause: false, confirm: false, cancel: false, close: false }
}

#[test]
fn laser_destroys_alien_of_kind_one() {
    let mut game = lone_alien(ALIEN1);
    game.lasers.push(Laser::new(Vector2 { x: 310, y: 310 }, LASER_SPEED));
    let before = game.score;
    let cues = game.update(0);
    assert!(!game.aliens[0].is_active());
    assert!(!game.lasers[0].is_active());
    assert_eq!(game.score, before + 100);
    assert!(cues.alien_destroyed);
    assert_eq!(game.state, GameState::Running);
}

#[test]
fn last_life_lost_ends_the_game_and_saves() {
    let mut game = Game::new(ctx());
    game.lives = 1;
    game.score = 1234;
    game.high_score = 1000;
    let ship = game.spaceship.get_rect();
    game.alien_lasers.push(Laser::new(Vector2 { x: ship.x + 10, y: ship.y - 5 }, ALIEN_LASER_SPEED));
    let cues = game.update(0);
    assert_eq!(game.lives, 0);
    assert_eq!(game.state, GameState::GameOver);
    assert!(cues.ship_destroyed);
    assert!(cues.save_high_score);
    assert_eq!(game.high_score, 1234);
    assert_eq!(game.save_high_score(), b"1234".to_vec());
}

#[test]
fn saved_high_score_keeps_the_higher_old_one() {
    let mut game = Game::new(ctx());
    game.lives = 1;
    game.score = 50;
    game.high_score = 900;
    let ship = game.spaceship.get_rect();
    game.alien_lasers.push(Laser::new(Vector2 { x: ship.x + 10, y: ship.y - 5 }, ALIEN_LASER_SPEED));
    let cues = game.update(0);
    assert_eq!(game.state, GameState::GameOver);
    assert!(cues.save_high_score);
    assert_eq!(game.save_high_score(), b"900".to_vec());
}

#[test]
fn empty_roster_levels_up_without_crashing() {
    let mut game = Game::new(ctx());
    for i in 0..game.aliens.len() {
        game.aliens[i].set_inactive();
    }
    let cues = game.update(5000);
    assert_eq!(game.state, GameState::LevelUp);
    assert!(game.aliens.is_empty());
    assert!(!cues.save_high_score);
    let cues = game.update(6000);
    assert_eq!(game.state, GameState::LevelUp);
    assert!(!cues.laser_fired);
}

#[test]
fn roster_destroyed_by_lasers_then_level_up() {
    let mut game = lone_alien(ALIEN1);
    game.lasers.push(Laser::new(Vector2 { x: 310, y: 310 }, LASER_SPEED));
    game.update(0);
    assert!(!game.aliens[0].is_active());
    game.update(16);
    assert_eq!(game.state, GameState::LevelUp);
    game.handle_input(Input { confirm: true, ..no_keys() }, 20);
    assert_eq!(game.state, GameState::Running);
    assert_eq!(game.level, 2);
    assert_eq!(game.aliens.len(), 55);
}

#[test]
fn aliens_of_kind_two_and_three_score_their_value() {
    let mut game = lone_alien(ALIEN2);
    game.lasers.push(Laser::new(Vector2 { x: 310, y: 310 }, LASER_SPEED));
    game.update(0);
    assert_eq!(game.score, 200);
    let mut game = lone_alien(ALIEN3);
    game.lasers.push(Laser::new(Vector2 { x: 310, y: 310 }, LASER_SPEED));
    game.update(0);
    assert_eq!(game.score, 300);
}

#[test]
fn mystery_ship_scores_five_hundred() {
    let mut game = lone_alien(ALIEN1);
    game.mysteryship.spawn_from(true);
    game.lasers.push(Laser::new(Vector2 { x: 40, y: 95 }, LASER_SPEED));
    let cues = game.update(0);
    assert!(cues.mystery_destroyed);
    assert!(!game.mysteryship.is_active());
    assert_eq!(game.score, 500);
    assert!(game.aliens[0].is_active());
}

#[test]
fn shield_hits_score_nothing() {
    let mut game = Game::new(ctx());
    let block = game.obstacles[0].blocks[100];
    assert!(block.is_active());
    let p = block.position;
    game.lasers.push(Laser::new(Vector2 { x: p.x, y: p.y + 6 }, LASER_SPEED));
    // after its move the laser covers this rectangle: every block under it goes
    let shot = Rect { x: p.x, y: p.y, width: 4, height: 15 };
    let under = game.obstacles[0].blocks.iter().filter(|b| b.get_rect().overlaps(shot)).count();
    assert!(under > 1);
    let cues = game.update(0);
    assert_eq!(game.score, 0);
    assert!(!game.lasers[0].is_active());
    assert!(!game.obstacles[0].blocks[100].is_active());
    assert!(!cues.alien_destroyed);
    game.update(16);
    assert_eq!(game.obstacles[0].blocks.len(), 240 - under);
}

#[test]
fn one_laser_kills_every_alien_it_overlaps() {
    let mut game = lone_alien(ALIEN1);
    let second = Alien::new(ALIEN1, Vector2 { x: 305, y: 300 }, &game.ctx);
    game.aliens.push(second);
    game.lasers.push(Laser::new(Vector2 { x: 320, y: 310 }, LASER_SPEED));
    game.update(0);
    assert!(!game.aliens[0].is_active());
    assert!(!game.aliens[1].is_active());
    assert_eq!(game.score, 200);
}

#[test]
fn alien_touching_ship_ends_game_with_lives_left() {
    let mut game = lone_alien(ALIEN1);
    let ship = game.spaceship.get_rect();
    game.aliens[0].position = Vector2 { x: ship.x, y: ship.y };
    let cues = game.update(0);
    assert_eq!(game.state, GameState::GameOver);
    assert_eq!(game.lives, 3);
    assert!(cues.save_high_score);
}

#[test]
fn lives_never_go_up_and_two_hits_cost_two() {
    let mut game = Game::new(ctx());
    let ship = game.spaceship.get_rect();
    game.alien_lasers.push(Laser::new(Vector2 { x: ship.x + 10, y: ship.y - 5 }, ALIEN_LASER_SPEED));
    game.alien_lasers.push(Laser::new(Vector2 { x: ship.x + 20, y: ship.y - 5 }, ALIEN_LASER_SPEED));
    let cues = game.update(0);
    assert_eq!(game.lives, 1);
    assert_eq!(game.state, GameState::Running);
    assert!(cues.ship_destroyed);
    assert!(!cues.save_high_score);
}

#[test]
fn aliens_fire_after_the_interval() {
    let mut game = lone_alien(ALIEN1);
    game.update_with(100, quiet_rolls());
    assert!(game.alien_lasers.is_empty());
    game.update_with(400, quiet_rolls());
    assert_eq!(game.alien_lasers.len(), 1);
    let a = game.aliens[0];
    // fired from the middle of the alien's bottom edge, then moved one frame
    assert_eq!(game.alien_lasers[0].position, Vector2 { x: a.position.x + 22, y: a.position.y + 32 + 6 });
    assert_eq!(game.time_alien_last_fired, 400);
}

#[test]
fn mystery_ship_spawns_when_its_interval_runs_out() {
    let mut game = lone_alien(ALIEN1);
    game.mysteryship_spawn_interval = 10000;
    let cues = game.update_with(10000, quiet_rolls());
    assert!(!cues.mystery_flying);
    assert!(!game.mysteryship.is_active());
    let rolls = Rolls { alien: 0, mystery_from_left: false, mystery_interval: 12345 };
    let cues = game.update_with(10001, rolls);
    assert!(cues.mystery_flying);
    assert!(game.mysteryship.is_active());
    assert_eq!(game.mysteryship.position, Vector2 { x: 800 - 64 - 25 - 3, y: 90 });
    assert_eq!(game.mysteryship_spawn_interval, 12345);
    assert_eq!(game.time_last_spawned, 10001);
}

#[test]
fn paused_game_does_not_move() {
    let mut game = lone_alien(ALIEN1);
    game.handle_input(Input { pause: true, ..no_keys() }, 0);
    assert_eq!(game.state, GameState::Paused);
    let before = game.aliens[0].position;
    let cues = game.update(1000);
    assert_eq!(game.aliens[0].position, before);
    assert!(!cues.mystery_flying);
    game.handle_input(Input { pause: true, ..no_keys() }, 0);
    assert_eq!(game.state, GameState::Running);
}

#[test]
fn closing_quits_from_any_state() {
    let mut game = Game::new(ctx());
    game.handle_input(Input { close: true, ..no_keys() }, 0);
    assert_eq!(game.state, GameState::Quit);
    game.handle_input(Input { pause: true, ..no_keys() }, 0);
    assert_eq!(game.state, GameState::Quit);
}

#[test]
fn game_over_confirm_starts_a_new_game() {
    let mut game = Game::new(ctx());
    game.state = GameState::GameOver;
    game.lives = 0;
    game.score = 700;
    game.high_score = 700;
    game.level = 4;
    let cues = game.handle_input(Input { confirm: true, ..no_keys() }, 0);
    assert!(cues.start_music);
    assert_eq!(game.state, GameState::Running);
    assert_eq!(game.lives, 3);
    assert_eq!(game.score, 0);
    assert_eq!(game.level, 1);
    assert_eq!(game.high_score, 700);
    assert_eq!(game.aliens.len(), 55);
    assert!(game.mysteryship_spawn_interval >= 10000 && game.mysteryship_spawn_interval < 20000);
}

#[test]
fn game_over_cancel_quits() {
    let mut game = Game::new(ctx());
    game.state = GameState::GameOver;
    game.lives = 0;
    game.handle_input(Input { cancel: true, ..no_keys() }, 0);
    assert_eq!(game.state, GameState::Quit);
}

#[test]
fn ship_moves_and_fires_from_input() {
    let mut game = Game::new(ctx());
    let x = game.spaceship.position.x;
    game.handle_input(Input { left: true, ..no_keys() }, 0);
    assert_eq!(game.spaceship.position.x, x - 7);
    game.handle_input(Input { right: true, ..no_keys() }, 0);
    assert_eq!(game.spaceship.position.x, x);
    let cues = game.handle_input(Input { fire: true, ..no_keys() }, 1000);
    assert!(cues.laser_fired);
    assert_eq!(game.lasers.len(), 1);
    let cues = game.handle_input(Input { fire: true, ..no_keys() }, 1100);
    assert!(!cues.laser_fired);
    assert_eq!(game.lasers.len(), 1);
    let cues = game.handle_input(Input { fire: true, left: true, ..no_keys() }, 5000);
    assert!(!cues.laser_fired);
}
