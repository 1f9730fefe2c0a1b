use space_invaders::alien::Alien;
use space_invaders::block::Block;
use space_invaders::constants::{ALIEN1, ALIEN2, ALIEN3, LASER_SPEED};
use space_invaders::context::{Context, Size};
use space_invaders::game::{Game, GameState};
use space_invaders::geometry::{add_clamped, halve, Rect, Vector2};
use space_invaders::laser::Laser;
use space_invaders::mysteryship::MysteryShip;
use space_invaders::obstacle::Obstacle;
use space_invaders::spaceship::Spaceship;

fn ctx() -> Context {
    Context::new(
        Size { width: 44, height: 32 },
        Size { width: 48, height: 32 },
        Size { width: 40, height: 32 },
        Size { width: 56, height: 48 },
        Size { width: 64, height: 28 },
    )
}

#[test]
fn laser_deactivation_is_idempotent() {
    let mut laser = Laser::new(Vector2 { x: 10, y: 300 }, LASER_SPEED);
    assert!(laser.is_active());
    laser.set_inactive();
    let once = laser;
    laser.set_inactive();
    assert_eq!(laser, once);
    assert!(!laser.is_active());
    laser.update();
    assert_eq!(laser, once);
}

#[test]
fn laser_moves_and_leaves_the_field() {
    let mut laser = Laser::new(Vector2 { x: 10, y: 30 }, LASER_SPEED);
    laser.update();
    assert_eq!(laser.position.y, 24);
    assert!(!laser.is_active());
    let mut down = Laser::new(Vector2 { x: 10, y: 694 }, 6);
    down.update();
    assert_eq!(down.position.y, 700);
    assert!(down.is_active());
    down.update();
    assert!(!down.is_active());
    assert_eq!(down.get_rect(), Rect { x: 10, y: 706, width: 4, height: 15 });
}

#[test]
fn rectangles_that_only_touch_do_not_overlap() {
    let a = Rect { x: 0, y: 0, width: 10, height: 10 };
    assert!(a.overlaps(Rect { x: 9, y: 9, width: 5, height: 5 }));
    assert!(!a.overlaps(Rect { x: 10, y: 0, width: 5, height: 5 }));
    assert!(!a.overlaps(Rect { x: 0, y: 10, width: 5, height: 5 }));
    // a rectangle without area collides with nothing, even strictly inside
    assert!(!a.overlaps(Rect { x: 3, y: 3, width: 0, height: 0 }));
    assert!(!Rect { x: 3, y: 3, width: 0, height: 4 }.overlaps(a));
    assert!(!a.overlaps(Rect { x: 3, y: 3, width: -2, height: 4 }));
}

#[test]
fn coordinates_saturate() {
    assert_eq!(add_clamped(i32::MAX, 5), i32::MAX);
    assert_eq!(add_clamped(i32::MIN, -5), i32::MIN);
    assert_eq!(add_clamped(3, -5), -2);
    assert_eq!(halve(-7), -3);
    assert_eq!(halve(7), 3);
}

#[test]
fn shield_has_the_stencil_shape() {
    let obstacle = Obstacle::new(100, 600);
    assert_eq!(obstacle.blocks.len(), 240);
    assert_eq!(obstacle.blocks[0], Block::new(Vector2 { x: 112, y: 600 }));
    assert_eq!(obstacle.blocks[14].position, Vector2 { x: 154, y: 600 });
    assert_eq!(obstacle.blocks[239].position, Vector2 { x: 166, y: 636 });
    assert_eq!(obstacle.blocks[0].get_rect(), Rect { x: 112, y: 600, width: 3, height: 3 });
}

#[test]
fn shield_loses_struck_blocks_when_pruned() {
    let mut obstacle = Obstacle::new(0, 0);
    let hit = obstacle.strike(Rect { x: 12, y: 0, width: 4, height: 4 });
    assert!(hit);
    assert!(!obstacle.blocks[0].is_active());
    assert!(!obstacle.blocks[1].is_active());
    assert!(obstacle.blocks[2].is_active());
    // row 1 starts one cell further left: its cells at x 12 and 15 are hit too
    assert!(!obstacle.blocks[16].is_active());
    assert!(!obstacle.blocks[17].is_active());
    assert!(obstacle.blocks[15].is_active());
    obstacle.remove_inactive_blocks();
    assert_eq!(obstacle.blocks.len(), 236);
    assert!(!obstacle.strike(Rect { x: 0, y: 0, width: 3, height: 3 }));
}

#[test]
fn alien_values_and_geometry() {
    let c = ctx();
    let a = Alien::new(ALIEN1, Vector2 { x: 100, y: 50 }, &c);
    let b = Alien::new(ALIEN2, Vector2 { x: 100, y: 50 }, &c);
    let d = Alien::new(ALIEN3, Vector2 { x: 100, y: 50 }, &c);
    assert_eq!((a.get_score(), b.get_score(), d.get_score()), (100, 200, 300));
    assert_eq!(a.get_rect(), Rect { x: 100, y: 50, width: 44, height: 32 });
    assert_eq!(d.get_rect().width, 40);
    assert_eq!(a.get_laser_position(), Vector2 { x: 122, y: 82 });
    let mut m = a;
    m.update(-1);
    m.move_down(4);
    assert_eq!(m.position, Vector2 { x: 99, y: 54 });
    m.set_inactive();
    assert!(!m.is_active());
}

#[test]
fn alien_edges() {
    let c = ctx();
    let right = Alien::new(ALIEN1, Vector2 { x: 682, y: 0 }, &c);
    assert!(right.has_overflowed_right());
    let inside = Alien::new(ALIEN1, Vector2 { x: 681, y: 0 }, &c);
    assert!(!inside.has_overflowed_right());
    assert!(!inside.has_overflowed_left());
    let left = Alien::new(ALIEN1, Vector2 { x: 24, y: 0 }, &c);
    assert!(left.has_overflowed_left());
}

#[test]
fn roster_turns_left_and_steps_down_once() {
    let mut game = Game::new(ctx());
    game.aliens.clear();
    let c = game.ctx;
    game.aliens.push(Alien::new(ALIEN1, Vector2 { x: 690, y: 100 }, &c));
    game.aliens.push(Alien::new(ALIEN1, Vector2 { x: 700, y: 100 }, &c));
    game.aliens.push(Alien::new(ALIEN1, Vector2 { x: 300, y: 200 }, &c));
    game.move_aliens();
    assert_eq!(game.aliens_direction, -1);
    assert_eq!(game.aliens[0].position, Vector2 { x: 689, y: 104 });
    assert_eq!(game.aliens[1].position, Vector2 { x: 699, y: 104 });
    assert_eq!(game.aliens[2].position, Vector2 { x: 299, y: 204 });
}

#[test]
fn roster_turns_right_at_the_left_edge() {
    let mut game = Game::new(ctx());
    game.aliens.clear();
    game.aliens_direction = -1;
    let c = game.ctx;
    game.aliens.push(Alien::new(ALIEN2, Vector2 { x: 20, y: 100 }, &c));
    game.move_aliens();
    assert_eq!(game.aliens_direction, 1);
    assert_eq!(game.aliens[0].position, Vector2 { x: 21, y: 104 });
    game.move_aliens();
    assert_eq!(game.aliens[0].position, Vector2 { x: 22, y: 108 });
}

#[test]
fn roster_keeps_going_inside_the_field() {
    let mut game = Game::new(ctx());
    let before = game.aliens[0].position;
    game.move_aliens();
    assert_eq!(game.aliens_direction, 1);
    assert_eq!(game.aliens[0].position, Vector2 { x: before.x + 1, y: before.y });
}

#[test]
fn fresh_game_layout() {
    let game = Game::new(ctx());
    assert_eq!(game.aliens.len(), 55);
    assert_eq!(game.aliens[0].kind, 3);
    assert_eq!(game.aliens[0].position, Vector2 { x: 75, y: 110 });
    assert_eq!(game.aliens[11].kind, 2);
    assert_eq!(game.aliens[33].kind, 1);
    assert_eq!(game.aliens[54].position, Vector2 { x: 625, y: 330 });
    assert_eq!(game.obstacles.len(), 4);
    assert_eq!(game.obstacles[1].blocks[0].position, Vector2 { x: 2 * 104 + 69 + 12, y: 600 });
    assert_eq!(game.lives, 3);
    assert_eq!(game.level, 1);
    assert_eq!(game.state, GameState::Running);
    assert!(game.mysteryship_spawn_interval >= 10000 && game.mysteryship_spawn_interval < 20000);
}

#[test]
fn spaceship_stays_within_bounds_and_cools_down() {
    let c = ctx();
    let mut ship = Spaceship::new(&c);
    assert_eq!(ship.position, Vector2 { x: 372, y: 652 });
    for _ in 0..100 {
        ship.move_left();
    }
    assert_eq!(ship.position.x, 25);
    for _ in 0..200 {
        ship.move_right();
    }
    assert_eq!(ship.position.x, 800 - 56 - 25);
    let shot = ship.fire_laser(1000).unwrap();
    assert_eq!(shot.position, Vector2 { x: 719 + 26, y: 652 });
    assert_eq!(shot.speed, -6);
    assert!(ship.fire_laser(1349).is_none());
    assert!(ship.fire_laser(1350).is_some());
    ship.reset();
    assert_eq!(ship.position, Vector2 { x: 372, y: 652 });
    ship.update();
    assert_eq!(ship.get_rect(), Rect { x: 372, y: 652, width: 56, height: 48 });
}

#[test]
fn mystery_ship_crosses_and_leaves() {
    let c = ctx();
    let mut ship = MysteryShip::new(&c);
    assert_eq!(ship.get_rect(), Rect { x: 0, y: 0, width: 0, height: 0 });
    ship.spawn_from(true);
    assert_eq!(ship.position, Vector2 { x: 25, y: 90 });
    assert_eq!(ship.get_rect(), Rect { x: 25, y: 90, width: 64, height: 28 });
    ship.update();
    assert_eq!(ship.position.x, 28);
    ship.spawn_from(false);
    assert_eq!(ship.position.x, 711);
    ship.update();
    assert_eq!(ship.position.x, 708);
    assert!(ship.is_active());
    ship.position.x = 26;
    ship.update();
    assert!(!ship.is_active());
    ship.spawn();
    assert!(ship.is_active());
    assert!(ship.position.x == 25 || ship.position.x == 711);
    ship.set_inactive();
    assert!(!ship.is_active());
}

#[test]
fn idle_mystery_ship_collides_with_nothing() {
    let c = ctx();
    let mut ship = MysteryShip::new(&c);
    ship.position = Vector2 { x: 10, y: 10 };
    let laser = Laser::new(Vector2 { x: 8, y: 0 }, LASER_SPEED);
    assert!(!ship.get_rect().overlaps(laser.get_rect()));
    assert!(!laser.get_rect().overlaps(ship.get_rect()));
    ship.spawn_from(true);
    let through = Laser::new(Vector2 { x: 30, y: 95 }, LASER_SPEED);
    assert!(ship.get_rect().overlaps(through.get_rect()));
}
