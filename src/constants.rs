use vstd::prelude::*;

verus! {

// Alien kinds
pub const ALIEN1: usize = 1;
pub const ALIEN2: usize = 2;
pub const ALIEN3: usize = 3;

// Play field, in pixels
pub const WINDOW_WIDTH: i32 = 750;
pub const WINDOW_HEIGHT: i32 = 700;
pub const OFFSETX: i32 = 50;
pub const OFFSETY: i32 = 100;
pub const WORLD_WIDTH: i32 = 800;
pub const WORLD_HEIGHT: i32 = 800;
pub const SIDE_MARGIN: i32 = 25;

pub const PLAYER_LIVES: usize = 3;

// Lasers; times are in milliseconds of the game clock
pub const LASER_TIME: u64 = 350;
pub const LASER_SPEED: i32 = -6;
pub const LASER_WIDTH: i32 = 4;
pub const LASER_HEIGHT: i32 = 15;
/// A laser above this row has left the play field.
pub const LASER_MIN_Y: i32 = 25;
/// A laser below this row has reached the status bar.
pub const LASER_MAX_Y: i32 = 700;

// Spaceship
pub const SPACESHIP_SPEED: i32 = 7;
pub const SPACESHIP_YOFFSET: i32 = 100;
pub const SPACESHIP_XOFFSET: i32 = 25;

// Mystery ship
pub const MYSTERYSHIP_SPEED: i32 = 3;
pub const MYSTERYSHIP_YPOS: i32 = 90;
pub const MYSTERYSHIP_MIN_INTERVAL: u64 = 10000;
pub const MYSTERYSHIP_MAX_INTERVAL: u64 = 20000;
pub const MYSTERYSHIP_SCORE: usize = 500;

// Blocks and obstacles
pub const BLOCK_SIDE: i32 = 3;
pub const GRID_WIDTH: usize = 23;
pub const GRID_HEIGHT: usize = 13;
pub const NUM_OBSTACLES: usize = 4;
pub const OBSTACLE_WIDTH: usize = 69;
pub const OBSTACLE_GAP: usize = 104;
pub const OBSTACLE_Y: usize = 600;

// Aliens
pub const ALIEN_ROWS: usize = 5;
pub const ALIEN_COLUMNS: usize = 11;
pub const ALIEN_SIZE: usize = 55;
pub const ALIEN_OFFSET_X: usize = 75;
pub const ALIEN_OFFSET_Y: usize = 110;
pub const ALIEN_DOWN_DISTANCE: usize = 4;
pub const ALIEN_LASER_SPEED: i32 = 6;
pub const ALIEN_LASER_INTERVAL: u64 = 350;
/// An alien whose right edge passes this column turns back.
pub const ALIEN_RIGHT_LIMIT: i32 = 725;
/// An alien whose left edge passes this column turns back.
pub const ALIEN_LEFT_LIMIT: i32 = 25;

} // verus!
