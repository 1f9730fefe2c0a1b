use vstd::prelude::*;
use crate::alien::Alien;
use crate::block::Block;
use crate::constants::{
    ALIEN_COLUMNS, ALIEN_OFFSET_X, ALIEN_OFFSET_Y, ALIEN_ROWS, ALIEN_SIZE, MYSTERYSHIP_MAX_INTERVAL,
    MYSTERYSHIP_MIN_INTERVAL, NUM_OBSTACLES, OBSTACLE_GAP, OBSTACLE_WIDTH, OBSTACLE_Y, PLAYER_LIVES,
};
use crate::context::Context;
use crate::geometry::Vector2;
use crate::highscore::{high_score_file, high_score_text, loaded_high_score, parse_high_score};
use crate::laser::Laser;
use crate::mysteryship::MysteryShip;
use crate::obstacle::{shield, Obstacle};
use crate::random::random_below;
use crate::spaceship::{cooled_down, home_position, Spaceship};

verus! {

/// Where the game is in its life cycle.
#[derive(Clone, Copy, Debug, PartialEq, Eq, Structural)]
pub enum GameState {
    Running,
    GameOver,
    LevelUp,
    Paused,
    Quit,
}

/// The keys of one frame: held for moving and firing, pressed for the rest.
#[derive(Clone, Copy, Debug, PartialEq, Eq, Structural)]
pub struct Input {
    pub left: bool,
    pub right: bool,
    pub fire: bool,
    pub pause: bool,
    pub confirm: bool,
    pub cancel: bool,
    pub close: bool,
}

/// What a frame asks of the sound system and of the high-score file.
#[derive(Clone, Copy, Debug, PartialEq, Eq, Structural)]
pub struct Cues {
    pub laser_fired: bool,
    pub alien_destroyed: bool,
    pub mystery_destroyed: bool,
    pub ship_destroyed: bool,
    /// The mystery ship is crossing the screen.
    pub mystery_flying: bool,
    pub start_music: bool,
    /// The high score is to be written to the high-score file.
    pub save_high_score: bool,
}

pub open spec fn no_cues() -> Cues {
    Cues {
        laser_fired: false,
        alien_destroyed: false,
        mystery_destroyed: false,
        ship_destroyed: false,
        mystery_flying: false,
        start_music: false,
        save_high_score: false,
    }
}

impl Cues {
    pub fn none() -> (r: Cues)
        ensures
            r == no_cues(),
    {
        Cues {
            laser_fired: false,
            alien_destroyed: false,
            mystery_destroyed: false,
            ship_destroyed: false,
            mystery_flying: false,
            start_music: false,
            save_high_score: false,
        }
    }
}

/// The whole game: the player's ship and lasers, the alien roster and its
/// lasers, the shields, the mystery ship, and the score keeping.
pub struct Game {
    pub ctx: Context,
    pub spaceship: Spaceship,
    pub lasers: Vec<Laser>,
    pub obstacles: Vec<Obstacle>,
    pub aliens: Vec<Alien>,
    /// +1 while the roster marches right, -1 while it marches left.
    pub aliens_direction: i32,
    pub alien_lasers: Vec<Laser>,
    /// Times are in milliseconds of the game clock.
    pub time_alien_last_fired: u64,
    pub mysteryship: MysteryShip,
    pub mysteryship_spawn_interval: u64,
    pub time_last_spawned: u64,
    pub lives: usize,
    pub level: usize,
    pub score: usize,
    pub high_score: usize,
    pub state: GameState,
}

/// The game as a mathematical value.
pub struct GameModel {
    pub ctx: Context,
    pub spaceship: Spaceship,
    pub lasers: Seq<Laser>,
    /// The blocks of each shield.
    pub blocks: Seq<Seq<Block>>,
    pub aliens: Seq<Alien>,
    pub direction: int,
    pub alien_lasers: Seq<Laser>,
    pub alien_fired_at: int,
    pub mystery: MysteryShip,
    pub mystery_interval: int,
    pub mystery_spawned_at: int,
    pub lives: int,
    pub level: int,
    pub score: int,
    pub high_score: int,
    pub state: GameState,
}

pub open spec fn blocks_of(obstacles: Seq<Obstacle>) -> Seq<Seq<Block>> {
    obstacles.map_values(|o: Obstacle| o.blocks@)
}

impl View for Game {
    type V = GameModel;

    open spec fn view(&self) -> GameModel {
        GameModel {
            ctx: self.ctx,
            spaceship: self.spaceship,
            lasers: self.lasers@,
            blocks: blocks_of(self.obstacles@),
            aliens: self.aliens@,
            direction: self.aliens_direction as int,
            alien_lasers: self.alien_lasers@,
            alien_fired_at: self.time_alien_last_fired as int,
            mystery: self.mysteryship,
            mystery_interval: self.mysteryship_spawn_interval as int,
            mystery_spawned_at: self.time_last_spawned as int,
            lives: self.lives as int,
            level: self.level as int,
            score: self.score as int,
            high_score: self.high_score as int,
            state: self.state,
        }
    }
}

/// Every alien has a kind, and a game in play has a life left.
pub open spec fn model_wf(m: GameModel) -> bool {
    &&& forall|j: int| 0 <= j < m.aliens.len() ==> (#[trigger] m.aliens[j]).wf()
    &&& (m.state is Running || m.state is Paused || m.state is LevelUp) ==> m.lives > 0
}

/// The alien at place `k` of a fresh roster: 5 rows of 11, the top row of
/// kind 3, the next two of kind 2, the rest of kind 1.
pub open spec fn initial_alien(ctx: Context, k: int) -> Alien {
    let row = k / (ALIEN_COLUMNS as int);
    let col = k % (ALIEN_COLUMNS as int);
    let kind: usize = if row == 0 {
        3
    } else if row <= 2 {
        2
    } else {
        1
    };
    Alien {
        kind,
        position: Vector2 {
            x: (ALIEN_OFFSET_X + col * ALIEN_SIZE) as i32,
            y: (ALIEN_OFFSET_Y + row * ALIEN_SIZE) as i32,
        },
        size: ctx.spec_alien_size(kind as int),
        active: true,
    }
}

pub open spec fn initial_roster(ctx: Context) -> Seq<Alien> {
    Seq::new((ALIEN_ROWS * ALIEN_COLUMNS) as nat, |k: int| initial_alien(ctx, k))
}

/// The left edge of shield `i`: four shields spread evenly over the field.
pub open spec fn obstacle_x(i: int) -> int {
    (i + 1) * OBSTACLE_GAP + i * OBSTACLE_WIDTH
}

pub open spec fn initial_shields() -> Seq<Seq<Block>> {
    Seq::new(NUM_OBSTACLES as nat, |i: int| shield(obstacle_x(i), OBSTACLE_Y as int))
}

pub open spec fn interval_in_range(t: int) -> bool {
    MYSTERYSHIP_MIN_INTERVAL <= t < MYSTERYSHIP_MAX_INTERVAL
}

/// Draws the time until the next mystery ship, uniformly from its range.
pub(crate) fn draw_interval() -> (r: u64)
    ensures
        interval_in_range(r as int),
{
    let span = (MYSTERYSHIP_MAX_INTERVAL - MYSTERYSHIP_MIN_INTERVAL) as usize;
    MYSTERYSHIP_MIN_INTERVAL + random_below(span) as u64
}

proof fn lemma_roster_index(row: int, col: int)
    requires
        0 <= row,
        0 <= col < 11,
    ensures
        (row * 11 + col) / 11 == row,
        (row * 11 + col) % 11 == col,
{
    vstd::arithmetic::div_mod::lemma_fundamental_div_mod_converse(row * 11 + col, 11, row, col);
}

impl Game {
    pub open spec fn wf(&self) -> bool {
        model_wf(self@)
    }

    pub fn new(ctx: Context) -> (r: Game)
        ensures
            r.wf(),
            r@.ctx == ctx,
            r@.spaceship == Spaceship::spec_new(ctx),
            r@.lasers.len() == 0,
            r@.blocks == initial_shields(),
            r@.aliens == initial_roster(ctx),
            r@.direction == 1,
            r@.alien_lasers.len() == 0,
            r@.alien_fired_at == 0,
            r@.mystery == MysteryShip::spec_new(ctx),
            interval_in_range(r@.mystery_interval),
            r@.mystery_spawned_at == 0,
            r@.lives == PLAYER_LIVES,
            r@.level == 1,
            r@.score == 0,
            r@.high_score == 0,
            r@.state == GameState::Running,
    {
        let mut game = Game {
            ctx,
            spaceship: Spaceship::new(&ctx),
            lasers: Vec::new(),
            obstacles: Vec::new(),
            aliens: Vec::new(),
            aliens_direction: 1,
            alien_lasers: Vec::new(),
            time_alien_last_fired: 0,
            mysteryship: MysteryShip::new(&ctx),
            mysteryship_spawn_interval: draw_interval(),
            time_last_spawned: 0,
            lives: PLAYER_LIVES,
            level: 1,
            score: 0,
            high_score: 0,
            state: GameState::Running,
        };
        game.create_obstacles();
        game.create_aliens();
        proof {
            assert(game@.blocks =~= initial_shields());
            assert(game@.aliens =~= initial_roster(ctx));
        }
        game
    }

    /// Adds the four shields of a fresh level.
    pub fn create_obstacles(&mut self)
        ensures
            final(self)@ == (GameModel { blocks: old(self)@.blocks + initial_shields(), ..old(self)@ }),
    {
        let ghost start = self@;
        let mut i: usize = 0;
        while i < NUM_OBSTACLES
            invariant
                i <= NUM_OBSTACLES,
                self@ == (GameModel {
                    blocks: start.blocks + initial_shields().take(i as int),
                    ..start
                }),
            decreases NUM_OBSTACLES - i,
        {
            let x = (i + 1) * OBSTACLE_GAP + i * OBSTACLE_WIDTH;
            let obstacle = Obstacle::new(x, OBSTACLE_Y);
            let ghost before = self.obstacles@;
            let ghost added = obstacle.blocks@;
            self.obstacles.push(obstacle);
            proof {
                assert(blocks_of(self.obstacles@) =~= blocks_of(before).push(added));
                assert(initial_shields().take(i + 1) =~= initial_shields().take(i as int).push(
                    shield(x as int, OBSTACLE_Y as int),
                ));
                assert(blocks_of(self.obstacles@) =~= start.blocks + initial_shields().take(i + 1));
            }
            i += 1;
        }
        proof {
            assert(initial_shields().take(NUM_OBSTACLES as int) =~= initial_shields());
        }
    }

    /// Adds the 55 aliens of a fresh roster.
    pub fn create_aliens(&mut self)
        requires
            old(self).wf(),
        ensures
            final(self).wf(),
            final(self)@ == (GameModel { aliens: old(self)@.aliens + initial_roster(old(self).ctx), ..old(self)@ }),
    {
        let ghost start = self@;
        let mut row: usize = 0;
        while row < ALIEN_ROWS
            invariant
                row <= ALIEN_ROWS,
                model_wf(start),
                self.ctx == start.ctx,
                self@ == (GameModel {
                    aliens: start.aliens + initial_roster(start.ctx).take((row * ALIEN_COLUMNS) as int),
                    ..start
                }),
            decreases ALIEN_ROWS - row,
        {
            let kind: usize = if row == 0 {
                3
            } else if row <= 2 {
                2
            } else {
                1
            };
            let mut col: usize = 0;
            while col < ALIEN_COLUMNS
                invariant
                    row < ALIEN_ROWS,
                    col <= ALIEN_COLUMNS,
                    kind == (if row == 0 { 3usize } else if row <= 2 { 2usize } else { 1usize }),
                    model_wf(start),
                    self.ctx == start.ctx,
                    self@ == (GameModel {
                        aliens: start.aliens + initial_roster(start.ctx).take(
                            (row * ALIEN_COLUMNS + col) as int,
                        ),
                        ..start
                    }),
                decreases ALIEN_COLUMNS - col,
            {
                let x = (ALIEN_OFFSET_X + col * ALIEN_SIZE) as i32;
                let y = (ALIEN_OFFSET_Y + row * ALIEN_SIZE) as i32;
                let alien = Alien::new(kind, Vector2 { x, y }, &self.ctx);
                self.aliens.push(alien);
                proof {
                    let k = (row * ALIEN_COLUMNS + col) as int;
                    lemma_roster_index(row as int, col as int);
                    assert(alien == initial_alien(start.ctx, k));
                    assert(initial_roster(start.ctx).take(k + 1) =~= initial_roster(start.ctx).take(
                        k,
                    ).push(alien));
                    assert(self.aliens@ =~= start.aliens + initial_roster(start.ctx).take(k + 1));
                }
                col += 1;
            }
            row += 1;
        }
        proof {
            assert(initial_roster(start.ctx).take(55) =~= initial_roster(start.ctx));
            assert forall|j: int| 0 <= j < self@.aliens.len() implies (#[trigger] self@.aliens[j]).wf() by {
                if j >= start.aliens.len() {
                    let k = j - start.aliens.len();
                    assert(self@.aliens[j] == initial_alien(start.ctx, k));
                }
            }
        }
    }
}

/// `new` is `old` at the start of a level numbered `level`: the ship back at
/// the centre, a fresh roster and fresh shields, no alien lasers, the roster
/// marching right, the clocks of alien fire and of the mystery ship reset and
/// a new mystery interval drawn.
pub open spec fn level_started(old: GameModel, new: GameModel, level: int) -> bool {
    &&& new == (GameModel {
        spaceship: Spaceship { position: home_position(old.spaceship.size), ..old.spaceship },
        aliens: initial_roster(old.ctx),
        alien_lasers: Seq::empty(),
        blocks: initial_shields(),
        direction: 1,
        alien_fired_at: 0,
        mystery_spawned_at: 0,
        mystery_interval: new.mystery_interval,
        level,
        state: GameState::Running,
        ..old
    })
    &&& interval_in_range(new.mystery_interval)
}

/// The game as a new game begins from it: lives, score and level start over;
/// the high score stays.
pub open spec fn restarted(old: GameModel) -> GameModel {
    GameModel { lives: PLAYER_LIVES as int, score: 0, ..old }
}

/// The level after `level`.
pub open spec fn next_level(level: int) -> int {
    if level + 1 > usize::MAX {
        usize::MAX as int
    } else {
        level + 1
    }
}

/// The ship fires in this frame: fire is held, no move is, and the cooldown
/// has run out.
pub open spec fn fires(m: GameModel, input: Input, now: u64) -> bool {
    &&& !input.left
    &&& !input.right
    &&& input.fire
    &&& cooled_down(m.spaceship.last_fire_time as int, now as int)
}

/// The player steers the running game: left, else right, else fire.
pub open spec fn steered(m: GameModel, input: Input, now: u64) -> GameModel {
    if input.left {
        GameModel { spaceship: m.spaceship.moved_left(), ..m }
    } else if input.right {
        GameModel { spaceship: m.spaceship.moved_right(), ..m }
    } else if fires(m, input, now) {
        GameModel {
            lasers: m.lasers.push(m.spaceship.shot()),
            spaceship: Spaceship { last_fire_time: now, ..m.spaceship },
            ..m
        }
    } else {
        m
    }
}

impl Game {
    /// Writes nothing: gives the text that the high-score file is to hold.
    pub fn save_high_score(&self) -> (r: Vec<u8>)
        ensures
            r@ == high_score_file(self.high_score as nat),
    {
        high_score_text(self.high_score)
    }

    /// Takes the high score from the contents of the high-score file, if
    /// there is one; a missing file or one that holds no number gives 0.
    pub fn load_high_score(&mut self, contents: Option<&[u8]>)
        ensures
            final(self)@ == (GameModel {
                high_score: loaded_high_score(
                    match contents {
                        Some(c) => Some(c@),
                        None => None,
                    },
                ) as int,
                ..old(self)@
            }),
    {
        self.high_score = match contents {
            Some(text) => parse_high_score(text),
            None => 0,
        };
    }

    /// Rebuilds the level: ship at the centre, a fresh roster and fresh
    /// shields, no alien lasers.
    pub fn reset_game(&mut self)
        requires
            old(self).wf(),
        ensures
            final(self).wf(),
            final(self)@ == (GameModel {
                spaceship: Spaceship {
                    position: home_position(old(self).spaceship.size),
                    ..old(self).spaceship
                },
                aliens: initial_roster(old(self).ctx),
                alien_lasers: Seq::empty(),
                blocks: initial_shields(),
                ..old(self)@
            }),
    {
        self.spaceship.reset();
        self.aliens.clear();
        self.alien_lasers.clear();
        self.obstacles.clear();
        self.create_obstacles();
        self.create_aliens();
        proof {
            assert(self@.blocks =~= initial_shields());
            assert(self@.aliens =~= initial_roster(self.ctx));
        }
    }

    /// Starts the next level: the level number goes up, the roster marches
    /// right, the clocks restart and a new mystery interval is drawn.
    pub fn init_level(&mut self)
        requires
            old(self).wf(),
            old(self).lives > 0,
        ensures
            final(self).wf(),
            interval_in_range(final(self)@.mystery_interval),
            final(self)@ == (GameModel {
                level: next_level(old(self)@.level),
                direction: 1,
                mystery_interval: final(self)@.mystery_interval,
                mystery_spawned_at: 0,
                alien_fired_at: 0,
                state: GameState::Running,
                ..old(self)@
            }),
    {
        self.level = self.level.saturating_add(1);
        self.aliens_direction = 1;
        self.mysteryship_spawn_interval = draw_interval();
        self.time_last_spawned = 0;
        self.time_alien_last_fired = 0;
        self.state = GameState::Running;
    }

    /// Starts a new game: lives, score and level start over, the high score
    /// stays, and the first level begins.
    pub fn init_game(&mut self)
        requires
            old(self).wf(),
        ensures
            final(self).wf(),
            level_started(restarted(old(self)@), final(self)@, 1),
    {
        self.lives = PLAYER_LIVES;
        self.level = 0;
        self.score = 0;
        self.reset_game();
        self.init_level();
    }

    /// Input while the game is over: confirm starts a new game, cancel quits.
    pub fn handle_game_over_input(&mut self, input: Input) -> (cues: Cues)
        requires
            old(self).wf(),
        ensures
            final(self).wf(),
            input.confirm ==> level_started(restarted(old(self)@), final(self)@, 1) && cues == (Cues {
                start_music: true,
                ..no_cues()
            }),
            !input.confirm && input.cancel ==> final(self)@ == (GameModel {
                state: GameState::Quit,
                ..old(self)@
            }) && cues == no_cues(),
            !input.confirm && !input.cancel ==> final(self)@ == old(self)@ && cues == no_cues(),
    {
        let mut cues = Cues::none();
        if input.cancel {
            self.state = GameState::Quit;
        }
        if input.confirm {
            self.reset_game();
            self.init_game();
            cues.start_music = true;
        }
        cues
    }

    /// Input after a level is won: confirm starts the next level.
    pub fn handle_level_up_input(&mut self, input: Input) -> (cues: Cues)
        requires
            old(self).wf(),
            old(self).lives > 0,
        ensures
            final(self).wf(),
            input.confirm ==> level_started(old(self)@, final(self)@, next_level(old(self)@.level)),
            !input.confirm ==> final(self)@ == old(self)@,
            cues == no_cues(),
    {
        if input.confirm {
            self.reset_game();
            self.init_level();
        }
        Cues::none()
    }

    /// The player's input for one frame at time `now` (in milliseconds).
    /// Closing the window quits; a lost game and a won level wait for their
    /// keys; a running game moves the ship left, else right, else fires; the
    /// pause key switches between running and paused.
    pub fn handle_input(&mut self, input: Input, now: u64) -> (cues: Cues)
        requires
            old(self).wf(),
        ensures
            final(self).wf(),
            input.close ==> final(self)@ == (GameModel { state: GameState::Quit, ..old(self)@ })
                && cues == no_cues(),
            !input.close && old(self).state == GameState::GameOver ==> {
                &&& input.confirm ==> level_started(restarted(old(self)@), final(self)@, 1) && cues == (
                Cues { start_music: true, ..no_cues() })
                &&& !input.confirm && input.cancel ==> final(self)@ == (GameModel {
                    state: GameState::Quit,
                    ..old(self)@
                }) && cues == no_cues()
                &&& !input.confirm && !input.cancel ==> final(self)@ == old(self)@ && cues == no_cues()
            },
            !input.close && old(self).state == GameState::LevelUp ==> {
                &&& input.confirm ==> level_started(old(self)@, final(self)@, next_level(old(self)@.level))
                &&& !input.confirm ==> final(self)@ == old(self)@
                &&& cues == no_cues()
            },
            !input.close && old(self).state == GameState::Running ==> {
                &&& final(self)@ == (GameModel {
                    state: if input.pause {
                        GameState::Paused
                    } else {
                        GameState::Running
                    },
                    ..steered(old(self)@, input, now)
                })
                &&& cues == (Cues { laser_fired: fires(old(self)@, input, now), ..no_cues() })
            },
            !input.close && old(self).state == GameState::Paused ==> {
                &&& final(self)@ == (GameModel {
                    state: if input.pause {
                        GameState::Running
                    } else {
                        GameState::Paused
                    },
                    ..old(self)@
                })
                &&& cues == no_cues()
            },
            !input.close && old(self).state == GameState::Quit ==> final(self)@ == old(self)@ && cues
                == no_cues(),
    {
        let mut cues = Cues::none();
        if input.close {
            self.state = GameState::Quit;
        }
        if self.state == GameState::GameOver {
            return self.handle_game_over_input(input);
        }
        if self.state == GameState::LevelUp {
            return self.handle_level_up_input(input);
        }
        if self.state == GameState::Running {
            if input.left {
                self.spaceship.move_left();
            } else if input.right {
                self.spaceship.move_right();
            } else if input.fire {
                match self.spaceship.fire_laser(now) {
                    Some(laser) => {
                        self.lasers.push(laser);
                        cues.laser_fired = true;
                    },
                    None => {},
                }
            }
        }
        if input.pause {
            if self.state == GameState::Paused {
                self.state = GameState::Running;
            } else if self.state == GameState::Running {
                self.state = GameState::Paused;
            }
        }
        cues
    }
}

} // verus!
