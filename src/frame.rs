use vstd::prelude::*;
use crate::alien::Alien;
use crate::block::Block;
use crate::collision::{
    collided, fallen_value, player_volley, sat_add, ship_hits, some_fell, touches_ship,
};
use crate::constants::{
    ALIEN_DOWN_DISTANCE, ALIEN_LASER_INTERVAL, ALIEN_LASER_SPEED, MYSTERYSHIP_SCORE,
};
use crate::game::{
    draw_interval, interval_in_range, model_wf, no_cues, Cues, Game, GameModel, GameState,
};
use crate::geometry::{clamp_i32, Rect, Vector2};
use crate::laser::Laser;
use crate::prune::{retain_live, Live};
use crate::random::random_below;

verus! {

impl Live for Laser {
    open spec fn live(&self) -> bool {
        self.active
    }

    fn is_live(&self) -> (r: bool) {
        self.active
    }
}

/// The chance draws that a frame may use.
#[derive(Clone, Copy, Debug, PartialEq, Eq, Structural)]
pub struct Rolls {
    /// Picks the alien that fires, counted modulo the size of the roster.
    pub alien: usize,
    /// The side from which a new mystery ship comes.
    pub mystery_from_left: bool,
    /// The time until the mystery ship after a new one, in milliseconds.
    pub mystery_interval: u64,
}

/// The aliens of the roster that are still live, in order.
pub open spec fn live_aliens(aliens: Seq<Alien>) -> Seq<Alien> {
    aliens.filter(|a: Alien| a.live())
}

/// The start of a frame: player lasers move and the spent ones, the dead
/// blocks and the dead aliens are cleared away.
pub open spec fn pruned(m: GameModel) -> GameModel {
    GameModel {
        lasers: m.lasers.map_values(|l: Laser| l.advanced()).filter(|l: Laser| l.live()),
        blocks: m.blocks.map_values(|bs: Seq<Block>| bs.filter(|b: Block| b.live())),
        aliens: live_aliens(m.aliens),
        ..m
    }
}

pub open spec fn any_overflow_right(aliens: Seq<Alien>) -> bool {
    exists|j: int| 0 <= j < aliens.len() && #[trigger] aliens[j].overflows_right()
}

pub open spec fn any_overflow_left(aliens: Seq<Alien>) -> bool {
    exists|j: int| 0 <= j < aliens.len() && #[trigger] aliens[j].overflows_left()
}

/// The roster's direction after this frame: +1 when an alien has passed the
/// left limit, else -1 when one has passed the right limit, else unchanged.
pub open spec fn march_direction(aliens: Seq<Alien>, direction: int) -> int {
    if any_overflow_left(aliens) {
        1
    } else if any_overflow_right(aliens) {
        -1
    } else {
        direction
    }
}

/// The roster after one step of its march: every alien moves one pixel in the
/// new direction, and all step down together once when any passed a limit.
pub open spec fn marched_aliens(aliens: Seq<Alien>, direction: int) -> Seq<Alien> {
    let d = march_direction(aliens, direction);
    let down = any_overflow_left(aliens) || any_overflow_right(aliens);
    aliens.map_values(
        |a: Alien|
            if down {
                a.stepped(d).lowered(ALIEN_DOWN_DISTANCE as int)
            } else {
                a.stepped(d)
            },
    )
}

/// The interval between two alien shots has run out, and someone can fire.
pub open spec fn alien_fire_due(m: GameModel, now: int) -> bool {
    now - m.alien_fired_at >= ALIEN_LASER_INTERVAL && m.aliens.len() > 0
}

/// The laser fired by the alien that `pick` designates.
pub open spec fn alien_shot(aliens: Seq<Alien>, pick: int) -> Laser {
    Laser {
        position: aliens[pick % (aliens.len() as int)].laser_position(),
        speed: ALIEN_LASER_SPEED,
        active: true,
    }
}

pub open spec fn alien_fired(m: GameModel, now: int, pick: int) -> GameModel {
    if alien_fire_due(m, now) {
        GameModel {
            alien_lasers: m.alien_lasers.push(alien_shot(m.aliens, pick)),
            alien_fired_at: now,
            ..m
        }
    } else {
        m
    }
}

/// The mystery ship's interval has run out.
pub open spec fn spawn_due(m: GameModel, now: int) -> bool {
    now - m.mystery_spawned_at > m.mystery_interval
}

pub open spec fn mystery_spawned(m: GameModel, now: int, rolls: Rolls) -> GameModel {
    if spawn_due(m, now) {
        GameModel {
            mystery: m.mystery.spawned(rolls.mystery_from_left),
            mystery_spawned_at: now,
            mystery_interval: rolls.mystery_interval as int,
            ..m
        }
    } else {
        m
    }
}

/// One frame of play at time `now`, with the given draws: the new game and
/// what it asks of the sound system and of the high-score file.
pub open spec fn frame(m: GameModel, now: int, rolls: Rolls) -> (GameModel, Cues) {
    if m.state != GameState::Running {
        (m, no_cues())
    } else {
        let p = pruned(m);
        if p.aliens.len() == 0 {
            (GameModel { state: GameState::LevelUp, ..p }, no_cues())
        } else {
            let q = GameModel {
                aliens: marched_aliens(p.aliens, p.direction),
                direction: march_direction(p.aliens, p.direction),
                ..p
            };
            let f = alien_fired(q, now, rolls.alien as int);
            let g = GameModel {
                alien_lasers: f.alien_lasers.map_values(|l: Laser| l.advanced()).filter(
                    |l: Laser| l.live(),
                ),
                ..f
            };
            let s = mystery_spawned(g, now, rolls);
            let t = GameModel { mystery: s.mystery.advanced(), ..s };
            let c = collided(t);
            let done = touches_ship(c.aliens, c.spaceship.spec_rect());
            let n = GameModel {
                high_score: if c.score > c.high_score {
                    c.score
                } else {
                    c.high_score
                },
                state: if done {
                    GameState::GameOver
                } else {
                    c.state
                },
                ..c
            };
            let cues = Cues {
                laser_fired: false,
                alien_destroyed: some_fell(t.aliens, c.aliens),
                mystery_destroyed: t.mystery.active && !c.mystery.active,
                ship_destroyed: c.lives < t.lives,
                mystery_flying: s.mystery.active,
                start_music: false,
                save_high_score: c.state == GameState::GameOver || c.score > c.high_score || done,
            };
            (n, cues)
        }
    }
}

/// Moves every laser one frame.
fn advance_lasers(lasers: &mut Vec<Laser>)
    ensures
        final(lasers)@ == old(lasers)@.map_values(|l: Laser| l.advanced()),
{
    let ghost start = lasers@;
    let mut i: usize = 0;
    while i < lasers.len()
        invariant
            i <= lasers@.len(),
            lasers@.len() == start.len(),
            forall|k: int| 0 <= k < i ==> lasers@[k] == #[trigger] start[k].advanced(),
            forall|k: int| i <= k < start.len() ==> lasers@[k] == start[k],
        decreases start.len() - i,
    {
        lasers[i].update();
        i += 1;
    }
    proof {
        assert(lasers@ =~= start.map_values(|l: Laser| l.advanced()));
    }
}

impl Game {
    /// Clears the dead blocks out of every shield.
    fn prune_obstacles(&mut self)
        ensures
            final(self)@ == (GameModel {
                blocks: old(self)@.blocks.map_values(|bs: Seq<Block>| bs.filter(|b: Block| b.live())),
                ..old(self)@
            }),
    {
        let ghost start = self@;
        let mut o: usize = 0;
        while o < self.obstacles.len()
            invariant
                o <= self.obstacles@.len(),
                self.obstacles@.len() == start.blocks.len(),
                forall|p: int|
                    0 <= p < o ==> #[trigger] self.obstacles@[p].blocks@ == start.blocks[p].filter(
                        |b: Block| b.live(),
                    ),
                forall|p: int| o <= p < start.blocks.len() ==> #[trigger] self.obstacles@[p].blocks@ == start.blocks[p],
                self@ == (GameModel { blocks: self@.blocks, ..start }),
            decreases start.blocks.len() - o,
        {
            self.obstacles[o].remove_inactive_blocks();
            o += 1;
        }
        proof {
            assert(self@.blocks =~= start.blocks.map_values(|bs: Seq<Block>| bs.filter(|b: Block| b.live())));
        }
    }

    /// Moves every alien down by `distance`.
    pub fn move_down_aliens(&mut self, distance: usize)
        ensures
            final(self)@ == (GameModel {
                aliens: old(self)@.aliens.map_values(|a: Alien| a.lowered(distance as int)),
                ..old(self)@
            }),
    {
        let ghost start = self@;
        let mut j: usize = 0;
        while j < self.aliens.len()
            invariant
                j <= self.aliens@.len(),
                self.aliens@.len() == start.aliens.len(),
                forall|k: int| 0 <= k < j ==> self.aliens@[k] == #[trigger] start.aliens[k].lowered(distance as int),
                forall|k: int| j <= k < start.aliens.len() ==> self.aliens@[k] == start.aliens[k],
                self@ == (GameModel { aliens: self@.aliens, ..start }),
            decreases start.aliens.len() - j,
        {
            self.aliens[j].move_down(distance);
            j += 1;
        }
        proof {
            assert(self@.aliens =~= start.aliens.map_values(|a: Alien| a.lowered(distance as int)));
        }
    }

    /// One step of the roster's march (see `marched_aliens`).
    pub fn move_aliens(&mut self)
        ensures
            final(self)@ == (GameModel {
                aliens: marched_aliens(old(self)@.aliens, old(self)@.direction),
                direction: march_direction(old(self)@.aliens, old(self)@.direction),
                ..old(self)@
            }),
    {
        let ghost start = self@;
        let mut right = false;
        let mut left = false;
        let mut j: usize = 0;
        while j < self.aliens.len()
            invariant
                j <= self.aliens@.len(),
                self@ == start,
                right == exists|k: int| 0 <= k < j && #[trigger] start.aliens[k].overflows_right(),
                left == exists|k: int| 0 <= k < j && #[trigger] start.aliens[k].overflows_left(),
            decreases start.aliens.len() - j,
        {
            if self.aliens[j].has_overflowed_right() {
                right = true;
            }
            if self.aliens[j].has_overflowed_left() {
                left = true;
            }
            j += 1;
        }
        if right {
            self.aliens_direction = -1;
        }
        if left {
            self.aliens_direction = 1;
        }
        let direction = self.aliens_direction;
        let ghost middle = self@;
        j = 0;
        while j < self.aliens.len()
            invariant
                j <= self.aliens@.len(),
                self.aliens@.len() == start.aliens.len(),
                self.aliens_direction == direction,
                forall|k: int| 0 <= k < j ==> self.aliens@[k] == #[trigger] start.aliens[k].stepped(direction as int),
                forall|k: int| j <= k < start.aliens.len() ==> self.aliens@[k] == start.aliens[k],
                self@ == (GameModel { aliens: self@.aliens, ..middle }),
            decreases start.aliens.len() - j,
        {
            self.aliens[j].update(direction);
            j += 1;
        }
        if left || right {
            self.move_down_aliens(ALIEN_DOWN_DISTANCE);
        }
        proof {
            assert(self@.aliens =~= marched_aliens(start.aliens, start.direction));
        }
    }

    /// Fires a laser from the alien that `pick` designates (modulo the size of
    /// the roster) when the interval between alien shots has run out at `now`.
    pub fn aliens_shoot_laser(&mut self, now: u64, pick: usize)
        ensures
            final(self)@ == alien_fired(old(self)@, now as int, pick as int),
    {
        if now >= self.time_alien_last_fired && now - self.time_alien_last_fired >= ALIEN_LASER_INTERVAL
            && self.aliens.len() > 0 {
            let index = pick % self.aliens.len();
            let position = self.aliens[index].get_laser_position();
            self.alien_lasers.push(Laser::new(position, ALIEN_LASER_SPEED));
            self.time_alien_last_fired = now;
        }
    }

    /// Raises the high score to the score when the score beats it. Returns
    /// whether it did, that is whether the high score is to be saved.
    pub fn check_for_highscore(&mut self) -> (raised: bool)
        ensures
            raised == (old(self).score > old(self).high_score),
            final(self)@ == (GameModel {
                high_score: if raised {
                    old(self)@.score
                } else {
                    old(self)@.high_score
                },
                ..old(self)@
            }),
    {
        if self.score > self.high_score {
            self.high_score = self.score;
            true
        } else {
            false
        }
    }
}

proof fn lemma_pruned_aliens(aliens: Seq<Alien>)
    requires
        forall|j: int| 0 <= j < aliens.len() ==> (#[trigger] aliens[j]).wf(),
    ensures
        forall|i: int|
            0 <= i < live_aliens(aliens).len() ==> (#[trigger] live_aliens(aliens)[i]).wf()
                && live_aliens(aliens)[i].active,
{
    let f = live_aliens(aliens);
    assert forall|i: int| 0 <= i < f.len() implies (#[trigger] f[i]).wf() && f[i].active by {
        aliens.lemma_filter_pred(|a: Alien| a.live(), i);
        assert(f.contains(f[i]));
        aliens.lemma_filter_contains_rev(|a: Alien| a.live(), f[i]);
    }
}

proof fn lemma_fallen_value_bounds(aliens: Seq<Alien>)
    ensures
        fallen_value(aliens) >= 0,
        (forall|j: int| 0 <= j < aliens.len() ==> (#[trigger] aliens[j]).active) ==> fallen_value(aliens)
            == 0,
    decreases aliens.len(),
{
    if aliens.len() > 0 {
        lemma_fallen_value_bounds(aliens.drop_last());
        if forall|j: int| 0 <= j < aliens.len() ==> (#[trigger] aliens[j]).active {
            assert(aliens.last().active);
            assert forall|j: int| 0 <= j < aliens.drop_last().len() implies (
            #[trigger] aliens.drop_last()[j]).active by {
                assert(aliens.drop_last()[j] == aliens[j]);
            }
        }
    }
}

impl Game {
    /// One frame of play at time `now` (in milliseconds), with the chance draws
    /// given: does nothing unless the game runs; see `frame`.
    pub fn update_with(&mut self, now: u64, rolls: Rolls) -> (cues: Cues)
        requires
            old(self).wf(),
        ensures
            final(self).wf(),
            (final(self)@, cues) == frame(old(self)@, now as int, rolls),
    {
        let ghost m = self@;
        if self.state != GameState::Running {
            return Cues::none();
        }
        self.spaceship.update();
        advance_lasers(&mut self.lasers);
        let lasers = retain_live(&self.lasers);
        self.lasers = lasers;
        self.prune_obstacles();
        let aliens = retain_live(&self.aliens);
        self.aliens = aliens;
        proof {
            lemma_pruned_aliens(m.aliens);
            assert(self@ == pruned(m));
        }
        if self.aliens.len() == 0 {
            self.state = GameState::LevelUp;
            return Cues::none();
        }
        self.move_aliens();
        self.aliens_shoot_laser(now, rolls.alien);
        advance_lasers(&mut self.alien_lasers);
        let alien_lasers = retain_live(&self.alien_lasers);
        self.alien_lasers = alien_lasers;
        let mut cues = Cues::none();
        if now >= self.time_last_spawned && now - self.time_last_spawned > self.mysteryship_spawn_interval {
            self.mysteryship.spawn_from(rolls.mystery_from_left);
            self.time_last_spawned = now;
            self.mysteryship_spawn_interval = rolls.mystery_interval;
        }
        if self.mysteryship.active {
            cues.mystery_flying = true;
            self.mysteryship.update();
        }
        proof {
            let p = pruned(m);
            assert forall|j: int| 0 <= j < self@.aliens.len() implies (#[trigger] self@.aliens[j]).wf() by {
                assert(self@.aliens[j].kind == p.aliens[j].kind);
            }
        }
        let done = self.check_for_collisions(&mut cues);
        let raised = self.check_for_highscore();
        if raised {
            cues.save_high_score = true;
        }
        if done {
            self.game_over();
            cues.save_high_score = true;
        }
        cues
    }

    /// One frame of play at time `now` (in milliseconds): draws which alien
    /// fires, from which side a new mystery ship comes and the interval to
    /// the next one, and plays the frame with them.
    pub fn update(&mut self, now: u64) -> (cues: Cues)
        requires
            old(self).wf(),
        ensures
            final(self).wf(),
            exists|rolls: Rolls|
                #[trigger] frame(old(self)@, now as int, rolls) == (final(self)@, cues)
                    && interval_in_range(rolls.mystery_interval as int) && (pruned(old(self)@).aliens.len()
                    > 0 ==> rolls.alien < pruned(old(self)@).aliens.len()),
    {
        let ghost m = self@;
        let live = retain_live(&self.aliens).len();
        let alien = if live > 0 {
            random_below(live)
        } else {
            0
        };
        let mystery_from_left = random_below(2) == 0;
        let mystery_interval = draw_interval();
        let rolls = Rolls { alien, mystery_from_left, mystery_interval };
        let cues = self.update_with(now, rolls);
        proof {
            assert(frame(m, now as int, rolls) == (self@, cues));
        }
        cues
    }
}

proof fn lemma_ship_hits_nonnegative(shots: Seq<Laser>, ship: Rect, n: int)
    ensures
        ship_hits(shots, ship, n) >= 0,
    decreases n,
{
    if n > 0 {
        lemma_ship_hits_nonnegative(shots, ship, n - 1);
    }
}

/// While the game runs, a frame never adds a life, and it ends the game
/// exactly when the last life goes or when a live alien touches the ship.
pub proof fn lemma_lives_and_game_over(m: GameModel, now: int, rolls: Rolls)
    requires
        model_wf(m),
        m.state == GameState::Running,
    ensures
        frame(m, now, rolls).0.lives <= m.lives,
        frame(m, now, rolls).0.state == GameState::GameOver <==> (frame(m, now, rolls).0.lives == 0
            || touches_ship(frame(m, now, rolls).0.aliens, frame(m, now, rolls).0.spaceship.spec_rect())),
{
    let p = pruned(m);
    if p.aliens.len() > 0 {
        let q = GameModel {
            aliens: marched_aliens(p.aliens, p.direction),
            direction: march_direction(p.aliens, p.direction),
            ..p
        };
        let f = alien_fired(q, now, rolls.alien as int);
        let g = GameModel {
            alien_lasers: f.alien_lasers.map_values(|l: Laser| l.advanced()).filter(|l: Laser| l.live()),
            ..f
        };
        let s = mystery_spawned(g, now, rolls);
        let t = GameModel { mystery: s.mystery.advanced(), ..s };
        let v = player_volley(t);
        lemma_ship_hits_nonnegative(v.alien_lasers, v.spaceship.spec_rect(), v.alien_lasers.len() as int);
    }
}

/// The score never falls, and in a frame of play it grows by exactly what the
/// aliens destroyed in that frame are worth (they are the ones of the roster
/// that are out), plus the bonus when the mystery ship is destroyed.
pub proof fn lemma_score_gain(m: GameModel, now: int, rolls: Rolls)
    requires
        model_wf(m),
        0 <= m.score <= usize::MAX,
    ensures
        frame(m, now, rolls).0.score >= m.score,
        m.state == GameState::Running ==> frame(m, now, rolls).0.score == sat_add(
            m.score,
            fallen_value(frame(m, now, rolls).0.aliens) + if frame(m, now, rolls).1.mystery_destroyed {
                MYSTERYSHIP_SCORE as int
            } else {
                0
            },
        ),
        m.state == GameState::Running && m.score + fallen_value(frame(m, now, rolls).0.aliens) + (
        if frame(m, now, rolls).1.mystery_destroyed {
            MYSTERYSHIP_SCORE as int
        } else {
            0
        }) <= usize::MAX ==> frame(m, now, rolls).0.score == m.score + fallen_value(
            frame(m, now, rolls).0.aliens,
        ) + if frame(m, now, rolls).1.mystery_destroyed {
            MYSTERYSHIP_SCORE as int
        } else {
            0
        },
{
    if m.state == GameState::Running {
        let p = pruned(m);
        lemma_pruned_aliens(m.aliens);
        lemma_fallen_value_bounds(p.aliens);
        if p.aliens.len() > 0 {
            let q = marched_aliens(p.aliens, p.direction);
            lemma_fallen_value_bounds(q);
            lemma_fallen_value_bounds(frame(m, now, rolls).0.aliens);
        }
    }
}

/// The roster turns together: to -1 in a frame where an alien passes the right
/// limit (and none the left), to +1 in one where an alien passes the left
/// limit; and in such a frame it steps down by 4 once, however many passed.
pub proof fn lemma_march(aliens: Seq<Alien>, direction: int)
    ensures
        any_overflow_right(aliens) && !any_overflow_left(aliens) ==> march_direction(aliens, direction)
            == -1,
        any_overflow_left(aliens) ==> march_direction(aliens, direction) == 1,
        !any_overflow_left(aliens) && !any_overflow_right(aliens) ==> march_direction(aliens, direction)
            == direction,
        forall|j: int|
            0 <= j < aliens.len() ==> (#[trigger] marched_aliens(aliens, direction)[j]).position == (Vector2 {
                x: clamp_i32(aliens[j].position.x + march_direction(aliens, direction)),
                y: clamp_i32(
                    aliens[j].position.y + if any_overflow_left(aliens) || any_overflow_right(aliens) {
                        ALIEN_DOWN_DISTANCE as int
                    } else {
                        0
                    },
                ),
            }),
        forall|j: int|
            0 <= j < aliens.len() && aliens[j].position.y + ALIEN_DOWN_DISTANCE <= i32::MAX ==> (
            #[trigger] marched_aliens(aliens, direction)[j]).position.y == aliens[j].position.y + if any_overflow_left(aliens)
                || any_overflow_right(aliens) {
                ALIEN_DOWN_DISTANCE as int
            } else {
                0
            },
{
}

} // verus!
