use vstd::prelude::*;
use crate::alien::{alien_points, Alien};
use crate::block::Block;
use crate::constants::MYSTERYSHIP_SCORE;
use crate::game::{blocks_of, model_wf, Cues, Game, GameModel, GameState};
use crate::geometry::Rect;
use crate::laser::Laser;
use crate::mysteryship::MysteryShip;
use crate::obstacle::Obstacle;

verus! {

/// The laser is live and lands on the target rectangle.
pub open spec fn lands_on(shot: Laser, target: Rect) -> bool {
    shot.active && target.spec_overlaps(shot.spec_rect())
}

/// One of the first `n` lasers lands on the target rectangle.
pub open spec fn shot_before(target: Rect, shots: Seq<Laser>, n: int) -> bool {
    exists|k: int| 0 <= k < n && k < shots.len() && #[trigger] lands_on(shots[k], target)
}

/// What the first `n` lasers of a volley leave of an alien.
pub open spec fn volley_alien(a: Alien, shots: Seq<Laser>, n: int) -> Alien {
    if a.active && shot_before(a.spec_rect(), shots, n) {
        a.deactivated()
    } else {
        a
    }
}

pub open spec fn volley_block(b: Block, shots: Seq<Laser>, n: int) -> Block {
    if b.active && shot_before(b.spec_rect(), shots, n) {
        b.deactivated()
    } else {
        b
    }
}

pub open spec fn volley_mystery(m: MysteryShip, shots: Seq<Laser>, n: int) -> MysteryShip {
    if m.active && shot_before(m.spec_rect(), shots, n) {
        m.deactivated()
    } else {
        m
    }
}

pub open spec fn volley_aliens(aliens: Seq<Alien>, shots: Seq<Laser>, n: int) -> Seq<Alien> {
    aliens.map_values(|a: Alien| volley_alien(a, shots, n))
}

pub open spec fn volley_blocks(blocks: Seq<Seq<Block>>, shots: Seq<Laser>, n: int) -> Seq<Seq<Block>> {
    blocks.map_values(|bs: Seq<Block>| bs.map_values(|b: Block| volley_block(b, shots, n)))
}

/// Some live alien is touched by the shot.
pub open spec fn aliens_hit(aliens: Seq<Alien>, shot: Rect) -> bool {
    exists|j: int| 0 <= j < aliens.len() && #[trigger] aliens[j].hit_by(shot)
}

/// Some live block of some shield is touched by the shot.
pub open spec fn blocks_hit(blocks: Seq<Seq<Block>>, shot: Rect) -> bool {
    exists|o: int, b: int|
        0 <= o < blocks.len() && 0 <= b < blocks[o].len() && #[trigger] blocks[o][b].hit_by(shot)
}

pub open spec fn strike_all(blocks: Seq<Seq<Block>>, shot: Rect) -> Seq<Seq<Block>> {
    blocks.map_values(|bs: Seq<Block>| bs.map_values(|b: Block| b.struck(shot)))
}

/// What an alien is worth once it is out; nothing while it is live.
pub open spec fn fallen(a: Alien) -> int {
    if a.active {
        0
    } else {
        alien_points(a.kind as int)
    }
}

/// What the aliens that are out are worth together.
pub open spec fn fallen_value(aliens: Seq<Alien>) -> int
    decreases aliens.len(),
{
    if aliens.len() == 0 {
        0
    } else {
        fallen_value(aliens.drop_last()) + fallen(aliens.last())
    }
}

/// `a + b`, saturating at the largest score.
pub open spec fn sat_add(a: int, b: int) -> int {
    if a + b > usize::MAX {
        usize::MAX as int
    } else {
        a + b
    }
}

/// Some alien that was live before is out after.
pub open spec fn some_fell(before: Seq<Alien>, after: Seq<Alien>) -> bool {
    exists|j: int| 0 <= j < before.len() && #[trigger] before[j].active && !after[j].active
}

/// Player laser `k` is spent: in its turn it touched an alien, a block or the
/// mystery ship that the lasers before it had left alive.
pub open spec fn player_laser_spent(m: GameModel, k: int) -> bool {
    let shot = m.lasers[k].spec_rect();
    ||| aliens_hit(volley_aliens(m.aliens, m.lasers, k), shot)
    ||| blocks_hit(volley_blocks(m.blocks, m.lasers, k), shot)
    ||| volley_mystery(m.mystery, m.lasers, k).hit_by(shot)
}

/// The game after the first `n` player lasers have been checked, each against
/// every alien, every block and the mystery ship, in order.
pub open spec fn player_volley_upto(m: GameModel, n: int) -> GameModel {
    let aliens = volley_aliens(m.aliens, m.lasers, n);
    let mystery = volley_mystery(m.mystery, m.lasers, n);
    let bonus = if m.mystery.active && !mystery.active {
        MYSTERYSHIP_SCORE as int
    } else {
        0
    };
    GameModel {
        lasers: Seq::new(
            m.lasers.len(),
            |k: int|
                if k < n && m.lasers[k].active && player_laser_spent(m, k) {
                    m.lasers[k].deactivated()
                } else {
                    m.lasers[k]
                },
        ),
        aliens,
        blocks: volley_blocks(m.blocks, m.lasers, n),
        mystery,
        score: sat_add(m.score, fallen_value(aliens) - fallen_value(m.aliens) + bonus),
        ..m
    }
}

pub open spec fn player_volley(m: GameModel) -> GameModel {
    player_volley_upto(m, m.lasers.len() as int)
}

/// How many of the first `n` lasers land on the ship.
pub open spec fn ship_hits(shots: Seq<Laser>, ship: Rect, n: int) -> int
    decreases n,
{
    if n <= 0 {
        0
    } else {
        ship_hits(shots, ship, n - 1) + if lands_on(shots[n - 1], ship) {
            1int
        } else {
            0
        }
    }
}

/// Alien laser `k` is spent: it touched the ship, or a block that the lasers
/// before it had left alive.
pub open spec fn alien_laser_spent(m: GameModel, k: int) -> bool {
    let shot = m.alien_lasers[k].spec_rect();
    ||| m.spaceship.spec_rect().spec_overlaps(shot)
    ||| blocks_hit(volley_blocks(m.blocks, m.alien_lasers, k), shot)
}

/// The game after the first `n` alien lasers have been checked against the
/// ship and every block: each hit on the ship costs a life, and the game is
/// over once a hit leaves no life.
pub open spec fn alien_volley_upto(m: GameModel, n: int) -> GameModel {
    let hits = ship_hits(m.alien_lasers, m.spaceship.spec_rect(), n);
    let lives = if m.lives - hits < 0 {
        0
    } else {
        m.lives - hits
    };
    GameModel {
        alien_lasers: Seq::new(
            m.alien_lasers.len(),
            |k: int|
                if k < n && m.alien_lasers[k].active && alien_laser_spent(m, k) {
                    m.alien_lasers[k].deactivated()
                } else {
                    m.alien_lasers[k]
                },
        ),
        blocks: volley_blocks(m.blocks, m.alien_lasers, n),
        lives,
        state: if hits > 0 && lives == 0 {
            GameState::GameOver
        } else {
            m.state
        },
        ..m
    }
}

pub open spec fn alien_volley(m: GameModel) -> GameModel {
    alien_volley_upto(m, m.alien_lasers.len() as int)
}

/// One of the first `n` aliens is live and touches the rectangle.
pub open spec fn trodden(target: Rect, aliens: Seq<Alien>, n: int) -> bool {
    exists|j: int| 0 <= j < n && j < aliens.len() && #[trigger] aliens[j].hit_by(target)
}

pub open spec fn contact_blocks(blocks: Seq<Seq<Block>>, aliens: Seq<Alien>, n: int) -> Seq<Seq<Block>> {
    blocks.map_values(
        |bs: Seq<Block>|
            bs.map_values(
                |b: Block|
                    if b.active && trodden(b.spec_rect(), aliens, n) {
                        b.deactivated()
                    } else {
                        b
                    },
            ),
    )
}

/// Some live alien touches the ship.
pub open spec fn touches_ship(aliens: Seq<Alien>, ship: Rect) -> bool {
    trodden(ship, aliens, aliens.len() as int)
}

/// The game after the live aliens have crushed the blocks they touch.
pub open spec fn alien_contact(m: GameModel) -> GameModel {
    GameModel { blocks: contact_blocks(m.blocks, m.aliens, m.aliens.len() as int), ..m }
}

/// All three checks of a frame, in order.
pub open spec fn collided(m: GameModel) -> GameModel {
    alien_contact(alien_volley(player_volley(m)))
}

proof fn lemma_shot_before_step(target: Rect, shots: Seq<Laser>, i: int)
    requires
        0 <= i < shots.len(),
    ensures
        shot_before(target, shots, i + 1) == (shot_before(target, shots, i) || lands_on(
            shots[i],
            target,
        )),
{
    if shot_before(target, shots, i + 1) && !lands_on(shots[i], target) {
        let k = choose|k: int| 0 <= k < i + 1 && k < shots.len() && #[trigger] lands_on(shots[k], target);
        assert(k < i);
    }
    if lands_on(shots[i], target) {
        assert(0 <= i < i + 1 && i < shots.len() && lands_on(shots[i], target));
    }
}

proof fn lemma_trodden_step(target: Rect, aliens: Seq<Alien>, j: int)
    requires
        0 <= j < aliens.len(),
    ensures
        trodden(target, aliens, j + 1) == (trodden(target, aliens, j) || aliens[j].hit_by(target)),
{
    if trodden(target, aliens, j + 1) && !aliens[j].hit_by(target) {
        let k = choose|k: int| 0 <= k < j + 1 && k < aliens.len() && #[trigger] aliens[k].hit_by(target);
        assert(k < j);
    }
    if aliens[j].hit_by(target) {
        assert(0 <= j < j + 1 && j < aliens.len() && aliens[j].hit_by(target));
    }
}

proof fn lemma_fallen_value_update(s: Seq<Alien>, i: int, a: Alien)
    requires
        0 <= i < s.len(),
    ensures
        fallen_value(s.update(i, a)) == fallen_value(s) - fallen(s[i]) + fallen(a),
    decreases s.len(),
{
    let t = s.update(i, a);
    if i == s.len() - 1 {
        assert(t.drop_last() =~= s.drop_last());
    } else {
        lemma_fallen_value_update(s.drop_last(), i, a);
        assert(t.drop_last() =~= s.drop_last().update(i, a));
    }
}

/// Every live alien that the shot touches goes out, and what it is worth is
/// added to the score. Returns whether the shot touched any.
fn strike_aliens(aliens: &mut Vec<Alien>, shot: Rect, score: &mut usize) -> (hit: bool)
    requires
        forall|j: int| 0 <= j < old(aliens)@.len() ==> (#[trigger] old(aliens)@[j]).wf(),
    ensures
        final(aliens)@ == old(aliens)@.map_values(|a: Alien| a.struck(shot)),
        *final(score) == sat_add(
            *old(score) as int,
            fallen_value(final(aliens)@) - fallen_value(old(aliens)@),
        ),
        fallen_value(final(aliens)@) >= fallen_value(old(aliens)@),
        hit == aliens_hit(old(aliens)@, shot),
{
    let ghost start = aliens@;
    let ghost score0 = *score as int;
    let mut hit = false;
    let mut j: usize = 0;
    while j < aliens.len()
        invariant
            j <= aliens@.len(),
            aliens@.len() == start.len(),
            forall|i: int| 0 <= i < start.len() ==> (#[trigger] start[i]).wf(),
            forall|i: int| 0 <= i < j ==> aliens@[i] == #[trigger] start[i].struck(shot),
            forall|i: int| j <= i < start.len() ==> aliens@[i] == start[i],
            *score == sat_add(score0, fallen_value(aliens@) - fallen_value(start)),
            fallen_value(aliens@) >= fallen_value(start),
            hit == exists|i: int| 0 <= i < j && #[trigger] start[i].hit_by(shot),
        decreases start.len() - j,
    {
        let touched = aliens[j].active && aliens[j].get_rect().overlaps(shot);
        assert(touched == start[j as int].hit_by(shot));
        if touched {
            let points = aliens[j].get_score();
            let ghost before = aliens@;
            aliens[j].set_inactive();
            proof {
                assert(aliens@ == before.update(j as int, before[j as int].deactivated()));
                lemma_fallen_value_update(before, j as int, before[j as int].deactivated());
            }
            *score = score.saturating_add(points);
            hit = true;
        }
        j += 1;
    }
    proof {
        assert(aliens@ =~= start.map_values(|a: Alien| a.struck(shot)));
    }
    hit
}

/// Every live block that the shot touches goes out. Returns whether it touched any.
fn strike_obstacles(obstacles: &mut Vec<Obstacle>, shot: Rect) -> (hit: bool)
    ensures
        final(obstacles)@.len() == old(obstacles)@.len(),
        blocks_of(final(obstacles)@) == strike_all(blocks_of(old(obstacles)@), shot),
        hit == blocks_hit(blocks_of(old(obstacles)@), shot),
{
    let ghost start = blocks_of(obstacles@);
    let mut hit = false;
    let mut o: usize = 0;
    while o < obstacles.len()
        invariant
            o <= obstacles@.len(),
            obstacles@.len() == start.len(),
            forall|p: int|
                0 <= p < o ==> #[trigger] obstacles@[p].blocks@ == start[p].map_values(
                    |b: Block| b.struck(shot),
                ),
            forall|p: int| o <= p < start.len() ==> #[trigger] obstacles@[p].blocks@ == start[p],
            hit == exists|p: int, b: int|
                0 <= p < o && 0 <= b < start[p].len() && #[trigger] start[p][b].hit_by(shot),
        decreases start.len() - o,
    {
        assert(obstacles@[o as int].blocks@ == start[o as int]);
        let h = obstacles[o].strike(shot);
        proof {
            if h {
                let b = choose|b: int|
                    0 <= b < start[o as int].len() && #[trigger] start[o as int][b].hit_by(shot);
                assert(0 <= o < o + 1 && 0 <= b < start[o as int].len() && start[o as int][b].hit_by(
                    shot,
                ));
            }
        }
        hit = hit || h;
        o += 1;
    }
    proof {
        assert(blocks_of(obstacles@) =~= strike_all(start, shot));
    }
    hit
}

proof fn lemma_volley_aliens_step(aliens: Seq<Alien>, shots: Seq<Laser>, i: int)
    requires
        0 <= i < shots.len(),
    ensures
        shots[i].active ==> volley_aliens(aliens, shots, i + 1) == volley_aliens(aliens, shots, i).map_values(
            |a: Alien| a.struck(shots[i].spec_rect()),
        ),
        !shots[i].active ==> volley_aliens(aliens, shots, i + 1) == volley_aliens(aliens, shots, i),
{
    let shot = shots[i].spec_rect();
    assert forall|j: int| 0 <= j < aliens.len() implies #[trigger] volley_alien(aliens[j], shots, i + 1)
        == if shots[i].active {
        volley_alien(aliens[j], shots, i).struck(shot)
    } else {
        volley_alien(aliens[j], shots, i)
    } by {
        lemma_shot_before_step(aliens[j].spec_rect(), shots, i);
    }
    if shots[i].active {
        assert(volley_aliens(aliens, shots, i + 1) =~= volley_aliens(aliens, shots, i).map_values(
            |a: Alien| a.struck(shot),
        ));
    } else {
        assert(volley_aliens(aliens, shots, i + 1) =~= volley_aliens(aliens, shots, i));
    }
}

proof fn lemma_volley_blocks_step(blocks: Seq<Seq<Block>>, shots: Seq<Laser>, i: int)
    requires
        0 <= i < shots.len(),
    ensures
        shots[i].active ==> volley_blocks(blocks, shots, i + 1) == strike_all(
            volley_blocks(blocks, shots, i),
            shots[i].spec_rect(),
        ),
        !shots[i].active ==> volley_blocks(blocks, shots, i + 1) == volley_blocks(blocks, shots, i),
{
    let shot = shots[i].spec_rect();
    let next = volley_blocks(blocks, shots, i + 1);
    let cur = volley_blocks(blocks, shots, i);
    assert forall|o: int| 0 <= o < blocks.len() implies #[trigger] next[o] == if shots[i].active {
        strike_all(cur, shot)[o]
    } else {
        cur[o]
    } by {
        assert forall|b: int| 0 <= b < blocks[o].len() implies #[trigger] volley_block(
            blocks[o][b],
            shots,
            i + 1,
        ) == if shots[i].active {
            volley_block(blocks[o][b], shots, i).struck(shot)
        } else {
            volley_block(blocks[o][b], shots, i)
        } by {
            lemma_shot_before_step(blocks[o][b].spec_rect(), shots, i);
        }
        if shots[i].active {
            assert(next[o] =~= strike_all(cur, shot)[o]);
        } else {
            assert(next[o] =~= cur[o]);
        }
    }
    if shots[i].active {
        assert(next =~= strike_all(cur, shot));
    } else {
        assert(next =~= cur);
    }
}

impl Game {
    /// Checks each live player laser against every alien, every block and the
    /// mystery ship. Returns whether an alien and whether the mystery ship fell.
    fn resolve_player_lasers(&mut self) -> (r: (bool, bool))
        requires
            old(self).wf(),
        ensures
            final(self)@ == player_volley(old(self)@),
            r.0 == some_fell(old(self)@.aliens, final(self)@.aliens),
            r.1 == (old(self)@.mystery.active && !final(self)@.mystery.active),
    {
        let ghost m = self@;
        let was_flying = self.mysteryship.active;
        let mut alien_hit = false;
        let mut i: usize = 0;
        proof {
            assert(player_volley_upto(m, 0).lasers =~= m.lasers);
            assert(volley_aliens(m.aliens, m.lasers, 0) =~= m.aliens);
            assert(volley_blocks(m.blocks, m.lasers, 0) =~= m.blocks) by {
                assert forall|o: int| 0 <= o < m.blocks.len() implies #[trigger] volley_blocks(
                    m.blocks,
                    m.lasers,
                    0,
                )[o] =~= m.blocks[o] by {}
            }
        }
        while i < self.lasers.len()
            invariant
                i <= m.lasers.len(),
                model_wf(m),
                was_flying == m.mystery.active,
                self@ == player_volley_upto(m, i as int),
                alien_hit == some_fell(m.aliens, self@.aliens),
            decreases m.lasers.len() - i,
        {
            let ghost cur = self@;
            proof {
                lemma_volley_aliens_step(m.aliens, m.lasers, i as int);
                lemma_volley_blocks_step(m.blocks, m.lasers, i as int);
                lemma_shot_before_step(m.mystery.spec_rect(), m.lasers, i as int);
                assert(self.lasers@[i as int] == m.lasers[i as int]);
            }
            if self.lasers[i].active {
                let shot = self.lasers[i].get_rect();
                proof {
                    assert forall|j: int| 0 <= j < self.aliens@.len() implies (
                    #[trigger] self.aliens@[j]).wf() by {
                        assert(self.aliens@[j] == volley_alien(m.aliens[j], m.lasers, i as int));
                        assert(m.aliens[j].wf());
                    }
                }
                let hit_a = strike_aliens(&mut self.aliens, shot, &mut self.score);
                let hit_b = strike_obstacles(&mut self.obstacles, shot);
                let hit_m = self.mysteryship.active && self.mysteryship.get_rect().overlaps(shot);
                if hit_m {
                    self.score = self.score.saturating_add(MYSTERYSHIP_SCORE);
                    self.mysteryship.set_inactive();
                }
                if hit_a || hit_b || hit_m {
                    self.lasers[i].set_inactive();
                }
                proof {
                    if hit_a && !alien_hit {
                        let j = choose|j: int| 0 <= j < cur.aliens.len() && #[trigger] cur.aliens[j].hit_by(shot);
                        assert(m.aliens[j].active && !self@.aliens[j].active);
                    }
                    if !hit_a {
                        assert(self@.aliens =~= cur.aliens);
                    }
                    assert(self@.lasers =~= player_volley_upto(m, i + 1).lasers);
                }
                alien_hit = alien_hit || hit_a;
            } else {
                proof {
                    assert(self@.lasers =~= player_volley_upto(m, i + 1).lasers);
                }
            }
            i += 1;
        }
        (alien_hit, was_flying && !self.mysteryship.active)
    }

    /// Checks each live alien laser against the ship and every block. Returns
    /// whether one hit the ship.
    fn resolve_alien_lasers(&mut self) -> (ship_hit: bool)
        ensures
            final(self)@ == alien_volley(old(self)@),
            ship_hit == (ship_hits(
                old(self)@.alien_lasers,
                old(self)@.spaceship.spec_rect(),
                old(self)@.alien_lasers.len() as int,
            ) > 0),
    {
        let ghost m = self@;
        let ship = self.spaceship.get_rect();
        let mut ship_hit = false;
        let mut i: usize = 0;
        proof {
            assert(alien_volley_upto(m, 0).alien_lasers =~= m.alien_lasers);
            assert(volley_blocks(m.blocks, m.alien_lasers, 0) =~= m.blocks) by {
                assert forall|o: int| 0 <= o < m.blocks.len() implies #[trigger] volley_blocks(
                    m.blocks,
                    m.alien_lasers,
                    0,
                )[o] =~= m.blocks[o] by {}
            }
        }
        while i < self.alien_lasers.len()
            invariant
                i <= m.alien_lasers.len(),
                ship == m.spaceship.spec_rect(),
                self@ == alien_volley_upto(m, i as int),
                ship_hit == (ship_hits(m.alien_lasers, ship, i as int) > 0),
                ship_hits(m.alien_lasers, ship, i as int) >= 0,
            decreases m.alien_lasers.len() - i,
        {
            proof {
                lemma_volley_blocks_step(m.blocks, m.alien_lasers, i as int);
                assert(self.alien_lasers@[i as int] == m.alien_lasers[i as int]);
            }
            if self.alien_lasers[i].active {
                let shot = self.alien_lasers[i].get_rect();
                let hit_ship = ship.overlaps(shot);
                if hit_ship {
                    self.lives = if self.lives > 0 {
                        self.lives - 1
                    } else {
                        0
                    };
                    if self.lives == 0 {
                        self.state = GameState::GameOver;
                    }
                    ship_hit = true;
                }
                let hit_b = strike_obstacles(&mut self.obstacles, shot);
                if hit_ship || hit_b {
                    self.alien_lasers[i].set_inactive();
                }
            }
            proof {
                assert(self@.alien_lasers =~= alien_volley_upto(m, i + 1).alien_lasers);
            }
            i += 1;
        }
        ship_hit
    }

    /// The live aliens crush the blocks they touch. Returns whether one of them
    /// touches the ship.
    fn resolve_alien_contact(&mut self) -> (done: bool)
        ensures
            final(self)@ == alien_contact(old(self)@),
            done == touches_ship(old(self)@.aliens, old(self)@.spaceship.spec_rect()),
    {
        let ghost m = self@;
        let ship = self.spaceship.get_rect();
        let mut done = false;
        let mut j: usize = 0;
        proof {
            assert(contact_blocks(m.blocks, m.aliens, 0) =~= m.blocks) by {
                assert forall|o: int| 0 <= o < m.blocks.len() implies #[trigger] contact_blocks(
                    m.blocks,
                    m.aliens,
                    0,
                )[o] =~= m.blocks[o] by {}
            }
        }
        while j < self.aliens.len()
            invariant
                j <= m.aliens.len(),
                ship == m.spaceship.spec_rect(),
                self@ == (GameModel { blocks: contact_blocks(m.blocks, m.aliens, j as int), ..m }),
                done == trodden(ship, m.aliens, j as int),
            decreases m.aliens.len() - j,
        {
            let ghost before = self@.blocks;
            proof {
                lemma_trodden_step(ship, m.aliens, j as int);
            }
            if self.aliens[j].active {
                let r = self.aliens[j].get_rect();
                strike_obstacles(&mut self.obstacles, r);
                if r.overlaps(ship) {
                    done = true;
                }
            }
            proof {
                let next = contact_blocks(m.blocks, m.aliens, j + 1);
                assert forall|o: int| 0 <= o < m.blocks.len() implies #[trigger] self@.blocks[o]
                    =~= next[o] by {
                    assert forall|b: int| 0 <= b < m.blocks[o].len() implies #[trigger] self@.blocks[o][b]
                        == next[o][b] by {
                        lemma_trodden_step(m.blocks[o][b].spec_rect(), m.aliens, j as int);
                    }
                }
                assert(self@.blocks =~= next);
            }
            j += 1;
        }
        done
    }

    /// Resolves every collision of a frame: player lasers, then alien lasers,
    /// then the aliens themselves. Returns whether an alien touches the ship.
    pub fn check_for_collisions(&mut self, cues: &mut Cues) -> (done: bool)
        requires
            old(self).wf(),
            old(self).state == GameState::Running,
        ensures
            final(self).wf(),
            final(self)@ == collided(old(self)@),
            done == touches_ship(final(self)@.aliens, final(self)@.spaceship.spec_rect()),
            *final(cues) == (Cues {
                alien_destroyed: old(cues).alien_destroyed || some_fell(
                    old(self)@.aliens,
                    final(self)@.aliens,
                ),
                mystery_destroyed: old(cues).mystery_destroyed || (old(self)@.mystery.active
                    && !final(self)@.mystery.active),
                ship_destroyed: old(cues).ship_destroyed || final(self)@.lives < old(self)@.lives,
                save_high_score: old(cues).save_high_score || final(self)@.state == GameState::GameOver,
                ..*old(cues)
            }),
    {
        let ghost m = self@;
        let (alien_hit, mystery_hit) = self.resolve_player_lasers();
        let ghost m1 = self@;
        let ship_hit = self.resolve_alien_lasers();
        if self.state == GameState::GameOver {
            self.game_over();
            cues.save_high_score = true;
        }
        let ghost m2 = self@;
        let done = self.resolve_alien_contact();
        if alien_hit {
            cues.alien_destroyed = true;
        }
        if mystery_hit {
            cues.mystery_destroyed = true;
        }
        if ship_hit {
            cues.ship_destroyed = true;
        }
        proof {
            assert forall|j: int| 0 <= j < self@.aliens.len() implies (#[trigger] self@.aliens[j]).wf() by {
                assert(self@.aliens[j] == volley_alien(m.aliens[j], m.lasers, m.lasers.len() as int));
                assert(m.aliens[j].wf());
            }
        }
        done
    }

    /// The game is lost.
    pub(crate) fn game_over(&mut self)
        ensures
            final(self)@ == (GameModel { state: GameState::GameOver, ..old(self)@ }),
    {
        self.state = GameState::GameOver;
    }
}

/// Collision resolution only ever deactivates: no laser, alien, block or
/// mystery ship that was out comes back, and nothing is added or removed.
pub proof fn lemma_collisions_only_deactivate(m: GameModel)
    ensures
        collided(m).lasers.len() == m.lasers.len(),
        forall|i: int| 0 <= i < m.lasers.len() && (#[trigger] collided(m).lasers[i]).active ==> m.lasers[i].active,
        collided(m).alien_lasers.len() == m.alien_lasers.len(),
        forall|i: int|
            0 <= i < m.alien_lasers.len() && (#[trigger] collided(m).alien_lasers[i]).active
                ==> m.alien_lasers[i].active,
        collided(m).aliens.len() == m.aliens.len(),
        forall|j: int| 0 <= j < m.aliens.len() && (#[trigger] collided(m).aliens[j]).active ==> m.aliens[j].active,
        collided(m).blocks.len() == m.blocks.len(),
        forall|o: int| 0 <= o < m.blocks.len() ==> (#[trigger] collided(m).blocks[o]).len() == m.blocks[o].len(),
        forall|o: int, b: int|
            0 <= o < m.blocks.len() && 0 <= b < m.blocks[o].len() && (
            #[trigger] collided(m).blocks[o][b]).active ==> m.blocks[o][b].active,
        collided(m).mystery.active ==> m.mystery.active,
{
    let v = player_volley(m);
    let w = alien_volley(v);
    let c = collided(m);
    assert forall|o: int, b: int|
        0 <= o < m.blocks.len() && 0 <= b < m.blocks[o].len() && (
        #[trigger] c.blocks[o][b]).active implies m.blocks[o][b].active by {
        assert(w.blocks[o][b].active);
        assert(v.blocks[o][b].active);
    }
}

proof fn lemma_fallen_value_same(a: Seq<Alien>, b: Seq<Alien>)
    requires
        a.len() == b.len(),
        forall|j: int| 0 <= j < a.len() ==> (#[trigger] a[j]).active == b[j].active && a[j].kind == b[j].kind,
    ensures
        fallen_value(a) == fallen_value(b),
    decreases a.len(),
{
    if a.len() > 0 {
        assert forall|j: int| 0 <= j < a.drop_last().len() implies (#[trigger] a.drop_last()[j]).active
            == b.drop_last()[j].active && a.drop_last()[j].kind == b.drop_last()[j].kind by {
            assert(a.drop_last()[j] == a[j]);
            assert(b.drop_last()[j] == b[j]);
        }
        lemma_fallen_value_same(a.drop_last(), b.drop_last());
    }
}

/// Destroying blocks, spending lasers and hits on the ship never change the
/// score: when no alien and no mystery ship goes out, the score stays.
pub proof fn lemma_score_kept_without_kills(m: GameModel)
    requires
        0 <= m.score <= usize::MAX,
        forall|j: int|
            0 <= j < m.aliens.len() ==> (#[trigger] collided(m).aliens[j]).active == m.aliens[j].active,
        collided(m).mystery.active == m.mystery.active,
    ensures
        collided(m).score == m.score,
{
    let c = collided(m);
    assert forall|j: int| 0 <= j < c.aliens.len() implies (#[trigger] c.aliens[j]).active
        == m.aliens[j].active && c.aliens[j].kind == m.aliens[j].kind by {
        assert(c.aliens[j] == volley_alien(m.aliens[j], m.lasers, m.lasers.len() as int));
    }
    lemma_fallen_value_same(c.aliens, m.aliens);
}

} // verus!
