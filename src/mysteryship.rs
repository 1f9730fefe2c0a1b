use vstd::prelude::*;
use crate::constants::{MYSTERYSHIP_SPEED, MYSTERYSHIP_YPOS, SIDE_MARGIN, WORLD_WIDTH};
use crate::context::{Context, Size};
use crate::geometry::{add_clamped, clamp_i32, Rect, Vector2};
use crate::random::random_below;

verus! {

/// The bonus ship that now and then crosses the top of the screen.
#[derive(Clone, Copy, Debug, PartialEq, Eq, Structural)]
pub struct MysteryShip {
    pub position: Vector2,
    pub size: Size,
    pub speed: i32,
    pub active: bool,
}

/// The leftmost column at which the mystery ship flies.
pub open spec fn mystery_min_x() -> int {
    SIDE_MARGIN as int
}

/// The rightmost column at which a mystery ship of this size flies.
pub open spec fn mystery_max_x(size: Size) -> int {
    WORLD_WIDTH - size.width - SIDE_MARGIN
}

impl MysteryShip {
    pub open spec fn deactivated(self) -> MysteryShip {
        MysteryShip { active: false, ..self }
    }

    /// One frame of flight: it moves by `speed` and goes out past either side.
    pub open spec fn advanced(self) -> MysteryShip {
        if self.active {
            let x = clamp_i32(self.position.x + self.speed);
            MysteryShip {
                position: Vector2 { x, y: self.position.y },
                active: !(x > mystery_max_x(self.size) || x < mystery_min_x()),
                ..self
            }
        } else {
            self
        }
    }

    /// The ship sent across from the given side.
    pub open spec fn spawned(self, from_left: bool) -> MysteryShip {
        MysteryShip {
            position: Vector2 {
                x: if from_left {
                    mystery_min_x() as i32
                } else {
                    mystery_max_x(self.size) as i32
                },
                y: MYSTERYSHIP_YPOS,
            },
            size: self.size,
            speed: if from_left {
                MYSTERYSHIP_SPEED
            } else {
                (-MYSTERYSHIP_SPEED) as i32
            },
            active: true,
        }
    }

    /// Its sprite while it flies; an empty rectangle while it waits.
    pub open spec fn spec_rect(&self) -> Rect {
        if self.active {
            Rect {
                x: self.position.x,
                y: self.position.y,
                width: self.size.width as i32,
                height: self.size.height as i32,
            }
        } else {
            Rect { x: self.position.x, y: self.position.y, width: 0, height: 0 }
        }
    }

    /// The shot with rectangle `shot` touches the ship while it flies.
    pub open spec fn hit_by(self, shot: Rect) -> bool {
        self.active && self.spec_rect().spec_overlaps(shot)
    }

    /// A mystery ship waiting for its first crossing.
    pub open spec fn spec_new(ctx: Context) -> MysteryShip {
        MysteryShip { position: Vector2 { x: 0, y: 0 }, size: ctx.mystery, speed: 0, active: false }
    }

    pub fn new(ctx: &Context) -> (r: MysteryShip)
        ensures
            r == MysteryShip::spec_new(*ctx),
    {
        MysteryShip { position: Vector2 { x: 0, y: 0 }, size: ctx.mystery, speed: 0, active: false }
    }

    pub fn set_inactive(&mut self)
        ensures
            *final(self) == old(self).deactivated(),
    {
        self.active = false;
    }

    pub fn is_active(&self) -> (r: bool)
        ensures
            r == self.active,
    {
        self.active
    }

    pub fn update(&mut self)
        ensures
            *final(self) == old(self).advanced(),
    {
        if self.active {
            self.position.x = add_clamped(self.position.x, self.speed);
            let max_x: i32 = WORLD_WIDTH - self.size.width as i32 - SIDE_MARGIN;
            if self.position.x > max_x || self.position.x < SIDE_MARGIN {
                self.active = false;
            }
        }
    }

    /// Sends the ship across from a side drawn at random.
    pub fn spawn(&mut self)
        ensures
            *final(self) == old(self).spawned(true) || *final(self) == old(self).spawned(false),
    {
        let side = random_below(2);
        self.spawn_from(side == 0);
    }

    pub fn spawn_from(&mut self, from_left: bool)
        ensures
            *final(self) == old(self).spawned(from_left),
    {
        self.position.y = MYSTERYSHIP_YPOS;
        if from_left {
            self.position.x = SIDE_MARGIN;
            self.speed = MYSTERYSHIP_SPEED;
        } else {
            self.position.x = WORLD_WIDTH - self.size.width as i32 - SIDE_MARGIN;
            self.speed = -MYSTERYSHIP_SPEED;
        }
        self.active = true;
    }

    #[verifier::when_used_as_spec(spec_rect)]
    pub fn get_rect(&self) -> (r: Rect)
        ensures
            r == self.spec_rect(),
            !self.active ==> !r.has_area(),
    {
        if self.active {
            Rect {
                x: self.position.x,
                y: self.position.y,
                width: self.size.width as i32,
                height: self.size.height as i32,
            }
        } else {
            Rect { x: self.position.x, y: self.position.y, width: 0, height: 0 }
        }
    }
}

/// An idle mystery ship's rectangle collides with nothing.
pub proof fn lemma_idle_mystery_never_collides(ship: MysteryShip, other: Rect)
    requires
        !ship.active,
    ensures
        !ship.spec_rect().spec_overlaps(other),
        !other.spec_overlaps(ship.spec_rect()),
{
}

} // verus!
