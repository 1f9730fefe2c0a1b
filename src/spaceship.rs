use vstd::prelude::*;
use crate::constants::{
    LASER_SPEED, LASER_TIME, LASER_WIDTH, SPACESHIP_SPEED, SPACESHIP_XOFFSET, SPACESHIP_YOFFSET,
    WORLD_HEIGHT, WORLD_WIDTH,
};
use crate::context::{Context, Size};
use crate::geometry::{add_clamped, clamp_i32, half, halve, Rect, Vector2};
use crate::laser::Laser;

verus! {

/// The columns between which the ship may move.
#[derive(Clone, Copy, Debug, PartialEq, Eq, Structural)]
pub struct Bounds {
    pub min: i32,
    pub max: i32,
}

/// The player's ship.
#[derive(Clone, Copy, Debug, PartialEq, Eq, Structural)]
pub struct Spaceship {
    pub position: Vector2,
    pub size: Size,
    pub bounds: Bounds,
    /// When it last fired, in milliseconds of the game clock.
    pub last_fire_time: u64,
}

/// Where a ship of this size starts: centred, above the status bar.
pub open spec fn home_position(size: Size) -> Vector2 {
    Vector2 {
        x: half(WORLD_WIDTH - size.width) as i32,
        y: (WORLD_HEIGHT - size.height - SPACESHIP_YOFFSET) as i32,
    }
}

/// The columns a ship of this size may reach.
pub open spec fn ship_bounds(size: Size) -> Bounds {
    Bounds {
        min: SPACESHIP_XOFFSET,
        max: (WORLD_WIDTH - size.width - SPACESHIP_XOFFSET) as i32,
    }
}

/// The cooldown between two shots has run out at time `now`.
pub open spec fn cooled_down(last: int, now: int) -> bool {
    now - last >= LASER_TIME
}

impl Spaceship {
    pub open spec fn moved_left(self) -> Spaceship {
        let x = clamp_i32(self.position.x - SPACESHIP_SPEED);
        Spaceship {
            position: Vector2 {
                x: if x < self.bounds.min {
                    self.bounds.min
                } else {
                    x
                },
                y: self.position.y,
            },
            ..self
        }
    }

    pub open spec fn moved_right(self) -> Spaceship {
        let x = clamp_i32(self.position.x + SPACESHIP_SPEED);
        Spaceship {
            position: Vector2 {
                x: if x > self.bounds.max {
                    self.bounds.max
                } else {
                    x
                },
                y: self.position.y,
            },
            ..self
        }
    }

    /// The laser the ship fires: from the middle of its top edge, upward.
    pub open spec fn shot(self) -> Laser {
        Laser {
            position: Vector2 {
                x: clamp_i32(self.position.x + half(self.size.width - LASER_WIDTH)),
                y: self.position.y,
            },
            speed: LASER_SPEED,
            active: true,
        }
    }

    pub open spec fn spec_rect(&self) -> Rect {
        Rect {
            x: self.position.x,
            y: self.position.y,
            width: self.size.width as i32,
            height: self.size.height as i32,
        }
    }

    /// A ship at its starting place that has never fired.
    pub open spec fn spec_new(ctx: Context) -> Spaceship {
        Spaceship {
            position: home_position(ctx.spaceship),
            size: ctx.spaceship,
            bounds: ship_bounds(ctx.spaceship),
            last_fire_time: 0,
        }
    }

    pub fn new(ctx: &Context) -> (r: Spaceship)
        ensures
            r == Spaceship::spec_new(*ctx),
    {
        let size = ctx.spaceship;
        let position = Spaceship::home(size);
        let max: i32 = WORLD_WIDTH - size.width as i32 - SPACESHIP_XOFFSET;
        Spaceship {
            position,
            size,
            bounds: Bounds { min: SPACESHIP_XOFFSET, max },
            last_fire_time: 0,
        }
    }

    fn home(size: Size) -> (r: Vector2)
        ensures
            r == home_position(size),
    {
        Vector2 {
            x: halve(WORLD_WIDTH - size.width as i32),
            y: WORLD_HEIGHT - size.height as i32 - SPACESHIP_YOFFSET,
        }
    }

    /// Puts the ship back at the centre.
    pub fn reset(&mut self)
        ensures
            *final(self) == (Spaceship { position: home_position(old(self).size), ..*old(self) }),
    {
        self.position = Spaceship::home(self.size);
    }

    /// Nothing changes the ship from one frame to the next but the player.
    pub fn update(&mut self)
        ensures
            *final(self) == *old(self),
    {
    }

    pub fn move_left(&mut self)
        ensures
            *final(self) == old(self).moved_left(),
    {
        self.position.x = add_clamped(self.position.x, -SPACESHIP_SPEED);
        if self.position.x < self.bounds.min {
            self.position.x = self.bounds.min;
        }
    }

    pub fn move_right(&mut self)
        ensures
            *final(self) == old(self).moved_right(),
    {
        self.position.x = add_clamped(self.position.x, SPACESHIP_SPEED);
        if self.position.x > self.bounds.max {
            self.position.x = self.bounds.max;
        }
    }

    /// Fires when the cooldown has run out at time `now` (in milliseconds),
    /// and then remembers `now`; otherwise nothing happens.
    pub fn fire_laser(&mut self, now: u64) -> (r: Option<Laser>)
        ensures
            cooled_down(old(self).last_fire_time as int, now as int) ==> r == Some(old(self).shot())
                && *final(self) == (Spaceship { last_fire_time: now, ..*old(self) }),
            !cooled_down(old(self).last_fire_time as int, now as int) ==> r is None && *final(self)
                == *old(self),
    {
        if now >= self.last_fire_time && now - self.last_fire_time >= LASER_TIME {
            let x = add_clamped(self.position.x, halve(self.size.width as i32 - LASER_WIDTH));
            self.last_fire_time = now;
            Some(Laser::new(Vector2 { x, y: self.position.y }, LASER_SPEED))
        } else {
            None
        }
    }

    #[verifier::when_used_as_spec(spec_rect)]
    pub fn get_rect(&self) -> (r: Rect)
        ensures
            r == self.spec_rect(),
    {
        Rect {
            x: self.position.x,
            y: self.position.y,
            width: self.size.width as i32,
            height: self.size.height as i32,
        }
    }
}

} // verus!
