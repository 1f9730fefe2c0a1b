use vstd::prelude::*;
use crate::constants::{LASER_HEIGHT, LASER_MAX_Y, LASER_MIN_Y, LASER_WIDTH};
use crate::geometry::{add_clamped, clamp_i32, Rect, Vector2};

verus! {

/// A shot: a small rectangle that moves vertically by `speed` each frame.
#[derive(Clone, Copy, Debug, PartialEq, Eq, Structural)]
pub struct Laser {
    pub position: Vector2,
    pub speed: i32,
    pub active: bool,
}

impl Laser {
    pub open spec fn deactivated(self) -> Laser {
        Laser { active: false, ..self }
    }

    /// One frame of flight: an active laser moves and goes out when it leaves
    /// the rows `LASER_MIN_Y..=LASER_MAX_Y`; an inactive one stays as it is.
    pub open spec fn advanced(self) -> Laser {
        if self.active {
            let y = clamp_i32(self.position.y + self.speed);
            Laser {
                position: Vector2 { x: self.position.x, y },
                speed: self.speed,
                active: LASER_MIN_Y <= y <= LASER_MAX_Y,
            }
        } else {
            self
        }
    }

    pub open spec fn spec_rect(&self) -> Rect {
        Rect {
            x: self.position.x,
            y: self.position.y,
            width: LASER_WIDTH,
            height: LASER_HEIGHT,
        }
    }

    pub fn new(position: Vector2, speed: i32) -> (r: Laser)
        ensures
            r == (Laser { position, speed, active: true }),
    {
        Laser { position, speed, active: true }
    }

    pub fn is_active(&self) -> (r: bool)
        ensures
            r == self.active,
    {
        self.active
    }

    pub fn set_inactive(&mut self)
        ensures
            *final(self) == old(self).deactivated(),
    {
        self.active = false;
    }

    pub fn update(&mut self)
        ensures
            *final(self) == old(self).advanced(),
    {
        if self.active {
            self.position.y = add_clamped(self.position.y, self.speed);
            if self.position.y > LASER_MAX_Y || self.position.y < LASER_MIN_Y {
                self.active = false;
            }
        }
    }

    #[verifier::when_used_as_spec(spec_rect)]
    pub fn get_rect(&self) -> (r: Rect)
        ensures
            r == self.spec_rect(),
    {
        Rect { x: self.position.x, y: self.position.y, width: LASER_WIDTH, height: LASER_HEIGHT }
    }
}

/// Deactivating a laser is idempotent, and nothing that a laser undergoes on
/// its own (deactivation, a frame of flight) brings an inactive laser back.
pub proof fn lemma_laser_stays_inactive(l: Laser)
    ensures
        l.deactivated().deactivated() == l.deactivated(),
        !l.deactivated().active,
        !l.active ==> l.advanced() == l,
        !l.active ==> l.deactivated() == l,
{
}

} // verus!
