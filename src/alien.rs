use vstd::prelude::*;
use crate::constants::{ALIEN_LEFT_LIMIT, ALIEN_RIGHT_LIMIT};
use crate::context::{Context, Size};
use crate::geometry::{add_clamped, clamp_i32, Rect, Vector2};
use crate::prune::Live;

verus! {

/// What destroying an alien of the given kind is worth.
pub open spec fn alien_points(kind: int) -> int {
    if kind == 1 {
        100
    } else if kind == 2 {
        200
    } else {
        300
    }
}

/// One enemy ship of the roster.
#[derive(Clone, Copy, Debug, PartialEq, Eq, Structural)]
pub struct Alien {
    /// 1, 2 or 3: sets the sprite and the score.
    pub kind: usize,
    pub position: Vector2,
    pub size: Size,
    pub active: bool,
}

impl Alien {
    pub open spec fn wf(self) -> bool {
        1 <= self.kind <= 3
    }

    pub open spec fn deactivated(self) -> Alien {
        Alien { active: false, ..self }
    }

    pub open spec fn spec_rect(&self) -> Rect {
        Rect {
            x: self.position.x,
            y: self.position.y,
            width: self.size.width as i32,
            height: self.size.height as i32,
        }
    }

    /// The shot with rectangle `shot` touches this alien while it is active.
    pub open spec fn hit_by(self, shot: Rect) -> bool {
        self.active && self.spec_rect().spec_overlaps(shot)
    }

    /// The alien after a shot with rectangle `shot`: it goes out if the shot touches it.
    pub open spec fn struck(self, shot: Rect) -> Alien {
        if self.hit_by(shot) {
            self.deactivated()
        } else {
            self
        }
    }

    pub open spec fn overflows_right(self) -> bool {
        self.position.x + self.size.width > ALIEN_RIGHT_LIMIT
    }

    pub open spec fn overflows_left(self) -> bool {
        self.position.x < ALIEN_LEFT_LIMIT
    }

    /// Where a laser that this alien fires starts: the middle of its bottom edge.
    pub open spec fn laser_position(self) -> Vector2 {
        Vector2 {
            x: clamp_i32(self.position.x + self.size.width / 2),
            y: clamp_i32(self.position.y + self.size.height),
        }
    }

    pub open spec fn stepped(self, direction: int) -> Alien {
        Alien {
            position: Vector2 { x: clamp_i32(self.position.x + direction), y: self.position.y },
            ..self
        }
    }

    pub open spec fn lowered(self, distance: int) -> Alien {
        Alien {
            position: Vector2 { x: self.position.x, y: clamp_i32(self.position.y + distance) },
            ..self
        }
    }

    pub fn new(kind: usize, position: Vector2, ctx: &Context) -> (r: Alien)
        requires
            1 <= kind <= 3,
        ensures
            r == (Alien { kind, position, size: ctx.spec_alien_size(kind as int), active: true }),
            r.wf(),
    {
        Alien { kind, position, size: ctx.alien_size(kind), active: true }
    }

    pub fn get_score(&self) -> (r: usize)
        requires
            self.wf(),
        ensures
            r == alien_points(self.kind as int),
    {
        if self.kind == 1 {
            100
        } else if self.kind == 2 {
            200
        } else {
            300
        }
    }

    pub fn has_overflowed_right(&self) -> (r: bool)
        ensures
            r == self.overflows_right(),
    {
        self.position.x as i64 + self.size.width as i64 > ALIEN_RIGHT_LIMIT as i64
    }

    pub fn has_overflowed_left(&self) -> (r: bool)
        ensures
            r == self.overflows_left(),
    {
        self.position.x < ALIEN_LEFT_LIMIT
    }

    pub fn get_laser_position(&self) -> (r: Vector2)
        ensures
            r == self.laser_position(),
    {
        Vector2 {
            x: add_clamped(self.position.x, (self.size.width / 2) as i32),
            y: add_clamped(self.position.y, self.size.height as i32),
        }
    }

    pub fn move_down(&mut self, distance: usize)
        ensures
            *final(self) == old(self).lowered(distance as int),
    {
        let y: i128 = self.position.y as i128 + distance as i128;
        self.position.y = if y > i32::MAX as i128 {
            i32::MAX
        } else {
            y as i32
        };
    }

    pub fn set_inactive(&mut self)
        ensures
            *final(self) == old(self).deactivated(),
    {
        self.active = false;
    }

    pub fn is_active(&self) -> (r: bool)
        ensures
            r == self.active,
    {
        self.active
    }

    pub fn update(&mut self, direction: i32)
        ensures
            *final(self) == old(self).stepped(direction as int),
    {
        self.position.x = add_clamped(self.position.x, direction);
    }

    #[verifier::when_used_as_spec(spec_rect)]
    pub fn get_rect(&self) -> (r: Rect)
        ensures
            r == self.spec_rect(),
    {
        Rect {
            x: self.position.x,
            y: self.position.y,
            width: self.size.width as i32,
            height: self.size.height as i32,
        }
    }
}

impl Live for Alien {
    open spec fn live(&self) -> bool {
        self.active
    }

    fn is_live(&self) -> (r: bool) {
        self.active
    }
}

} // verus!
