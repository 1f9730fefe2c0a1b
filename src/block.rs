use vstd::prelude::*;
use crate::constants::BLOCK_SIDE;
use crate::geometry::{Rect, Vector2};

verus! {

/// One square of a shield.
#[derive(Clone, Copy, Debug, PartialEq, Eq, Structural)]
pub struct Block {
    pub position: Vector2,
    pub active: bool,
}

impl Block {
    pub open spec fn deactivated(self) -> Block {
        Block { active: false, ..self }
    }

    pub open spec fn spec_rect(&self) -> Rect {
        Rect { x: self.position.x, y: self.position.y, width: BLOCK_SIDE, height: BLOCK_SIDE }
    }

    /// The shot with rectangle `shot` touches this block while it is active.
    pub open spec fn hit_by(self, shot: Rect) -> bool {
        self.active && self.spec_rect().spec_overlaps(shot)
    }

    /// The block after a shot with rectangle `shot`: an active block that the
    /// shot touches goes out.
    pub open spec fn struck(self, shot: Rect) -> Block {
        if self.hit_by(shot) {
            self.deactivated()
        } else {
            self
        }
    }

    pub fn new(position: Vector2) -> (r: Block)
        ensures
            r == (Block { position, active: true }),
    {
        Block { position, active: true }
    }

    pub fn is_active(&self) -> (r: bool)
        ensures
            r == self.active,
    {
        self.active
    }

    pub fn set_inactive(&mut self)
        ensures
            *final(self) == old(self).deactivated(),
    {
        self.active = false;
    }

    #[verifier::when_used_as_spec(spec_rect)]
    pub fn get_rect(&self) -> (r: Rect)
        ensures
            r == self.spec_rect(),
    {
        Rect { x: self.position.x, y: self.position.y, width: BLOCK_SIDE, height: BLOCK_SIDE }
    }
}

} // verus!
