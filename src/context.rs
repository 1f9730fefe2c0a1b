use vstd::prelude::*;

verus! {

/// The size of a sprite, in pixels.
#[derive(Clone, Copy, Debug, PartialEq, Eq, Structural)]
pub struct Size {
    pub width: u16,
    pub height: u16,
}

/// What the game reads from the rendering context: the size of each sprite.
#[derive(Clone, Copy, Debug, PartialEq, Eq, Structural)]
pub struct Context {
    pub alien1: Size,
    pub alien2: Size,
    pub alien3: Size,
    pub spaceship: Size,
    pub mystery: Size,
}

impl Context {
    pub fn new(alien1: Size, alien2: Size, alien3: Size, spaceship: Size, mystery: Size) -> (r: Context)
        ensures
            r == (Context { alien1, alien2, alien3, spaceship, mystery }),
    {
        Context { alien1, alien2, alien3, spaceship, mystery }
    }

    /// The sprite of an alien of kind 1, 2 or 3.
    pub open spec fn spec_alien_size(self, kind: int) -> Size {
        if kind == 1 {
            self.alien1
        } else if kind == 2 {
            self.alien2
        } else {
            self.alien3
        }
    }

    pub fn alien_size(&self, kind: usize) -> (r: Size)
        ensures
            r == self.spec_alien_size(kind as int),
    {
        if kind == 1 {
            self.alien1
        } else if kind == 2 {
            self.alien2
        } else {
            self.alien3
        }
    }
}

} // verus!
