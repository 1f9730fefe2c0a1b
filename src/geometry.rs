use vstd::prelude::*;

verus! {

/// A point of the play field, in whole pixels.
#[derive(Clone, Copy, Debug, PartialEq, Eq, Structural)]
pub struct Vector2 {
    pub x: i32,
    pub y: i32,
}

/// An axis-aligned rectangle: its top-left corner and its size.
#[derive(Clone, Copy, Debug, PartialEq, Eq, Structural)]
pub struct Rect {
    pub x: i32,
    pub y: i32,
    pub width: i32,
    pub height: i32,
}

impl Rect {
    /// The rectangle has an interior: its width and height are positive.
    pub open spec fn has_area(self) -> bool {
        self.width > 0 && self.height > 0
    }

    /// The two rectangles share interior points: both have an area, and
    /// raylib's `CheckCollisionRecs` comparisons hold. A rectangle without
    /// area (an idle mystery ship's) collides with nothing.
    pub open spec fn spec_overlaps(self, other: Rect) -> bool {
        &&& self.has_area()
        &&& other.has_area()
        &&& self.x < other.x + other.width
        &&& self.x + self.width > other.x
        &&& self.y < other.y + other.height
        &&& self.y + self.height > other.y
    }

    #[verifier::when_used_as_spec(spec_overlaps)]
    pub fn overlaps(self, other: Rect) -> (r: bool)
        ensures
            r == self.spec_overlaps(other),
    {
        let (ax, ay, aw, ah) = (self.x as i64, self.y as i64, self.width as i64, self.height as i64);
        let (bx, by, bw, bh) = (other.x as i64, other.y as i64, other.width as i64, other.height as i64);
        aw > 0 && ah > 0 && bw > 0 && bh > 0 && ax < bx + bw && ax + aw > bx && ay < by + bh && ay
            + ah > by
    }
}

/// `v` pushed into the range of `i32`: coordinates saturate at its ends.
pub open spec fn clamp_i32(v: int) -> i32 {
    if v < i32::MIN {
        i32::MIN
    } else if v > i32::MAX {
        i32::MAX
    } else {
        v as i32
    }
}

/// Adds two coordinates, saturating at the ends of `i32`.
pub fn add_clamped(a: i32, b: i32) -> (r: i32)
    ensures
        r == clamp_i32(a + b),
{
    let s: i64 = a as i64 + b as i64;
    if s < i32::MIN as i64 {
        i32::MIN
    } else if s > i32::MAX as i64 {
        i32::MAX
    } else {
        s as i32
    }
}

/// Half of `v`, rounded toward zero as integer division does.
pub open spec fn half(v: int) -> int {
    if v >= 0 {
        v / 2
    } else {
        -((-v) / 2)
    }
}

pub fn halve(v: i32) -> (r: i32)
    ensures
        r == half(v as int),
{
    let w: i64 = v as i64;
    if w >= 0 {
        (w / 2) as i32
    } else {
        let n: i64 = -w;
        (-(n / 2)) as i32
    }
}

} // verus!
