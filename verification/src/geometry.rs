use vstd::prelude::*;
use vstd::std_specs::ops::{AddSpecImpl, SubSpecImpl};
use core::ops::{Add, Sub};

verus! {

/// An axis-aligned rectangle, also used as the difference of two rectangles.
#[derive(Debug, Clone, Copy, PartialEq, Eq, Structural)]
pub struct Rect {
    pub x: i32,
    pub y: i32,
    pub width: i32,
    pub height: i32,
}

/// A width and a height.
#[derive(Debug, Clone, Copy, PartialEq, Eq, Structural)]
pub struct Dimension {
    pub width: i32,
    pub height: i32,
}

/// A point, or the offset between two points.
#[derive(Debug, Clone, Copy, PartialEq, Eq, Structural)]
pub struct Position {
    pub x: i32,
    pub y: i32,
}

/// Whether an integer is representable as an `i32`.
pub open spec fn fits_i32(v: int) -> bool {
    i32::MIN <= v <= i32::MAX
}

impl SubSpecImpl for Rect {
    open spec fn obeys_sub_spec() -> bool {
        true
    }

    open spec fn sub_req(self, rhs: Rect) -> bool {
        &&& fits_i32(self.x - rhs.x)
        &&& fits_i32(self.y - rhs.y)
        &&& fits_i32(self.width - rhs.width)
        &&& fits_i32(self.height - rhs.height)
    }

    open spec fn sub_spec(self, rhs: Rect) -> Rect {
        Rect {
            x: (self.x - rhs.x) as i32,
            y: (self.y - rhs.y) as i32,
            width: (self.width - rhs.width) as i32,
            height: (self.height - rhs.height) as i32,
        }
    }
}

impl Sub for Rect {
    type Output = Rect;

    fn sub(self, rhs: Rect) -> (r: Rect) {
        Rect {
            x: self.x - rhs.x,
            y: self.y - rhs.y,
            width: self.width - rhs.width,
            height: self.height - rhs.height,
        }
    }
}

impl SubSpecImpl for Dimension {
    open spec fn obeys_sub_spec() -> bool {
        true
    }

    open spec fn sub_req(self, rhs: Dimension) -> bool {
        fits_i32(self.width - rhs.width) && fits_i32(self.height - rhs.height)
    }

    open spec fn sub_spec(self, rhs: Dimension) -> Dimension {
        Dimension {
            width: (self.width - rhs.width) as i32,
            height: (self.height - rhs.height) as i32,
        }
    }
}

impl Sub for Dimension {
    type Output = Dimension;

    fn sub(self, rhs: Dimension) -> (r: Dimension) {
        Dimension { width: self.width - rhs.width, height: self.height - rhs.height }
    }
}

impl SubSpecImpl for Position {
    open spec fn obeys_sub_spec() -> bool {
        true
    }

    open spec fn sub_req(self, rhs: Position) -> bool {
        fits_i32(self.x - rhs.x) && fits_i32(self.y - rhs.y)
    }

    open spec fn sub_spec(self, rhs: Position) -> Position {
        Position { x: (self.x - rhs.x) as i32, y: (self.y - rhs.y) as i32 }
    }
}

impl Sub for Position {
    type Output = Position;

    fn sub(self, rhs: Position) -> (r: Position) {
        Position { x: self.x - rhs.x, y: self.y - rhs.y }
    }
}

impl AddSpecImpl for Position {
    open spec fn obeys_add_spec() -> bool {
        true
    }

    open spec fn add_req(self, rhs: Position) -> bool {
        fits_i32(self.x + rhs.x) && fits_i32(self.y + rhs.y)
    }

    open spec fn add_spec(self, rhs: Position) -> Position {
        Position { x: (self.x + rhs.x) as i32, y: (self.y + rhs.y) as i32 }
    }
}

impl Add for Position {
    type Output = Position;

    fn add(self, rhs: Position) -> (r: Position) {
        Position { x: self.x + rhs.x, y: self.y + rhs.y }
    }
}

impl Position {
    /// Shifts this position by `rhs`, in place.
    pub fn add_assign(&mut self, rhs: Position)
        requires
            fits_i32(old(self).x + rhs.x),
            fits_i32(old(self).y + rhs.y),
        ensures
            final(self).x == old(self).x + rhs.x,
            final(self).y == old(self).y + rhs.y,
    {
        self.x = self.x + rhs.x;
        self.y = self.y + rhs.y;
    }
}



/// The sum of two positions, wrapping around as `i32` arithmetic does in a
/// release build.
pub open spec fn wrap_add(a: Position, b: Position) -> Position {
    Position { x: a.x.wrapping_add(b.x), y: a.y.wrapping_add(b.y) }
}

/// The difference of two positions, wrapping around as `i32` arithmetic does in a
/// release build.
pub open spec fn wrap_sub(a: Position, b: Position) -> Position {
    Position { x: a.x.wrapping_sub(b.x), y: a.y.wrapping_sub(b.y) }
}

impl Position {
    /// The sum, wrapping around on overflow.
    pub fn wrapping_add(self, rhs: Position) -> (r: Position)
        ensures
            r == wrap_add(self, rhs),
    {
        Position { x: self.x.wrapping_add(rhs.x), y: self.y.wrapping_add(rhs.y) }
    }

    /// The difference, wrapping around on overflow.
    pub fn wrapping_sub(self, rhs: Position) -> (r: Position)
        ensures
            r == wrap_sub(self, rhs),
    {
        Position { x: self.x.wrapping_sub(rhs.x), y: self.y.wrapping_sub(rhs.y) }
    }
}


/// Adding as `i32` does in a release build is associative and commutative, and
/// zero changes nothing.
pub proof fn lemma_wrap_add_laws(a: Position, b: Position, c: Position)
    ensures
        wrap_add(wrap_add(a, b), c) == wrap_add(a, wrap_add(b, c)),
        wrap_add(a, b) == wrap_add(b, a),
        wrap_add(a, Position { x: 0, y: 0 }) == a,
{
    lemma_i32_wrap_add(a.x, b.x, c.x);
    lemma_i32_wrap_add(a.y, b.y, c.y);
}

proof fn lemma_i32_wrap_add(a: i32, b: i32, c: i32)
    ensures
        a.wrapping_add(b).wrapping_add(c) == a.wrapping_add(b.wrapping_add(c)),
        a.wrapping_add(b) == b.wrapping_add(a),
        a.wrapping_add(0) == a,
{
}

}
