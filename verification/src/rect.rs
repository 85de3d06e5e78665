//! Axis-parallel rectangles, the rooms of a map.

use vstd::prelude::*;
use crate::components::Position;

verus! {

/// Half of `v`, rounded towards zero.
pub open spec fn half(v: int) -> int {
    if v >= 0 {
        v / 2
    } else {
        -((-v) / 2)
    }
}

#[derive(Clone, Copy, Debug, PartialEq, Eq, Structural)]
pub struct Rect {
    pub x1: i32,
    pub x2: i32,
    pub y1: i32,
    pub y2: i32,
}

impl Rect {
    /// The rectangle with corner `(x, y)`, `w` wide and `h` high.
    pub fn new(x: i32, y: i32, w: i32, h: i32) -> (r: Rect)
        requires
            i32::MIN <= x + w <= i32::MAX,
            i32::MIN <= y + h <= i32::MAX,
        ensures
            r == (Rect { x1: x, y1: y, x2: (x + w) as i32, y2: (y + h) as i32 }),
    {
        Rect { x1: x, y1: y, x2: x + w, y2: y + h }
    }

    /// Do the two rectangles share a point, their borders included?
    pub open spec fn overlaps(self, other: Rect) -> bool {
        self.x1 <= other.x2 && self.x2 >= other.x1 && self.y1 <= other.y2 && self.y2 >= other.y1
    }

    pub fn intersect(&self, other: &Rect) -> (b: bool)
        ensures
            b == self.overlaps(*other),
    {
        self.x1 <= other.x2 && self.x2 >= other.x1 && self.y1 <= other.y2 && self.y2 >= other.y1
    }

    /// Is `(x, y)` a cell of the room's floor? The floor leaves out the row `y1`
    /// and the column `x1`, which stay wall.
    pub open spec fn covers(self, x: int, y: int) -> bool {
        self.x1 < x <= self.x2 && self.y1 < y <= self.y2
    }

    pub open spec fn spec_center(self) -> Position {
        Position { x: half(self.x1 + self.x2) as i32, y: half(self.y1 + self.y2) as i32 }
    }

    pub fn center(&self) -> (p: Position)
        ensures
            p == self.spec_center(),
    {
        Position { x: midpoint(self.x1, self.x2), y: midpoint(self.y1, self.y2) }
    }
}

fn midpoint(a: i32, b: i32) -> (m: i32)
    ensures
        m == half(a + b),
{
    let v: i64 = a as i64 + b as i64;
    if v >= 0 {
        (v / 2) as i32
    } else {
        (-((-v) / 2)) as i32
    }
}

} // verus!
