//! Axis-aligned rectangles in character-cell coordinates.

use vstd::prelude::*;

verus! {

/// A rectangle on the screen: its top-left cell and its extent.
///
/// A point is inside when it lies on or after the top-left cell and strictly
/// before the far edges. No bounds are enforced on the fields; moving or
/// resizing a rectangle is plain field assignment.
#[derive(Clone, Copy, Debug, PartialEq, Eq, Structural)]
pub struct Position {
    pub x: i32,
    pub y: i32,
    pub width: i32,
    pub height: i32,
}

impl Position {
    /// Whether the point `(px, py)` lies inside this rectangle.
    pub open spec fn contains_spec(self, px: int, py: int) -> bool {
        &&& self.x <= px < self.x + self.width
        &&& self.y <= py < self.y + self.height
    }

    /// The horizontal centre of the rectangle, rounded towards the left edge.
    pub open spec fn center_x(self) -> int {
        self.x + self.width / 2
    }

    /// The vertical centre of the rectangle, rounded towards the top edge.
    pub open spec fn center_y(self) -> int {
        self.y + self.height / 2
    }

    /// The slot of a freshly made item: one row high, thirty cells wide, at the origin.
    pub fn new() -> (p: Position)
        ensures
            p == (Position { x: 0, y: 0, width: 30, height: 1 }),
    {
        Position { x: 0, y: 0, width: 30, height: 1 }
    }

    /// A rectangle with the given corner and extent.
    pub fn default(x_axis: i32, y_axis: i32, width: i32, height: i32) -> (p: Position)
        ensures
            p == (Position { x: x_axis, y: y_axis, width: width, height: height }),
    {
        Position { x: x_axis, y: y_axis, width: width, height: height }
    }

    /// Tests whether the point `(px, py)` lies inside this rectangle.
    pub fn contains(&self, px: i32, py: i32) -> (inside: bool)
        ensures
            inside == self.contains_spec(px as int, py as int),
            inside <==> (self.x <= px < self.x + self.width && self.y <= py < self.y + self.height),
    {
        let right: i64 = self.x as i64 + self.width as i64;
        let bottom: i64 = self.y as i64 + self.height as i64;
        self.x <= px && (px as i64) < right && self.y <= py && (py as i64) < bottom
    }
}

} // verus!
