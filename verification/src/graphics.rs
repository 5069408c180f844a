//! Plain geometry on whole coordinates.

use vstd::prelude::*;

verus! {

/// A coordinate, in whole logical pixels.
pub type Coord = i32;

/// A position.
#[derive(Debug, Clone, Copy, PartialEq, Eq, Structural)]
pub struct Point {
    pub x: Coord,
    pub y: Coord,
}

/// A displacement.
#[derive(Debug, Clone, Copy, PartialEq, Eq, Structural)]
pub struct Vector2D {
    pub x: Coord,
    pub y: Coord,
}

impl Point {
    pub fn new(x: Coord, y: Coord) -> (p: Point)
        ensures
            p == (Point { x, y }),
    {
        Point { x, y }
    }

    /// Whether the point can be moved by `vec` without leaving the range of
    /// the coordinates.
    pub open spec fn can_translate(self, vec: Vector2D) -> bool {
        &&& Coord::MIN <= self.x + vec.x <= Coord::MAX
        &&& Coord::MIN <= self.y + vec.y <= Coord::MAX
    }

    /// The point moved by `vec`.
    pub open spec fn translated(self, vec: Vector2D) -> Point {
        Point { x: (self.x + vec.x) as Coord, y: (self.y + vec.y) as Coord }
    }
}

impl Vector2D {
    pub fn new(x: Coord, y: Coord) -> (v: Vector2D)
        ensures
            v == (Vector2D { x, y }),
    {
        Vector2D { x, y }
    }
}

/// The place that an item takes: a rectangle that holds its left and top
/// edge and not its right and bottom edge. A rectangle without an extent
/// holds no point.
#[derive(Debug, Clone, Copy, PartialEq, Eq, Structural)]
pub struct Rect {
    pub origin: Point,
    pub width: Coord,
    pub height: Coord,
}

impl Rect {
    /// Whether `p` lies in the rectangle.
    pub open spec fn spec_contains(&self, p: Point) -> bool {
        &&& self.origin.x <= p.x < self.origin.x + self.width
        &&& self.origin.y <= p.y < self.origin.y + self.height
    }

    /// Whether `p` lies in the rectangle.
    #[verifier::when_used_as_spec(spec_contains)]
    pub fn contains(&self, p: Point) -> (inside: bool)
        ensures
            inside == self.spec_contains(p),
    {
        let x = p.x as i64;
        let y = p.y as i64;
        let left = self.origin.x as i64;
        let top = self.origin.y as i64;
        left <= x && x < left + self.width as i64 && top <= y && y < top + self.height as i64
    }

    /// The rectangle moved by `by`.
    pub fn translate(&self, by: Vector2D) -> (moved: Rect)
        requires
            self.origin.can_translate(by),
        ensures
            moved == (Rect { origin: self.origin.translated(by), ..*self }),
    {
        Rect {
            origin: Point { x: self.origin.x + by.x, y: self.origin.y + by.y },
            width: self.width,
            height: self.height,
        }
    }
}

impl Point {
    /// Whether the position can be told relative to `origin` without leaving
    /// the range of the coordinates.
    pub open spec fn can_be_relative_to(self, origin: Point) -> bool {
        &&& Coord::MIN <= self.x - origin.x <= Coord::MAX
        &&& Coord::MIN <= self.y - origin.y <= Coord::MAX
    }

    /// The position as seen from `origin`: the position in an item whose
    /// geometry begins at `origin`.
    pub fn relative_to(self, origin: Point) -> (p: Point)
        requires
            self.can_be_relative_to(origin),
        ensures
            p.x == self.x - origin.x,
            p.y == self.y - origin.y,
    {
        Point { x: self.x - origin.x, y: self.y - origin.y }
    }
}

/// A size in whole logical pixels.
#[derive(Debug, Clone, Copy, PartialEq, Eq, Structural)]
pub struct LogicalSize {
    pub width: u32,
    pub height: u32,
}

/// The size to give to the window of a canvas element that the page has laid
/// out with the size `existing`: that size, so that the element keeps it, but
/// in each direction in which the element has no extent, that of
/// `default_size`, the size that the window was created with.
pub fn canvas_window_size(existing: LogicalSize, default_size: LogicalSize) -> (size: LogicalSize)
    ensures
        size.width == (if existing.width > 0 {
            existing.width
        } else {
            default_size.width
        }),
        size.height == (if existing.height > 0 {
            existing.height
        } else {
            default_size.height
        }),
{
    LogicalSize {
        width: if existing.width > 0 {
            existing.width
        } else {
            default_size.width
        },
        height: if existing.height > 0 {
            existing.height
        } else {
            default_size.height
        },
    }
}

} // verus!
