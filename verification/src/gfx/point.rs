use vstd::prelude::*;

use super::{Rect, Vector2};

verus! {

/// A 2D point.
#[derive(Clone, Copy, Debug, PartialEq, Eq, Structural)]
pub struct Point<T: Copy = i32> {
    pub x: T,
    pub y: T,
}

impl<T: Copy> Point<T> {
    pub fn new(x: T, y: T) -> (p: Point<T>)
        ensures
            p == (Point { x, y }),
    {
        Point { x, y }
    }

    pub fn splat(value: T) -> (p: Point<T>)
        ensures
            p == (Point { x: value, y: value }),
    {
        Point::new(value, value)
    }
}

/// `true` when `p` lies in the half-open rectangle `rect`.
pub open spec fn spec_inside(p: Point, rect: Rect) -> bool {
    &&& p.x >= rect.origin.x
    &&& p.y >= rect.origin.y
    &&& p.x < rect.origin.x + (rect.size.width as i32)
    &&& p.y < rect.origin.y + (rect.size.height as i32)
}

impl Point {
    /// Whether the point is inside `rect` (right and bottom edges excluded).
    pub fn inside(&self, rect: Rect) -> (b: bool)
        requires
            i32::MIN <= rect.origin.x + (rect.size.width as i32) <= i32::MAX,
            i32::MIN <= rect.origin.y + (rect.size.height as i32) <= i32::MAX,
        ensures
            b == spec_inside(*self, rect),
    {
        self.x >= rect.origin.x && self.y >= rect.origin.y && self.x < rect.origin.x
            + rect.size.width as i32 && self.y < rect.origin.y + rect.size.height as i32
    }
}

impl<T: Copy> Vector2<T> for Point<T> {
    fn x(&self) -> (r: T)
        ensures
            r == self.x,
    {
        self.x
    }

    fn y(&self) -> (r: T)
        ensures
            r == self.y,
    {
        self.y
    }
}

} // verus!
