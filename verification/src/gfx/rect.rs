use vstd::prelude::*;

use super::{Point, Size};

verus! {

/// A rectangle given by its origin and size.
#[derive(Clone, Copy, Debug, PartialEq, Eq, Structural)]
pub struct Rect<P: Copy = i32, S: Copy = u32> {
    pub origin: Point<P>,
    pub size: Size<S>,
}

impl<P: Copy, S: Copy> Rect<P, S> {
    pub fn new(x: P, y: P, width: S, height: S) -> (r: Self)
        ensures
            r == (Rect { origin: Point { x, y }, size: Size { width, height } }),
    {
        Rect { origin: Point::new(x, y), size: Size::new(width, height) }
    }
}

} // verus!
