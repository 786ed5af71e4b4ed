use vstd::prelude::*;

use super::Vector2;

verus! {

/// A 2D size.
#[derive(Clone, Copy, Debug, PartialEq, Eq, Structural)]
pub struct Size<T: Copy = u32> {
    pub width: T,
    pub height: T,
}

impl<T: Copy> Size<T> {
    pub fn new(width: T, height: T) -> (s: Size<T>)
        ensures
            s == (Size { width, height }),
    {
        Size { width, height }
    }

    pub fn splat(value: T) -> (s: Size<T>)
        ensures
            s == (Size { width: value, height: value }),
    {
        Size::new(value, value)
    }
}

impl<T: Copy> Vector2<T> for Size<T> {
    fn x(&self) -> (r: T)
        ensures
            r == self.width,
    {
        self.width
    }

    fn y(&self) -> (r: T)
        ensures
            r == self.height,
    {
        self.height
    }
}

} // verus!
