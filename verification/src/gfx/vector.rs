use vstd::prelude::*;

verus! {

/// A two-component vector.
pub trait Vector2<T: Copy> {
    fn x(&self) -> T;

    fn y(&self) -> T;
}

/// A three-component vector.
pub trait Vector3<T: Copy> {
    fn x(&self) -> T;

    fn y(&self) -> T;

    fn z(&self) -> T;
}

/// A numeric conversion with the semantics of `as`.
pub trait Cast<T> {
    fn cast(self) -> T;
}

impl Cast<usize> for u32 {
    fn cast(self) -> (r: usize)
        ensures
            r == self as usize,
    {
        self as usize
    }
}

impl Cast<usize> for i32 {
    fn cast(self) -> (r: usize)
        ensures
            r == self as usize,
    {
        self as usize
    }
}

impl Cast<u32> for u8 {
    fn cast(self) -> (r: u32)
        ensures
            r == self as u32,
    {
        self as u32
    }
}

} // verus!
