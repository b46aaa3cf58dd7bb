//! Small shared value types.

use vstd::prelude::*;

verus! {

/// A pair of coordinates.
#[derive(Debug)]
pub struct Vector2<T> {
    pub x: T,
    pub y: T,
}

impl<T> Vector2<T> {
    /// Builds the pair `(x, y)`.
    pub fn new(x: T, y: T) -> (v: Vector2<T>)
        ensures
            v.x == x,
            v.y == y,
    {
        Vector2 { x, y }
    }
}

} // verus!
