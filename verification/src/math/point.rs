//! Points in two and three dimensions.
use vstd::prelude::*;

verus! {

/// A two-dimensional point.
#[derive(Copy, Clone, Debug)]
pub struct Point2<T> {
    /// The x component of the point.
    pub x: T,
    /// The y component of the point.
    pub y: T,
}

/// A three-dimensional point.
#[derive(Copy, Clone, Debug)]
pub struct Point3<T> {
    /// The x component of the point.
    pub x: T,
    /// The y component of the point.
    pub y: T,
    /// The z component of the point.
    pub z: T,
}

impl<T> Point2<T> {
    /// Creates a new `Point2`.
    pub fn new(x: T, y: T) -> (r: Self)
        ensures
            r.x == x,
            r.y == y,
    {
        Self { x, y }
    }
}

impl<T> Point3<T> {
    /// Creates a new `Point3`.
    pub fn new(x: T, y: T, z: T) -> (r: Self)
        ensures
            r.x == x,
            r.y == y,
            r.z == z,
    {
        Self { x, y, z }
    }
}

} // verus!
