//! Surface normals.
use vstd::prelude::*;

use super::vector::Vec3;

verus! {

/// A three-dimensional surface normal.
#[derive(Copy, Clone, Debug)]
pub struct Normal<T> {
    /// The x component of the normal
    pub x: T,
    /// The y component of the normal
    pub y: T,
    /// The z component of the normal
    pub z: T,
}

impl<T> Normal<T> {
    /// Creates a new `Normal`.
    pub fn new(x: T, y: T, z: T) -> (r: Self)
        ensures
            r.x == x,
            r.y == y,
            r.z == z,
    {
        Self { x, y, z }
    }

    /// The normal with the components of `v`.
    pub fn from(v: Vec3<T>) -> (r: Self)
        ensures
            r.x == v.x,
            r.y == v.y,
            r.z == v.z,
    {
        Self::new(v.x, v.y, v.z)
    }
}

} // verus!
