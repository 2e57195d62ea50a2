//! Two-, three- and four-dimensional vectors.
use vstd::prelude::*;

use crate::common::{Maxi, Mini, ValueType};
use core::cmp::Ordering;
use vstd::std_specs::cmp::PartialOrdSpec;

verus! {

/// `a > b`, as `T`'s ordering sees it.
pub open spec fn greater<T: PartialOrd>(a: T, b: T) -> bool {
    a.partial_cmp_spec(&b) == Some(Ordering::Greater)
}

/// A two-dimensional vector
#[derive(Copy, Clone, Debug)]
pub struct Vec2<T> {
    /// The x component of the vector
    pub x: T,
    /// The y component of the vector
    pub y: T,
}

/// A three-dimensional vector
#[derive(Copy, Clone, Debug)]
pub struct Vec3<T> {
    /// The x component of the vector
    pub x: T,
    /// The y component of the vector
    pub y: T,
    /// The z component of the vector
    pub z: T,
}

/// A four-dimensional vector
#[derive(Copy, Clone, Debug)]
pub struct Vec4<T> {
    /// The x component of the vector
    pub x: T,
    /// The y component of the vector
    pub y: T,
    /// The z component of the vector
    pub z: T,
    /// The w component of the vector
    pub w: T,
}

impl<T: ValueType> Vec2<T> {
    /// Returns the value of the minumum component.
    pub fn min_comp(&self) -> (r: T)
        ensures
            r == self.x.min_value(self.y),
    {
        self.x.mini(self.y)
    }

    /// Returns the value of the maximum component.
    pub fn max_comp(&self) -> (r: T)
        ensures
            r == self.x.max_value(self.y),
    {
        self.x.maxi(self.y)
    }

    /// Returns the index of the maximum component.
    pub fn max_dimension(&self) -> (r: usize)
        ensures
            T::obeys_partial_cmp_spec() ==> r == if greater(self.x, self.y) {
                0usize
            } else {
                1usize
            },
    {
        if self.x > self.y {
            0
        } else {
            1
        }
    }
}

impl<T: ValueType> Vec3<T> {
    /// Returns the value of the minumum component.
    pub fn min_comp(&self) -> (r: T)
        ensures
            r == self.x.min_value(self.y.min_value(self.z)),
    {
        self.x.mini(self.y.mini(self.z))
    }

    /// Returns the value of the maximum component.
    pub fn max_comp(&self) -> (r: T)
        ensures
            r == self.x.max_value(self.y.max_value(self.z)),
    {
        self.x.maxi(self.y.maxi(self.z))
    }

    /// Returns the index of the maximum component.
    pub fn max_dimension(&self) -> (r: usize)
        ensures
            T::obeys_partial_cmp_spec() ==> r == if greater(self.x, self.y) {
                if greater(self.x, self.z) {
                    0usize
                } else {
                    2usize
                }
            } else if greater(self.y, self.z) {
                1usize
            } else {
                2usize
            },
    {
        if self.x > self.y {
            if self.x > self.z {
                0
            } else {
                2
            }
        } else {
            if self.y > self.z {
                1
            } else {
                2
            }
        }
    }
}

impl<T: ValueType> Vec4<T> {
    /// Returns the value of the minumum component.
    pub fn min_comp(&self) -> (r: T)
        ensures
            r == self.x.min_value(self.y).min_value(self.z.min_value(self.w)),
    {
        let a = self.x.mini(self.y);
        let b = self.z.mini(self.w);
        a.mini(b)
    }

    /// Returns the value of the maximum component.
    pub fn max_comp(&self) -> (r: T)
        ensures
            r == self.x.max_value(self.y).max_value(self.z.max_value(self.w)),
    {
        let a = self.x.maxi(self.y);
        let b = self.z.maxi(self.w);
        a.maxi(b)
    }

    /// Returns the index of the maximum component.
    pub fn max_dimension(&self) -> (r: usize)
        ensures
            T::obeys_partial_cmp_spec() ==> r == if greater(self.x, self.y) {
                if greater(self.x, self.z) {
                    if greater(self.x, self.w) {
                        0usize
                    } else {
                        3usize
                    }
                } else if greater(self.z, self.w) {
                    2usize
                } else {
                    3usize
                }
            } else if greater(self.y, self.z) {
                if greater(self.y, self.w) {
                    1usize
                } else {
                    3usize
                }
            } else if greater(self.z, self.w) {
                2usize
            } else {
                3usize
            },
    {
        if self.x > self.y {
            if self.x > self.z {
                if self.x > self.w {
                    0
                } else {
                    3
                }
            } else {
                if self.z > self.w {
                    2
                } else {
                    3
                }
            }
        } else {
            if self.y > self.z {
                if self.y > self.w {
                    1
                } else {
                    3
                }
            } else {
                if self.z > self.w {
                    2
                } else {
                    3
                }
            }
        }
    }
}

} // verus!
