//! Numeric traits shared by the math types.
use vstd::prelude::*;

verus! {

/// Types that have a `fn mini(&self, other: Self) -> Self`.
pub trait Mini: Sized {
    /// What `mini` returns.
    spec fn min_value(&self, other: Self) -> Self;

    fn mini(&self, other: Self) -> (r: Self)
        ensures
            r == self.min_value(other),
    ;
}

/// Types that have a `fn maxi(&self, other: Self) -> Self`.
pub trait Maxi: Sized {
    /// What `maxi` returns.
    spec fn max_value(&self, other: Self) -> Self;

    fn maxi(&self, other: Self) -> (r: Self)
        ensures
            r == self.max_value(other),
    ;
}

/// Values that can be stored in the math containers: copyable, ordered,
/// with a zero and a one.
pub trait ValueType: Copy + PartialEq + PartialOrd + Mini + Maxi {
    spec fn zero_value() -> Self;

    spec fn one_value() -> Self;

    fn zero() -> (r: Self)
        ensures
            r == Self::zero_value(),
    ;

    fn one() -> (r: Self)
        ensures
            r == Self::one_value(),
    ;
}


impl Mini for u8 {
    open spec fn min_value(&self, other: u8) -> u8 {
        if *self <= other {
            *self
        } else {
            other
        }
    }

    fn mini(&self, other: u8) -> (r: u8) {
        if *self <= other {
            *self
        } else {
            other
        }
    }
}

impl Maxi for u8 {
    open spec fn max_value(&self, other: u8) -> u8 {
        if *self >= other {
            *self
        } else {
            other
        }
    }

    fn maxi(&self, other: u8) -> (r: u8) {
        if *self >= other {
            *self
        } else {
            other
        }
    }
}

impl ValueType for u8 {
    open spec fn zero_value() -> u8 {
        0
    }

    open spec fn one_value() -> u8 {
        1
    }

    fn zero() -> (r: u8) {
        0
    }

    fn one() -> (r: u8) {
        1
    }
}

impl Mini for u16 {
    open spec fn min_value(&self, other: u16) -> u16 {
        if *self <= other {
            *self
        } else {
            other
        }
    }

    fn mini(&self, other: u16) -> (r: u16) {
        if *self <= other {
            *self
        } else {
            other
        }
    }
}

impl Maxi for u16 {
    open spec fn max_value(&self, other: u16) -> u16 {
        if *self >= other {
            *self
        } else {
            other
        }
    }

    fn maxi(&self, other: u16) -> (r: u16) {
        if *self >= other {
            *self
        } else {
            other
        }
    }
}

impl ValueType for u16 {
    open spec fn zero_value() -> u16 {
        0
    }

    open spec fn one_value() -> u16 {
        1
    }

    fn zero() -> (r: u16) {
        0
    }

    fn one() -> (r: u16) {
        1
    }
}

impl Mini for u32 {
    open spec fn min_value(&self, other: u32) -> u32 {
        if *self <= other {
            *self
        } else {
            other
        }
    }

    fn mini(&self, other: u32) -> (r: u32) {
        if *self <= other {
            *self
        } else {
            other
        }
    }
}

impl Maxi for u32 {
    open spec fn max_value(&self, other: u32) -> u32 {
        if *self >= other {
            *self
        } else {
            other
        }
    }

    fn maxi(&self, other: u32) -> (r: u32) {
        if *self >= other {
            *self
        } else {
            other
        }
    }
}

impl ValueType for u32 {
    open spec fn zero_value() -> u32 {
        0
    }

    open spec fn one_value() -> u32 {
        1
    }

    fn zero() -> (r: u32) {
        0
    }

    fn one() -> (r: u32) {
        1
    }
}

impl Mini for u64 {
    open spec fn min_value(&self, other: u64) -> u64 {
        if *self <= other {
            *self
        } else {
            other
        }
    }

    fn mini(&self, other: u64) -> (r: u64) {
        if *self <= other {
            *self
        } else {
            other
        }
    }
}

impl Maxi for u64 {
    open spec fn max_value(&self, other: u64) -> u64 {
        if *self >= other {
            *self
        } else {
            other
        }
    }

    fn maxi(&self, other: u64) -> (r: u64) {
        if *self >= other {
            *self
        } else {
            other
        }
    }
}

impl ValueType for u64 {
    open spec fn zero_value() -> u64 {
        0
    }

    open spec fn one_value() -> u64 {
        1
    }

    fn zero() -> (r: u64) {
        0
    }

    fn one() -> (r: u64) {
        1
    }
}

impl Mini for i8 {
    open spec fn min_value(&self, other: i8) -> i8 {
        if *self <= other {
            *self
        } else {
            other
        }
    }

    fn mini(&self, other: i8) -> (r: i8) {
        if *self <= other {
            *self
        } else {
            other
        }
    }
}

impl Maxi for i8 {
    open spec fn max_value(&self, other: i8) -> i8 {
        if *self >= other {
            *self
        } else {
            other
        }
    }

    fn maxi(&self, other: i8) -> (r: i8) {
        if *self >= other {
            *self
        } else {
            other
        }
    }
}

impl ValueType for i8 {
    open spec fn zero_value() -> i8 {
        0
    }

    open spec fn one_value() -> i8 {
        1
    }

    fn zero() -> (r: i8) {
        0
    }

    fn one() -> (r: i8) {
        1
    }
}

impl Mini for i16 {
    open spec fn min_value(&self, other: i16) -> i16 {
        if *self <= other {
            *self
        } else {
            other
        }
    }

    fn mini(&self, other: i16) -> (r: i16) {
        if *self <= other {
            *self
        } else {
            other
        }
    }
}

impl Maxi for i16 {
    open spec fn max_value(&self, other: i16) -> i16 {
        if *self >= other {
            *self
        } else {
            other
        }
    }

    fn maxi(&self, other: i16) -> (r: i16) {
        if *self >= other {
            *self
        } else {
            other
        }
    }
}

impl ValueType for i16 {
    open spec fn zero_value() -> i16 {
        0
    }

    open spec fn one_value() -> i16 {
        1
    }

    fn zero() -> (r: i16) {
        0
    }

    fn one() -> (r: i16) {
        1
    }
}

impl Mini for i32 {
    open spec fn min_value(&self, other: i32) -> i32 {
        if *self <= other {
            *self
        } else {
            other
        }
    }

    fn mini(&self, other: i32) -> (r: i32) {
        if *self <= other {
            *self
        } else {
            other
        }
    }
}

impl Maxi for i32 {
    open spec fn max_value(&self, other: i32) -> i32 {
        if *self >= other {
            *self
        } else {
            other
        }
    }

    fn maxi(&self, other: i32) -> (r: i32) {
        if *self >= other {
            *self
        } else {
            other
        }
    }
}

impl ValueType for i32 {
    open spec fn zero_value() -> i32 {
        0
    }

    open spec fn one_value() -> i32 {
        1
    }

    fn zero() -> (r: i32) {
        0
    }

    fn one() -> (r: i32) {
        1
    }
}

impl Mini for i64 {
    open spec fn min_value(&self, other: i64) -> i64 {
        if *self <= other {
            *self
        } else {
            other
        }
    }

    fn mini(&self, other: i64) -> (r: i64) {
        if *self <= other {
            *self
        } else {
            other
        }
    }
}

impl Maxi for i64 {
    open spec fn max_value(&self, other: i64) -> i64 {
        if *self >= other {
            *self
        } else {
            other
        }
    }

    fn maxi(&self, other: i64) -> (r: i64) {
        if *self >= other {
            *self
        } else {
            other
        }
    }
}

impl ValueType for i64 {
    open spec fn zero_value() -> i64 {
        0
    }

    open spec fn one_value() -> i64 {
        1
    }

    fn zero() -> (r: i64) {
        0
    }

    fn one() -> (r: i64) {
        1
    }
}

} // verus!
