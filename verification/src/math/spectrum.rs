//! RGB spectral power distributions.
use vstd::prelude::*;

verus! {

/// An RGB spectral power distribution.
#[derive(Copy, Clone, Debug)]
pub struct Spectrum<T> {
    /// The r component of the spd
    pub r: T,
    /// The g component of the spd
    pub g: T,
    /// The b component of the spd
    pub b: T,
}

impl<T> Spectrum<T> {
    /// Creates a new `Spectrum`.
    pub fn new(r: T, g: T, b: T) -> (s: Self)
        ensures
            s.r == r,
            s.g == g,
            s.b == b,
    {
        Self { r, g, b }
    }
}

} // verus!
