//! The uniform sampler's parameters.
use vstd::prelude::*;

verus! {

/// Parameters of the uniform sampler.
#[derive(Copy, Clone)]
pub struct Params {
    /// Samples taken in each pixel.
    pub pixel_samples: u32,
}

impl Default for Params {
    fn default() -> (r: Self)
        ensures
            r.pixel_samples == 1,
    {
        Self { pixel_samples: 1 }
    }
}

} // verus!
