//! Sampler selection and parameters.
use vstd::prelude::*;

pub mod stratified;
pub mod uniform;

verus! {

/// The parameters of the stratified sampler.
pub type StratifiedParams = stratified::Params;

/// The parameters of the uniform sampler.
pub type UniformParams = uniform::Params;

/// The sampler to render with, and its parameters.
#[derive(Copy, Clone)]
pub enum SamplerType {
    Uniform(UniformParams),
    Stratified(StratifiedParams),
}

impl Default for SamplerType {
    fn default() -> (r: Self)
        ensures
            r matches SamplerType::Stratified(p) && p.pixel_samples.x == 1 && p.pixel_samples.y
                == 1 && p.symmetric_dimensions && p.jitter_samples,
    {
        SamplerType::Stratified(stratified::Params::default())
    }
}

} // verus!
