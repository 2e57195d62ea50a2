//! Textures: values that vary over a surface.
use vstd::prelude::*;

verus! {

/// A texture that gives a value of type `T` at a surface point, described by
/// an interaction of type `I`.
pub trait Texture<T> {
    fn evaluate<I>(&self, si: &I) -> T;
}

/// A texture with the same value everywhere.
pub struct ConstantTexture<T> {
    value: T,
}

impl<T: Copy> ConstantTexture<T> {
    /// Creates a texture with `value` everywhere.
    pub fn new(value: T) -> (r: Self)
        ensures
            r.value() == value,
    {
        Self { value }
    }

    /// The texture's value.
    pub closed spec fn value(&self) -> T {
        self.value
    }
}

impl<T: Copy> Texture<T> for ConstantTexture<T> {
    fn evaluate<I>(&self, si: &I) -> (r: T)
        ensures
            r == self.value(),
    {
        self.value
    }
}

} // verus!
