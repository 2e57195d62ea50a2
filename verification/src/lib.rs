//! A physically based renderer's core data structures and scene-description
//! front end, with their behaviour stated and proved.
pub mod common;
pub mod math;
pub mod renderer;
pub mod sampling;
pub mod scene;
pub mod textures;
