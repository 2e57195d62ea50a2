pub mod bounds;
pub mod matrix;
pub mod normal;
pub mod point;
pub mod spectrum;
pub mod transform;
pub mod vector;
