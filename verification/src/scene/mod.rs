//! Scene descriptions and the settings they are loaded with.
use vstd::prelude::*;

pub mod mitsuba;
pub mod pbrt;
pub mod ply;

verus! {

/// How the bounding volume hierarchy splits a node's shapes.
#[derive(Clone, Copy, Debug, PartialEq, Eq, Structural)]
pub enum SplitMethod {
    SurfaceAreaHeuristic,
    Middle,
}

/// Settings for loading a scene.
#[derive(Clone)]
pub struct SceneLoadSettings {
    /// The scene file.
    pub path: String,
    pub split_method: SplitMethod,
    /// The largest number of shapes in a leaf of the bounding volume hierarchy.
    pub max_shapes_in_node: u16,
}

impl SceneLoadSettings {
    /// The settings a scene is loaded with unless others are given: no file,
    /// nodes split by the surface area heuristic, one shape in each leaf.
    pub fn default() -> (r: Self)
        ensures
            r.path@ == Seq::<char>::empty(),
            r.split_method == SplitMethod::SurfaceAreaHeuristic,
            r.max_shapes_in_node == 1,
    {
        Self {
            path: String::new(),
            split_method: SplitMethod::SurfaceAreaHeuristic,
            max_shapes_in_node: 1,
        }
    }
}

/// The image axis along which a camera's field of view is measured.
#[derive(Clone, Copy, Debug, PartialEq, Eq, Structural)]
pub enum FovAxis {
    X,
    Y,
}

/// The axis the field of view applies to for an image of the given size: the
/// shorter one.
pub fn fov_axis(x_resolution: u16, y_resolution: u16) -> (r: FovAxis)
    ensures
        r == (if y_resolution < x_resolution {
            FovAxis::Y
        } else {
            FovAxis::X
        }),
{
    if y_resolution < x_resolution {
        FovAxis::Y
    } else {
        FovAxis::X
    }
}

} // verus!
