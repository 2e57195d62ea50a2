//! What reading a Mitsuba 2 scene from its XML events gives, stated over the
//! views of the events.
//!
//! The reader keeps a stack of the elements it is inside of whose children
//! it reads (a camera, a material, a light, a mesh, a transform). Within each
//! it counts how deep it is, and it skips elements that it has no use for
//! together with all they hold.
use vstd::prelude::*;

use super::types::{
    Attribute, Context, EmitterView, MaterialView, MitsubaErrorView, ReflectanceView, RgbName,
    SceneView, SensorView, ShapeView, TransformOpView, XmlEventView,
};

verus! {

/// The value of the last attribute named `key`.
pub open spec fn attr_of(attrs: Seq<(Seq<char>, Seq<char>)>, key: Seq<char>) -> Option<Seq<char>>
    decreases attrs.len(),
{
    if attrs.len() == 0 {
        None
    } else if attrs.last().0 == key {
        Some(attrs.last().1)
    } else {
        attr_of(attrs.drop_last(), key)
    }
}

/// The value of an `rgb` element that should be named `expected`.
pub open spec fn rgb_of(attrs: Seq<(Seq<char>, Seq<char>)>, expected: Seq<char>, which: RgbName) -> Result<
    Seq<char>,
    MitsubaErrorView,
> {
    match attr_of(attrs, "name"@) {
        None => Err(MitsubaErrorView::MissingAttribute(Attribute::Name)),
        Some(n) => if n != expected {
            Err(MitsubaErrorView::UnexpectedRgbName(which, n))
        } else {
            match attr_of(attrs, "value"@) {
                None => Err(MitsubaErrorView::MissingAttribute(Attribute::Value)),
                Some(v) => Ok(v),
            }
        },
    }
}

/// An element whose children are being read, with what has been read of
/// them so far.
pub enum FrameView {
    /// A camera, with the axis its field of view is given along.
    Sensor { fov_axis: Option<Seq<char>>, fov: Option<Seq<char>>, transform: Seq<TransformOpView> },
    Transform { ops: Seq<TransformOpView> },
    /// A two-sided material, with the id of its `bsdf` element.
    TwoSided { id: Option<Seq<char>>, material: MaterialView },
    Diffuse { id: Option<Seq<char>>, reflectance: ReflectanceView },
    Dielectric {
        id: Option<Seq<char>>,
        int_ior: Option<Seq<char>>,
        ext_ior: Option<Seq<char>>,
        specular_reflectance: Option<Seq<char>>,
        specular_transmittance: Option<Seq<char>>,
    },
    Emitter(EmitterView),
    Shape {
        filename: Option<Seq<char>>,
        material_id: Option<Seq<char>>,
        transform: Seq<TransformOpView>,
    },
}

/// A frame, how many elements deep the reader is inside it, and how many
/// of those it is skipping.
pub struct FrameStateView {
    pub kind: FrameView,
    pub level: nat,
    pub ignore: Option<nat>,
}

/// The reader's state: the scene so far, how deep it is skipping at the top,
/// and the frames it is inside of.
pub struct MachineView {
    pub scene: SceneView,
    pub ignore: Option<nat>,
    pub frames: Seq<FrameStateView>,
}

/// What a start tag does within a frame.
pub enum StartView {
    /// The frame takes in the element.
    Update(FrameView),
    /// The element and all it holds are skipped.
    Ignore,
    /// The element's children are read in a frame of their own.
    Push(FrameView),
}

/// What a start tag does at the top of the document.
pub enum TopStartView {
    Nothing,
    Ignore,
    Push(FrameView),
}

pub open spec fn top_start(name: Seq<char>, a: Seq<(Seq<char>, Seq<char>)>) -> Result<
    TopStartView,
    MitsubaErrorView,
> {
    if name == "scene"@ {
        match attr_of(a, "version"@) {
            None => Err(MitsubaErrorView::MissingAttribute(Attribute::Version)),
            Some(v) => if v == "2.1.0"@ {
                Ok(TopStartView::Nothing)
            } else {
                Err(MitsubaErrorView::WrongVersion)
            },
        }
    } else if name == "default"@ {
        Ok(TopStartView::Nothing)
    } else if name == "integrator"@ {
        Ok(TopStartView::Ignore)
    } else if name == "sensor"@ {
        Ok(
            TopStartView::Push(
                FrameView::Sensor { fov_axis: None, fov: None, transform: Seq::empty() },
            ),
        )
    } else if name == "bsdf"@ {
        match attr_of(a, "type"@) {
            None => Err(MitsubaErrorView::MissingAttribute(Attribute::Type)),
            Some(t) => if t == "twosided"@ {
                Ok(
                    TopStartView::Push(
                        FrameView::TwoSided {
                            id: attr_of(a, "id"@),
                            material: MaterialView::Matte(ReflectanceView::Full),
                        },
                    ),
                )
            } else if t == "diffuse"@ {
                Ok(
                    TopStartView::Push(
                        FrameView::Diffuse { id: attr_of(a, "id"@), reflectance: ReflectanceView::Half },
                    ),
                )
            } else if t == "dielectric"@ {
                Ok(
                    TopStartView::Push(
                        FrameView::Dielectric {
                            id: attr_of(a, "id"@),
                            int_ior: None,
                            ext_ior: None,
                            specular_reflectance: None,
                            specular_transmittance: None,
                        },
                    ),
                )
            } else {
                Err(MitsubaErrorView::UnknownBsdfType(t))
            },
        }
    } else if name == "emitter"@ {
        match attr_of(a, "type"@) {
            None => Err(MitsubaErrorView::MissingAttribute(Attribute::Type)),
            Some(t) => if t == "constant"@ {
                Ok(TopStartView::Push(FrameView::Emitter(EmitterView::Constant { radiance: None })))
            } else if t == "point"@ {
                Ok(
                    TopStartView::Push(
                        FrameView::Emitter(
                            EmitterView::Point { x: None, y: None, z: None, intensity: None },
                        ),
                    ),
                )
            } else if t == "spot"@ {
                Ok(
                    TopStartView::Push(
                        FrameView::Emitter(
                            EmitterView::Spot {
                                transform: Seq::empty(),
                                intensity: None,
                                cutoff_angle: None,
                                beam_width: None,
                            },
                        ),
                    ),
                )
            } else {
                Ok(TopStartView::Ignore)
            },
        }
    } else if name == "shape"@ {
        match attr_of(a, "type"@) {
            None => Err(MitsubaErrorView::MissingAttribute(Attribute::Type)),
            Some(t) => if t == "ply"@ {
                Ok(
                    TopStartView::Push(
                        FrameView::Shape { filename: None, material_id: None, transform: Seq::empty() },
                    ),
                )
            } else {
                Err(MitsubaErrorView::UnexpectedShapeType(t))
            },
        }
    } else {
        Err(MitsubaErrorView::UnknownElement(name))
    }
}

/// The `name` and `value` attributes of a parameter element.
pub open spec fn name_value(a: Seq<(Seq<char>, Seq<char>)>) -> Result<(Seq<char>, Seq<char>), MitsubaErrorView> {
    match attr_of(a, "name"@) {
        None => Err(MitsubaErrorView::MissingAttribute(Attribute::Name)),
        Some(n) => match attr_of(a, "value"@) {
            None => Err(MitsubaErrorView::MissingAttribute(Attribute::Value)),
            Some(v) => Ok((n, v)),
        },
    }
}

/// The `value` attribute of an element.
pub open spec fn value_of(a: Seq<(Seq<char>, Seq<char>)>) -> Result<Seq<char>, MitsubaErrorView> {
    match attr_of(a, "value"@) {
        None => Err(MitsubaErrorView::MissingAttribute(Attribute::Value)),
        Some(v) => Ok(v),
    }
}

/// The axes that the attributes after the first of a point light's `point`
/// element set, in order.
pub open spec fn point_axes(
    a: Seq<(Seq<char>, Seq<char>)>,
    x: Option<Seq<char>>,
    y: Option<Seq<char>>,
    z: Option<Seq<char>>,
) -> Result<(Option<Seq<char>>, Option<Seq<char>>, Option<Seq<char>>), MitsubaErrorView>
    decreases a.len(),
{
    if a.len() == 0 {
        Ok((x, y, z))
    } else if a[0].0 == "x"@ {
        point_axes(a.drop_first(), Some(a[0].1), y, z)
    } else if a[0].0 == "y"@ {
        point_axes(a.drop_first(), x, Some(a[0].1), z)
    } else if a[0].0 == "z"@ {
        point_axes(a.drop_first(), x, y, Some(a[0].1))
    } else {
        Err(MitsubaErrorView::InvalidPointAxis(a[0].0))
    }
}

pub open spec fn sensor_start(
    fov_axis: Option<Seq<char>>,
    fov: Option<Seq<char>>,
    transform: Seq<TransformOpView>,
    name: Seq<char>,
    a: Seq<(Seq<char>, Seq<char>)>,
) -> Result<StartView, MitsubaErrorView> {
    if name == "string"@ {
        match name_value(a) {
            Err(e) => Err(e),
            Ok((n, v)) => if n == "fov_axis"@ {
                Ok(StartView::Update(FrameView::Sensor { fov_axis: Some(v), fov, transform }))
            } else {
                Err(MitsubaErrorView::UnknownParameter(Context::Sensor, n))
            },
        }
    } else if name == "float"@ {
        match name_value(a) {
            Err(e) => Err(e),
            Ok((n, v)) => if n == "fov"@ {
                Ok(StartView::Update(FrameView::Sensor { fov_axis, fov: Some(v), transform }))
            } else if n == "near_clip"@ || n == "far_clip"@ || n == ""@ {
                Ok(StartView::Update(FrameView::Sensor { fov_axis, fov, transform }))
            } else {
                Err(MitsubaErrorView::UnknownParameter(Context::Sensor, n))
            },
        }
    } else if name == "transform"@ {
        Ok(StartView::Push(FrameView::Transform { ops: Seq::empty() }))
    } else if name == "sampler"@ || name == "film"@ {
        Ok(StartView::Ignore)
    } else {
        Err(MitsubaErrorView::UnknownDataType(Context::Sensor, name))
    }
}

pub open spec fn transform_start(
    ops: Seq<TransformOpView>,
    name: Seq<char>,
    a: Seq<(Seq<char>, Seq<char>)>,
) -> Result<StartView, MitsubaErrorView> {
    let with = |op: TransformOpView| Ok(StartView::Update(FrameView::Transform { ops: ops.push(op) }));
    if name == "rotate"@ {
        match attr_of(a, "angle"@) {
            None => Err(MitsubaErrorView::MissingAttribute(Attribute::Angle)),
            Some(angle) => with(
                TransformOpView::Rotate {
                    x: attr_of(a, "x"@),
                    y: attr_of(a, "y"@),
                    z: attr_of(a, "z"@),
                    angle,
                },
            ),
        }
    } else if name == "translate"@ {
        match value_of(a) {
            Err(e) => Err(e),
            Ok(v) => with(TransformOpView::Translate(v)),
        }
    } else if name == "scale"@ {
        match value_of(a) {
            Err(e) => Err(e),
            Ok(v) => with(TransformOpView::Scale(v)),
        }
    } else if name == "matrix"@ {
        match value_of(a) {
            Err(e) => Err(e),
            Ok(v) => with(TransformOpView::Matrix(v)),
        }
    } else {
        Err(MitsubaErrorView::UnknownDataType(Context::Transform, name))
    }
}

pub open spec fn dielectric_start(
    id: Option<Seq<char>>,
    int_ior: Option<Seq<char>>,
    ext_ior: Option<Seq<char>>,
    specular_reflectance: Option<Seq<char>>,
    specular_transmittance: Option<Seq<char>>,
    name: Seq<char>,
    a: Seq<(Seq<char>, Seq<char>)>,
) -> Result<StartView, MitsubaErrorView> {
    if name == "rgb"@ {
        match rgb_of(a, "specular_reflectance"@, RgbName::SpecularReflectanceOrTransmittance) {
            Ok(v) => Ok(
                StartView::Update(
                    FrameView::Dielectric {
                        id,
                        int_ior,
                        ext_ior,
                        specular_reflectance: Some(v),
                        specular_transmittance,
                    },
                ),
            ),
            Err(_) => match rgb_of(
                a,
                "specular_transmittance"@,
                RgbName::SpecularReflectanceOrTransmittance,
            ) {
                Ok(v) => Ok(
                    StartView::Update(
                        FrameView::Dielectric {
                            id,
                            int_ior,
                            ext_ior,
                            specular_reflectance,
                            specular_transmittance: Some(v),
                        },
                    ),
                ),
                Err(_) => match attr_of(a, "name"@) {
                    None => Err(MitsubaErrorView::MissingAttribute(Attribute::Name)),
                    Some(n) => Err(MitsubaErrorView::UnknownParameter(Context::Dielectric, n)),
                },
            },
        }
    } else if name == "float"@ {
        match name_value(a) {
            Err(e) => Err(e),
            Ok((n, v)) => if n == "int_ior"@ {
                Ok(
                    StartView::Update(
                        FrameView::Dielectric {
                            id,
                            int_ior: Some(v),
                            ext_ior,
                            specular_reflectance,
                            specular_transmittance,
                        },
                    ),
                )
            } else if n == "ext_ior"@ {
                Ok(
                    StartView::Update(
                        FrameView::Dielectric {
                            id,
                            int_ior,
                            ext_ior: Some(v),
                            specular_reflectance,
                            specular_transmittance,
                        },
                    ),
                )
            } else {
                Err(MitsubaErrorView::UnknownParameter(Context::Dielectric, n))
            },
        }
    } else {
        Err(MitsubaErrorView::UnknownDataType(Context::Dielectric, name))
    }
}

pub open spec fn emitter_start(e: EmitterView, name: Seq<char>, a: Seq<(Seq<char>, Seq<char>)>) -> Result<
    StartView,
    MitsubaErrorView,
> {
    match e {
        EmitterView::Constant { radiance } => if name == "rgb"@ {
            match rgb_of(a, "radiance"@, RgbName::Radiance) {
                Err(err) => Err(err),
                Ok(v) => Ok(
                    StartView::Update(FrameView::Emitter(EmitterView::Constant { radiance: Some(v) })),
                ),
            }
        } else {
            Err(MitsubaErrorView::UnknownDataType(Context::ConstantEmitter, name))
        },
        EmitterView::Point { x, y, z, intensity } => if name == "point"@ {
            match attr_of(a, "name"@) {
                None => Err(MitsubaErrorView::MissingAttribute(Attribute::Name)),
                Some(n) => if n != "position"@ {
                    Err(MitsubaErrorView::ExpectedPosition)
                } else {
                    match point_axes(a.drop_first(), x, y, z) {
                        Err(err) => Err(err),
                        Ok((x2, y2, z2)) => Ok(
                            StartView::Update(
                                FrameView::Emitter(
                                    EmitterView::Point { x: x2, y: y2, z: z2, intensity },
                                ),
                            ),
                        ),
                    }
                },
            }
        } else if name == "rgb"@ {
            match rgb_of(a, "intensity"@, RgbName::Intensity) {
                Err(err) => Err(err),
                Ok(v) => Ok(
                    StartView::Update(
                        FrameView::Emitter(EmitterView::Point { x, y, z, intensity: Some(v) }),
                    ),
                ),
            }
        } else {
            Err(MitsubaErrorView::UnknownDataType(Context::PointLight, name))
        },
        EmitterView::Spot { transform, intensity, cutoff_angle, beam_width } => if name == "float"@ {
            match attr_of(a, "name"@) {
                None => Err(MitsubaErrorView::MissingAttribute(Attribute::Name)),
                Some(n) => if n == "cutoff_angle"@ {
                    match value_of(a) {
                        Err(err) => Err(err),
                        Ok(v) => Ok(
                            StartView::Update(
                                FrameView::Emitter(
                                    EmitterView::Spot {
                                        transform,
                                        intensity,
                                        cutoff_angle: Some(v),
                                        beam_width,
                                    },
                                ),
                            ),
                        ),
                    }
                } else if n == "beam_width"@ {
                    match value_of(a) {
                        Err(err) => Err(err),
                        Ok(v) => Ok(
                            StartView::Update(
                                FrameView::Emitter(
                                    EmitterView::Spot {
                                        transform,
                                        intensity,
                                        cutoff_angle,
                                        beam_width: Some(v),
                                    },
                                ),
                            ),
                        ),
                    }
                } else {
                    Err(MitsubaErrorView::UnknownParameter(Context::SpotLight, n))
                },
            }
        } else if name == "transform"@ {
            Ok(StartView::Push(FrameView::Transform { ops: Seq::empty() }))
        } else if name == "rgb"@ {
            match rgb_of(a, "intensity"@, RgbName::Intensity) {
                Err(err) => Err(err),
                Ok(v) => Ok(
                    StartView::Update(
                        FrameView::Emitter(
                            EmitterView::Spot {
                                transform,
                                intensity: Some(v),
                                cutoff_angle,
                                beam_width,
                            },
                        ),
                    ),
                ),
            }
        } else {
            Err(MitsubaErrorView::UnknownDataType(Context::SpotLight, name))
        },
    }
}

pub open spec fn shape_start(
    filename: Option<Seq<char>>,
    material_id: Option<Seq<char>>,
    transform: Seq<TransformOpView>,
    name: Seq<char>,
    a: Seq<(Seq<char>, Seq<char>)>,
) -> Result<StartView, MitsubaErrorView> {
    if name == "string"@ {
        match attr_of(a, "name"@) {
            None => Err(MitsubaErrorView::MissingAttribute(Attribute::Name)),
            Some(n) => if n != "filename"@ {
                Err(MitsubaErrorView::ExpectedFilename)
            } else {
                match value_of(a) {
                    Err(e) => Err(e),
                    Ok(v) => Ok(
                        StartView::Update(
                            FrameView::Shape { filename: Some(v), material_id, transform },
                        ),
                    ),
                }
            },
        }
    } else if name == "ref"@ {
        match attr_of(a, "name"@) {
            None => Err(MitsubaErrorView::MissingAttribute(Attribute::Name)),
            Some(n) => if n != "bsdf"@ {
                Err(MitsubaErrorView::ExpectedBsdfRef(n))
            } else {
                match attr_of(a, "id"@) {
                    None => Err(MitsubaErrorView::MissingAttribute(Attribute::Id)),
                    Some(id) => Ok(
                        StartView::Update(
                            FrameView::Shape { filename, material_id: Some(id), transform },
                        ),
                    ),
                }
            },
        }
    } else if name == "transform"@ {
        Ok(StartView::Push(FrameView::Transform { ops: Seq::empty() }))
    } else {
        Err(MitsubaErrorView::UnknownDataType(Context::Shape, name))
    }
}

/// What a start tag does inside a frame of kind `k`.
pub open spec fn frame_start(k: FrameView, name: Seq<char>, a: Seq<(Seq<char>, Seq<char>)>) -> Result<
    StartView,
    MitsubaErrorView,
> {
    match k {
        FrameView::Sensor { fov_axis, fov, transform } => sensor_start(
            fov_axis,
            fov,
            transform,
            name,
            a,
        ),
        FrameView::Transform { ops } => transform_start(ops, name, a),
        FrameView::TwoSided { id, material } => if name == "bsdf"@ {
            Ok(StartView::Push(FrameView::Diffuse { id: None, reflectance: ReflectanceView::Half }))
        } else if name == "rgb"@ {
            match rgb_of(a, "reflectance"@, RgbName::Reflectance) {
                Err(e) => Err(e),
                Ok(v) => Ok(
                    StartView::Update(
                        FrameView::TwoSided {
                            id,
                            material: MaterialView::Matte(ReflectanceView::Rgb(v)),
                        },
                    ),
                ),
            }
        } else {
            Err(MitsubaErrorView::UnknownDataType(Context::TwoSided, name))
        },
        FrameView::Diffuse { id, reflectance } => if name == "rgb"@ {
            match rgb_of(a, "reflectance"@, RgbName::Reflectance) {
                Err(e) => Err(e),
                Ok(v) => Ok(
                    StartView::Update(FrameView::Diffuse { id, reflectance: ReflectanceView::Rgb(v) }),
                ),
            }
        } else {
            Err(MitsubaErrorView::UnknownDataType(Context::Diffuse, name))
        },
        FrameView::Dielectric {
            id,
            int_ior,
            ext_ior,
            specular_reflectance,
            specular_transmittance,
        } => dielectric_start(
            id,
            int_ior,
            ext_ior,
            specular_reflectance,
            specular_transmittance,
            name,
            a,
        ),
        FrameView::Emitter(e) => emitter_start(e, name, a),
        FrameView::Shape { filename, material_id, transform } => shape_start(
            filename,
            material_id,
            transform,
            name,
            a,
        ),
    }
}

/// What a frame gives once its end tag is read.
pub enum FinishedView {
    Ops(Seq<TransformOpView>),
    /// A material, with the id of its `bsdf` element.
    Material(Option<Seq<char>>, MaterialView),
    Sensor(SensorView),
    Emitter(EmitterView),
    /// A mesh's file, the id of its material, and its transform.
    Shape(Seq<char>, Seq<char>, Seq<TransformOpView>),
}

pub open spec fn finish_frame(k: FrameView) -> Result<FinishedView, MitsubaErrorView> {
    match k {
        FrameView::Sensor { fov_axis, fov, transform } => Ok(
            FinishedView::Sensor(SensorView { fov_axis, fov, transform }),
        ),
        FrameView::Transform { ops } => Ok(FinishedView::Ops(ops)),
        FrameView::TwoSided { id, material } => Ok(FinishedView::Material(id, material)),
        FrameView::Diffuse { id, reflectance } => Ok(
            FinishedView::Material(id, MaterialView::Matte(reflectance)),
        ),
        FrameView::Dielectric {
            id,
            int_ior,
            ext_ior,
            specular_reflectance,
            specular_transmittance,
        } => Ok(
            FinishedView::Material(
                id,
                MaterialView::Glass { int_ior, ext_ior, specular_reflectance, specular_transmittance },
            ),
        ),
        FrameView::Emitter(e) => Ok(FinishedView::Emitter(e)),
        FrameView::Shape { filename, material_id, transform } => match filename {
            None => Err(MitsubaErrorView::MeshWithNoPly),
            Some(f) => match material_id {
                None => Err(MitsubaErrorView::MeshWithNoMaterial),
                Some(id) => Ok(FinishedView::Shape(f, id, transform)),
            },
        },
    }
}

/// A frame after a child frame has finished inside it.
pub open spec fn absorb_frame(parent: FrameView, f: FinishedView) -> FrameView {
    match (parent, f) {
        (FrameView::Sensor { fov_axis, fov, .. }, FinishedView::Ops(o)) => FrameView::Sensor {
            fov_axis,
            fov,
            transform: o,
        },
        (
            FrameView::Emitter(EmitterView::Spot { intensity, cutoff_angle, beam_width, .. }),
            FinishedView::Ops(o),
        ) => FrameView::Emitter(EmitterView::Spot { transform: o, intensity, cutoff_angle, beam_width }),
        (FrameView::Shape { filename, material_id, .. }, FinishedView::Ops(o)) => FrameView::Shape {
            filename,
            material_id,
            transform: o,
        },
        (FrameView::TwoSided { id, .. }, FinishedView::Material(_, m)) => FrameView::TwoSided {
            id,
            material: m,
        },
        _ => parent,
    }
}

/// The index of the last material named `id`.
pub open spec fn last_material(materials: Seq<(Seq<char>, MaterialView)>, id: Seq<char>) -> Option<int>
    decreases materials.len(),
{
    if materials.len() == 0 {
        None
    } else if materials.last().0 == id {
        Some(materials.len() - 1)
    } else {
        last_material(materials.drop_last(), id)
    }
}

/// The scene after a frame at the top has finished.
pub open spec fn absorb_top(scene: SceneView, f: FinishedView) -> Result<SceneView, MitsubaErrorView> {
    match f {
        FinishedView::Material(id, m) => match id {
            None => Err(MitsubaErrorView::MissingAttribute(Attribute::Id)),
            Some(i) => Ok(SceneView { materials: scene.materials.push((i, m)), ..scene }),
        },
        FinishedView::Sensor(s) => Ok(SceneView { sensor: Some(s), ..scene }),
        FinishedView::Emitter(e) => Ok(SceneView { emitters: scene.emitters.push(e), ..scene }),
        FinishedView::Shape(filename, id, transform) => match last_material(scene.materials, id) {
            None => Err(MitsubaErrorView::UnknownMeshMaterial(id)),
            Some(k) => Ok(
                SceneView {
                    shapes: scene.shapes.push(ShapeView { filename, material: k, transform }),
                    ..scene
                },
            ),
        },
        FinishedView::Ops(_) => Ok(scene),
    }
}

/// One fewer element to skip.
pub open spec fn ignore_after_end(ignore: Option<nat>) -> Option<nat> {
    match ignore {
        Some(l) => if l > 1 {
            Some((l - 1) as nat)
        } else {
            None
        },
        None => None,
    }
}

/// The state after the innermost frame, `f`, has finished and been taken
/// off `frames`.
pub open spec fn pop_frame(scene: SceneView, ignore: Option<nat>, frames: Seq<FrameStateView>, f: FrameView) -> Result<
    MachineView,
    MitsubaErrorView,
> {
    match finish_frame(f) {
        Err(e) => Err(e),
        Ok(fin) => if frames.len() == 0 {
            match absorb_top(scene, fin) {
                Err(e) => Err(e),
                Ok(s) => Ok(MachineView { scene: s, ignore, frames }),
            }
        } else {
            let p = frames.last();
            Ok(
                MachineView {
                    scene,
                    ignore,
                    frames: frames.update(
                        frames.len() - 1,
                        FrameStateView { kind: absorb_frame(p.kind, fin), level: p.level, ignore: p.ignore },
                    ),
                },
            )
        },
    }
}

pub open spec fn start_element(m: MachineView, name: Seq<char>, a: Seq<(Seq<char>, Seq<char>)>) -> Result<
    MachineView,
    MitsubaErrorView,
> {
    if m.frames.len() == 0 {
        match m.ignore {
            Some(l) => Ok(MachineView { ignore: Some(l + 1), ..m }),
            None => match top_start(name, a) {
                Err(e) => Err(e),
                Ok(TopStartView::Nothing) => Ok(m),
                Ok(TopStartView::Ignore) => Ok(MachineView { ignore: Some(1), ..m }),
                Ok(TopStartView::Push(k)) => Ok(
                    MachineView {
                        frames: seq![FrameStateView { kind: k, level: 0, ignore: None }],
                        ..m
                    },
                ),
            },
        }
    } else {
        let last = m.frames.len() - 1;
        let f = m.frames.last();
        match f.ignore {
            Some(l) => Ok(
                MachineView {
                    frames: m.frames.update(
                        last,
                        FrameStateView { kind: f.kind, level: f.level + 1, ignore: Some(l + 1) },
                    ),
                    ..m
                },
            ),
            None => match frame_start(f.kind, name, a) {
                Err(e) => Err(e),
                Ok(StartView::Update(k)) => Ok(
                    MachineView {
                        frames: m.frames.update(
                            last,
                            FrameStateView { kind: k, level: f.level + 1, ignore: None },
                        ),
                        ..m
                    },
                ),
                Ok(StartView::Ignore) => Ok(
                    MachineView {
                        frames: m.frames.update(
                            last,
                            FrameStateView { kind: f.kind, level: f.level + 1, ignore: Some(1) },
                        ),
                        ..m
                    },
                ),
                Ok(StartView::Push(k)) => Ok(
                    MachineView {
                        frames: m.frames.push(FrameStateView { kind: k, level: 0, ignore: None }),
                        ..m
                    },
                ),
            },
        }
    }
}

pub open spec fn end_element(m: MachineView) -> Result<MachineView, MitsubaErrorView> {
    if m.frames.len() == 0 {
        Ok(MachineView { ignore: ignore_after_end(m.ignore), ..m })
    } else {
        let f = m.frames.last();
        if f.level == 0 {
            pop_frame(m.scene, m.ignore, m.frames.drop_last(), f.kind)
        } else {
            Ok(
                MachineView {
                    frames: m.frames.update(
                        m.frames.len() - 1,
                        FrameStateView {
                            kind: f.kind,
                            level: (f.level - 1) as nat,
                            ignore: ignore_after_end(f.ignore),
                        },
                    ),
                    ..m
                },
            )
        }
    }
}

/// The state after one event.
pub open spec fn step(m: MachineView, ev: XmlEventView) -> Result<MachineView, MitsubaErrorView> {
    match ev {
        XmlEventView::StartElement { name, attributes } => start_element(m, name, attributes),
        XmlEventView::EndElement { .. } => end_element(m),
        XmlEventView::Characters(s) => Err(MitsubaErrorView::UnexpectedCharacters(s)),
        XmlEventView::CData(s) => Err(MitsubaErrorView::UnexpectedCData(s)),
        XmlEventView::ProcessingInstruction(s) => Err(
            MitsubaErrorView::UnexpectedProcessingInstruction(s),
        ),
        XmlEventView::Whitespace => Ok(m),
        XmlEventView::Other => Ok(m),
    }
}

/// The scene once the events run out: every frame still open finishes, the
/// innermost first.
pub open spec fn finish_all(scene: SceneView, ignore: Option<nat>, frames: Seq<FrameStateView>) -> Result<
    SceneView,
    MitsubaErrorView,
>
    decreases frames.len(),
{
    if frames.len() == 0 {
        Ok(scene)
    } else {
        let rest = frames.drop_last();
        match finish_frame(frames.last().kind) {
            Err(e) => Err(e),
            Ok(fin) => if rest.len() == 0 {
                absorb_top(scene, fin)
            } else {
                let p = rest.last();
                finish_all(
                    scene,
                    ignore,
                    rest.update(
                        rest.len() - 1,
                        FrameStateView { kind: absorb_frame(p.kind, fin), level: p.level, ignore: p.ignore },
                    ),
                )
            },
        }
    }
}

/// The scene read from the state `m` and the events that follow.
pub open spec fn run(m: MachineView, events: Seq<XmlEventView>) -> Result<SceneView, MitsubaErrorView>
    decreases events.len(),
{
    if events.len() == 0 {
        finish_all(m.scene, m.ignore, m.frames)
    } else {
        match step(m, events[0]) {
            Err(e) => Err(e),
            Ok(m2) => run(m2, events.drop_first()),
        }
    }
}

pub open spec fn empty_scene() -> SceneView {
    SceneView { sensor: None, materials: Seq::empty(), emitters: Seq::empty(), shapes: Seq::empty() }
}

/// The scene that the events of a Mitsuba 2 scene file describe, or the
/// first problem met in them.
pub open spec fn mitsuba_spec(events: Seq<XmlEventView>) -> Result<SceneView, MitsubaErrorView> {
    run(MachineView { scene: empty_scene(), ignore: None, frames: Seq::empty() }, events)
}

/// Every mesh of the scene refers to one of its materials.
pub open spec fn meshes_have_materials(scene: SceneView) -> bool {
    forall|k: int|
        0 <= k < scene.shapes.len() ==> 0 <= #[trigger] scene.shapes[k].material
            < scene.materials.len()
}

proof fn lemma_last_material(materials: Seq<(Seq<char>, MaterialView)>, id: Seq<char>)
    ensures
        last_material(materials, id) matches Some(k) ==> 0 <= k < materials.len() && materials[k].0
            == id,
    decreases materials.len(),
{
    if materials.len() > 0 && materials.last().0 != id {
        lemma_last_material(materials.drop_last(), id);
    }
}

proof fn lemma_absorb_top_keeps(scene: SceneView, f: FinishedView)
    requires
        meshes_have_materials(scene),
    ensures
        absorb_top(scene, f) matches Ok(s) ==> meshes_have_materials(s),
{
    if let FinishedView::Shape(_, id, _) = f {
        lemma_last_material(scene.materials, id);
    }
}

proof fn lemma_pop_frame_keeps(
    scene: SceneView,
    ignore: Option<nat>,
    frames: Seq<FrameStateView>,
    k: FrameView,
)
    requires
        meshes_have_materials(scene),
    ensures
        pop_frame(scene, ignore, frames, k) matches Ok(m) ==> meshes_have_materials(m.scene),
{
    if let Ok(fin) = finish_frame(k) {
        lemma_absorb_top_keeps(scene, fin);
    }
}

proof fn lemma_step_keeps(m: MachineView, ev: XmlEventView)
    requires
        meshes_have_materials(m.scene),
    ensures
        step(m, ev) matches Ok(m2) ==> meshes_have_materials(m2.scene),
{
    if ev is EndElement && m.frames.len() > 0 && m.frames.last().level == 0 {
        lemma_pop_frame_keeps(m.scene, m.ignore, m.frames.drop_last(), m.frames.last().kind);
    }
}

proof fn lemma_finish_all_keeps(scene: SceneView, ignore: Option<nat>, frames: Seq<FrameStateView>)
    requires
        meshes_have_materials(scene),
    ensures
        finish_all(scene, ignore, frames) matches Ok(s) ==> meshes_have_materials(s),
    decreases frames.len(),
{
    if frames.len() > 0 {
        if let Ok(fin) = finish_frame(frames.last().kind) {
            let rest = frames.drop_last();
            if rest.len() == 0 {
                lemma_absorb_top_keeps(scene, fin);
            } else {
                let p = rest.last();
                lemma_finish_all_keeps(
                    scene,
                    ignore,
                    rest.update(
                        rest.len() - 1,
                        FrameStateView { kind: absorb_frame(p.kind, fin), level: p.level, ignore: p.ignore },
                    ),
                );
            }
        }
    }
}

proof fn lemma_run_keeps(m: MachineView, events: Seq<XmlEventView>)
    requires
        meshes_have_materials(m.scene),
    ensures
        run(m, events) matches Ok(s) ==> meshes_have_materials(s),
    decreases events.len(),
{
    if events.len() == 0 {
        lemma_finish_all_keeps(m.scene, m.ignore, m.frames);
    } else {
        lemma_step_keeps(m, events[0]);
        if let Ok(m2) = step(m, events[0]) {
            lemma_run_keeps(m2, events.drop_first());
        }
    }
}

/// Whatever the events, every mesh of a scene read from them refers to one
/// of the scene's materials.
pub proof fn lemma_meshes_have_materials(events: Seq<XmlEventView>)
    ensures
        mitsuba_spec(events) matches Ok(s) ==> meshes_have_materials(s),
{
    lemma_run_keeps(MachineView { scene: empty_scene(), ignore: None, frames: Seq::empty() }, events);
}

/// A `rotate` element read inside a `transform` adds one rotation to its
/// steps: the rotation's axis components are the element's `x`, `y` and `z`
/// attributes, each in its own place, and its angle is the `angle`
/// attribute. Without an `angle` the scene cannot be read.
pub proof fn lemma_rotate_axes(m: MachineView, a: Seq<(Seq<char>, Seq<char>)>)
    requires
        m.frames.len() > 0,
        m.frames.last().ignore is None,
        m.frames.last().kind is Transform,
    ensures
        ({
            let ev = XmlEventView::StartElement { name: "rotate"@, attributes: a };
            let ops = m.frames.last().kind->ops;
            match attr_of(a, "angle"@) {
                Some(angle) => step(m, ev) matches Ok(m2) && m2.frames.len() == m.frames.len()
                    && m2.frames.last().kind == FrameView::Transform {
                    ops: ops.push(
                        TransformOpView::Rotate {
                            x: attr_of(a, "x"@),
                            y: attr_of(a, "y"@),
                            z: attr_of(a, "z"@),
                            angle,
                        },
                    ),
                },
                None => step(m, ev) == Err::<MachineView, MitsubaErrorView>(
                    MitsubaErrorView::MissingAttribute(Attribute::Angle),
                ),
            }
        }),
{
}

/// The value found for an attribute is that of the last attribute with its
/// name, and an attribute with another name is never taken for it.
pub proof fn lemma_attr_of_last(a: Seq<(Seq<char>, Seq<char>)>, key: Seq<char>, k: int)
    requires
        0 <= k < a.len(),
        a[k].0 == key,
        forall|j: int| k < j < a.len() ==> (#[trigger] a[j]).0 != key,
    ensures
        attr_of(a, key) == Some(a[k].1),
    decreases a.len(),
{
    if k < a.len() - 1 {
        assert(a.drop_last()[k] == a[k]);
        assert forall|j: int| k < j < a.drop_last().len() implies (#[trigger] a.drop_last()[j]).0 != key by {
            assert(a.drop_last()[j] == a[j]);
        }
        lemma_attr_of_last(a.drop_last(), key, k);
    }
}

/// Where no attribute has the name, none is found.
pub proof fn lemma_attr_of_absent(a: Seq<(Seq<char>, Seq<char>)>, key: Seq<char>)
    requires
        forall|j: int| 0 <= j < a.len() ==> (#[trigger] a[j]).0 != key,
    ensures
        attr_of(a, key) is None,
    decreases a.len(),
{
    if a.len() > 0 {
        assert forall|j: int| 0 <= j < a.drop_last().len() implies (#[trigger] a.drop_last()[j]).0 != key by {
            assert(a.drop_last()[j] == a[j]);
        }
        lemma_attr_of_absent(a.drop_last(), key);
    }
}

/// `translate`, `scale` and `matrix` elements read inside a `transform` add
/// one step each, of their own kind, holding their `value` attribute.
pub proof fn lemma_transform_steps(m: MachineView, a: Seq<(Seq<char>, Seq<char>)>, v: Seq<char>)
    requires
        m.frames.len() > 0,
        m.frames.last().ignore is None,
        m.frames.last().kind is Transform,
        attr_of(a, "value"@) == Some(v),
    ensures
        ({
            let ops = m.frames.last().kind->ops;
            let after = |name: Seq<char>| step(m, XmlEventView::StartElement { name, attributes: a });
            &&& after("translate"@) matches Ok(m2) && m2.frames.len() == m.frames.len()
                && m2.frames.last().kind == FrameView::Transform {
                ops: ops.push(TransformOpView::Translate(v)),
            }
            &&& after("scale"@) matches Ok(m2) && m2.frames.len() == m.frames.len()
                && m2.frames.last().kind == FrameView::Transform {
                ops: ops.push(TransformOpView::Scale(v)),
            }
            &&& after("matrix"@) matches Ok(m2) && m2.frames.len() == m.frames.len()
                && m2.frames.last().kind == FrameView::Transform {
                ops: ops.push(TransformOpView::Matrix(v)),
            }
        }),
{
    reveal_strlit("rotate");
    reveal_strlit("translate");
    reveal_strlit("scale");
    reveal_strlit("matrix");
    assert("rotate"@.len() != "translate"@.len());
    assert("rotate"@.len() != "scale"@.len());
    assert("translate"@.len() != "scale"@.len());
    assert("rotate"@[0] != "matrix"@[0]);
    assert("translate"@.len() != "matrix"@.len());
    assert("scale"@.len() != "matrix"@.len());
}

/// The attributes after the first of a point light's `point` element set the
/// axis each is named after: `x`, `y` and `z`, each to its value, in order.
pub proof fn lemma_point_axes(
    x: Option<Seq<char>>,
    y: Option<Seq<char>>,
    z: Option<Seq<char>>,
    v: Seq<char>,
)
    ensures
        point_axes(seq![("x"@, v)], x, y, z) == Ok::<_, MitsubaErrorView>((Some(v), y, z)),
        point_axes(seq![("y"@, v)], x, y, z) == Ok::<_, MitsubaErrorView>((x, Some(v), z)),
        point_axes(seq![("z"@, v)], x, y, z) == Ok::<_, MitsubaErrorView>((x, y, Some(v))),
{
    reveal_strlit("x");
    reveal_strlit("y");
    reveal_strlit("z");
    assert("x"@ != "y"@ && "x"@ != "z"@ && "y"@ != "z"@) by {
        assert("x"@[0] != "y"@[0]);
        assert("x"@[0] != "z"@[0]);
        assert("y"@[0] != "z"@[0]);
    }
    reveal_with_fuel(point_axes, 2);
    assert(seq![("x"@, v)].drop_first() =~= Seq::<(Seq<char>, Seq<char>)>::empty());
    assert(seq![("y"@, v)].drop_first() =~= Seq::<(Seq<char>, Seq<char>)>::empty());
    assert(seq![("z"@, v)].drop_first() =~= Seq::<(Seq<char>, Seq<char>)>::empty());
}

} // verus!
