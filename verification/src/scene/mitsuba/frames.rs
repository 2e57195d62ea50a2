//! The frames of the scene reader and what a start tag does in each.
use vstd::prelude::*;

use super::spec::{
    attr_of, emitter_start, frame_start, name_value, point_axes, rgb_of, sensor_start, shape_start,
    top_start, transform_start, dielectric_start, value_of, FrameStateView, FrameView, StartView,
    TopStartView,
};
use super::types::{
    attrs_view, opt_view, ops_view, Attribute, Context, EmitterDesc, EmitterView, MaterialDesc,
    MaterialView, MitsubaError, MitsubaErrorView, Reflectance, ReflectanceView, RgbName,
    TransformOp, TransformOpView,
};

verus! {

/// An element whose children are being read.
pub enum Frame {
    Sensor { fov_axis: Option<String>, fov: Option<String>, transform: Vec<TransformOp> },
    Transform { ops: Vec<TransformOp> },
    TwoSided { id: Option<String>, material: MaterialDesc },
    Diffuse { id: Option<String>, reflectance: Reflectance },
    Dielectric {
        id: Option<String>,
        int_ior: Option<String>,
        ext_ior: Option<String>,
        specular_reflectance: Option<String>,
        specular_transmittance: Option<String>,
    },
    Emitter(EmitterDesc),
    Shape { filename: Option<String>, material_id: Option<String>, transform: Vec<TransformOp> },
}

impl View for Frame {
    type V = FrameView;

    open spec fn view(&self) -> FrameView {
        match self {
            Frame::Sensor { fov_axis, fov, transform } => FrameView::Sensor {
                fov_axis: opt_view(*fov_axis),
                fov: opt_view(*fov),
                transform: ops_view(transform@),
            },
            Frame::Transform { ops } => FrameView::Transform { ops: ops_view(ops@) },
            Frame::TwoSided { id, material } => FrameView::TwoSided {
                id: opt_view(*id),
                material: material@,
            },
            Frame::Diffuse { id, reflectance } => FrameView::Diffuse {
                id: opt_view(*id),
                reflectance: reflectance@,
            },
            Frame::Dielectric {
                id,
                int_ior,
                ext_ior,
                specular_reflectance,
                specular_transmittance,
            } => FrameView::Dielectric {
                id: opt_view(*id),
                int_ior: opt_view(*int_ior),
                ext_ior: opt_view(*ext_ior),
                specular_reflectance: opt_view(*specular_reflectance),
                specular_transmittance: opt_view(*specular_transmittance),
            },
            Frame::Emitter(e) => FrameView::Emitter(e@),
            Frame::Shape { filename, material_id, transform } => FrameView::Shape {
                filename: opt_view(*filename),
                material_id: opt_view(*material_id),
                transform: ops_view(transform@),
            },
        }
    }
}

/// A frame with how deep the reader is inside it and how deep it skips.
pub struct FrameState {
    pub kind: Frame,
    pub level: usize,
    pub ignore: Option<usize>,
}

pub open spec fn opt_nat(o: Option<usize>) -> Option<nat> {
    match o {
        Some(l) => Some(l as nat),
        None => None,
    }
}

impl View for FrameState {
    type V = FrameStateView;

    open spec fn view(&self) -> FrameStateView {
        FrameStateView { kind: self.kind@, level: self.level as nat, ignore: opt_nat(self.ignore) }
    }
}

/// What a start tag does within a frame; the frame comes back where it is
/// unchanged.
pub enum Start {
    Update(Frame),
    Ignore(Frame),
    Push(Frame, Frame),
}

/// Whether `r` is what a start tag does in a frame `k` by the spec `s`.
pub open spec fn start_matches(
    r: Result<Start, MitsubaError>,
    k: FrameView,
    s: Result<StartView, MitsubaErrorView>,
) -> bool {
    match (r, s) {
        (Ok(Start::Update(f)), Ok(StartView::Update(g))) => f@ == g,
        (Ok(Start::Ignore(f)), Ok(StartView::Ignore)) => f@ == k,
        (Ok(Start::Push(p, c)), Ok(StartView::Push(g))) => p@ == k && c@ == g,
        (Err(e), Err(e2)) => e@ == e2,
        _ => false,
    }
}

pub enum TopStart {
    Nothing,
    Ignore,
    Push(Frame),
}

pub open spec fn top_start_matches(
    r: Result<TopStart, MitsubaError>,
    s: Result<TopStartView, MitsubaErrorView>,
) -> bool {
    match (r, s) {
        (Ok(TopStart::Nothing), Ok(TopStartView::Nothing)) => true,
        (Ok(TopStart::Ignore), Ok(TopStartView::Ignore)) => true,
        (Ok(TopStart::Push(f)), Ok(TopStartView::Push(g))) => f@ == g,
        (Err(e), Err(e2)) => e@ == e2,
        _ => false,
    }
}

pub open spec fn str_res_view(r: Result<String, MitsubaError>) -> Result<Seq<char>, MitsubaErrorView> {
    match r {
        Ok(s) => Ok(s@),
        Err(e) => Err(e@),
    }
}

/// Whether `s` holds the text `lit`.
pub fn eq_lit(s: &String, lit: &str) -> (r: bool)
    ensures
        r == (s@ == lit@),
{
    let o = lit.to_owned();
    *s == o
}

/// The value of the last attribute named `key`.
pub fn find_attr(attrs: &Vec<(String, String)>, key: &str) -> (r: Option<String>)
    ensures
        opt_view(r) == attr_of(attrs_view(attrs@), key@),
{
    let ghost a = attrs_view(attrs@);
    let mut i = attrs.len();
    proof {
        assert(a.take(i as int) =~= a);
    }
    while i > 0
        invariant
            i <= attrs@.len(),
            a == attrs_view(attrs@),
            attr_of(a, key@) == attr_of(a.take(i as int), key@),
        decreases i,
    {
        proof {
            assert(a.take(i as int).drop_last() =~= a.take(i - 1));
            assert(a.take(i as int).last() == a[i - 1]);
        }
        if eq_lit(&attrs[i - 1].0, key) {
            return Some(attrs[i - 1].1.clone());
        }
        i -= 1;
    }
    None
}

fn missing(a: Attribute) -> (r: MitsubaError)
    ensures
        r@ == MitsubaErrorView::MissingAttribute(a),
{
    MitsubaError::MissingAttribute(a)
}

/// The value of an `rgb` element that should be named `expected`.
pub fn find_rgb(attrs: &Vec<(String, String)>, expected: &str, which: RgbName) -> (r: Result<
    String,
    MitsubaError,
>)
    ensures
        str_res_view(r) == rgb_of(attrs_view(attrs@), expected@, which),
{
    match find_attr(attrs, "name") {
        None => Err(missing(Attribute::Name)),
        Some(n) => {
            if !eq_lit(&n, expected) {
                Err(MitsubaError::UnexpectedRgbName(which, n))
            } else {
                match find_attr(attrs, "value") {
                    None => Err(missing(Attribute::Value)),
                    Some(v) => Ok(v),
                }
            }
        },
    }
}

/// The `value` attribute.
pub fn find_value(attrs: &Vec<(String, String)>) -> (r: Result<String, MitsubaError>)
    ensures
        str_res_view(r) == value_of(attrs_view(attrs@)),
{
    match find_attr(attrs, "value") {
        None => Err(missing(Attribute::Value)),
        Some(v) => Ok(v),
    }
}

/// The `name` and `value` attributes.
pub fn find_name_value(attrs: &Vec<(String, String)>) -> (r: Result<(String, String), MitsubaError>)
    ensures
        match (r, name_value(attrs_view(attrs@))) {
            (Ok((n, v)), Ok((n2, v2))) => n@ == n2 && v@ == v2,
            (Err(e), Err(e2)) => e@ == e2,
            _ => false,
        },
{
    match find_attr(attrs, "name") {
        None => Err(missing(Attribute::Name)),
        Some(n) => match find_attr(attrs, "value") {
            None => Err(missing(Attribute::Value)),
            Some(v) => Ok((n, v)),
        },
    }
}

pub proof fn lemma_no_ops()
    ensures
        ops_view(Seq::<TransformOp>::empty()) == Seq::<TransformOpView>::empty(),
{
    assert(ops_view(Seq::<TransformOp>::empty()) =~= Seq::<TransformOpView>::empty());
}

/// What a start tag does at the top of the document.
pub fn top_start_exec(name: &String, attrs: &Vec<(String, String)>) -> (r: Result<
    TopStart,
    MitsubaError,
>)
    ensures
        top_start_matches(r, top_start(name@, attrs_view(attrs@))),
{
    proof {
        lemma_no_ops();
    }
    if eq_lit(name, "scene") {
        match find_attr(attrs, "version") {
            None => Err(missing(Attribute::Version)),
            Some(v) => {
                if eq_lit(&v, "2.1.0") {
                    Ok(TopStart::Nothing)
                } else {
                    Err(MitsubaError::WrongVersion)
                }
            },
        }
    } else if eq_lit(name, "default") {
        Ok(TopStart::Nothing)
    } else if eq_lit(name, "integrator") {
        Ok(TopStart::Ignore)
    } else if eq_lit(name, "sensor") {
        Ok(TopStart::Push(Frame::Sensor { fov_axis: None, fov: None, transform: Vec::new() }))
    } else if eq_lit(name, "bsdf") {
        match find_attr(attrs, "type") {
            None => Err(missing(Attribute::Type)),
            Some(t) => {
                if eq_lit(&t, "twosided") {
                    Ok(
                        TopStart::Push(
                            Frame::TwoSided {
                                id: find_attr(attrs, "id"),
                                material: MaterialDesc::Matte(Reflectance::Full),
                            },
                        ),
                    )
                } else if eq_lit(&t, "diffuse") {
                    Ok(
                        TopStart::Push(
                            Frame::Diffuse { id: find_attr(attrs, "id"), reflectance: Reflectance::Half },
                        ),
                    )
                } else if eq_lit(&t, "dielectric") {
                    Ok(
                        TopStart::Push(
                            Frame::Dielectric {
                                id: find_attr(attrs, "id"),
                                int_ior: None,
                                ext_ior: None,
                                specular_reflectance: None,
                                specular_transmittance: None,
                            },
                        ),
                    )
                } else {
                    Err(MitsubaError::UnknownBsdfType(t))
                }
            },
        }
    } else if eq_lit(name, "emitter") {
        match find_attr(attrs, "type") {
            None => Err(missing(Attribute::Type)),
            Some(t) => {
                if eq_lit(&t, "constant") {
                    Ok(TopStart::Push(Frame::Emitter(EmitterDesc::Constant { radiance: None })))
                } else if eq_lit(&t, "point") {
                    Ok(
                        TopStart::Push(
                            Frame::Emitter(
                                EmitterDesc::Point { x: None, y: None, z: None, intensity: None },
                            ),
                        ),
                    )
                } else if eq_lit(&t, "spot") {
                    Ok(
                        TopStart::Push(
                            Frame::Emitter(
                                EmitterDesc::Spot {
                                    transform: Vec::new(),
                                    intensity: None,
                                    cutoff_angle: None,
                                    beam_width: None,
                                },
                            ),
                        ),
                    )
                } else {
                    Ok(TopStart::Ignore)
                }
            },
        }
    } else if eq_lit(name, "shape") {
        match find_attr(attrs, "type") {
            None => Err(missing(Attribute::Type)),
            Some(t) => {
                if eq_lit(&t, "ply") {
                    Ok(
                        TopStart::Push(
                            Frame::Shape { filename: None, material_id: None, transform: Vec::new() },
                        ),
                    )
                } else {
                    Err(MitsubaError::UnexpectedShapeType(t))
                }
            },
        }
    } else {
        Err(MitsubaError::UnknownElement(name.clone()))
    }
}

fn sensor_start_exec(
    fov_axis: Option<String>,
    fov: Option<String>,
    transform: Vec<TransformOp>,
    name: &String,
    attrs: &Vec<(String, String)>,
) -> (r: Result<Start, MitsubaError>)
    ensures
        start_matches(
            r,
            FrameView::Sensor {
                fov_axis: opt_view(fov_axis),
                fov: opt_view(fov),
                transform: ops_view(transform@),
            },
            sensor_start(
                opt_view(fov_axis),
                opt_view(fov),
                ops_view(transform@),
                name@,
                attrs_view(attrs@),
            ),
        ),
{
    proof {
        lemma_no_ops();
    }
    if eq_lit(name, "string") {
        match find_name_value(attrs) {
            Err(e) => Err(e),
            Ok((n, v)) => {
                if eq_lit(&n, "fov_axis") {
                    Ok(Start::Update(Frame::Sensor { fov_axis: Some(v), fov, transform }))
                } else {
                    Err(MitsubaError::UnknownParameter(Context::Sensor, n))
                }
            },
        }
    } else if eq_lit(name, "float") {
        match find_name_value(attrs) {
            Err(e) => Err(e),
            Ok((n, v)) => {
                if eq_lit(&n, "fov") {
                    Ok(Start::Update(Frame::Sensor { fov_axis, fov: Some(v), transform }))
                } else if eq_lit(&n, "near_clip") || eq_lit(&n, "far_clip") || eq_lit(&n, "") {
                    Ok(Start::Update(Frame::Sensor { fov_axis, fov, transform }))
                } else {
                    Err(MitsubaError::UnknownParameter(Context::Sensor, n))
                }
            },
        }
    } else if eq_lit(name, "transform") {
        Ok(Start::Push(Frame::Sensor { fov_axis, fov, transform }, Frame::Transform { ops: Vec::new() }))
    } else if eq_lit(name, "sampler") || eq_lit(name, "film") {
        Ok(Start::Ignore(Frame::Sensor { fov_axis, fov, transform }))
    } else {
        Err(MitsubaError::UnknownDataType(Context::Sensor, name.clone()))
    }
}

fn transform_start_exec(ops: Vec<TransformOp>, name: &String, attrs: &Vec<(String, String)>) -> (r:
    Result<Start, MitsubaError>)
    ensures
        start_matches(
            r,
            FrameView::Transform { ops: ops_view(ops@) },
            transform_start(ops_view(ops@), name@, attrs_view(attrs@)),
        ),
{
    let ghost old_ops = ops@;
    let mut ops = ops;
    let op = if eq_lit(name, "rotate") {
        match find_attr(attrs, "angle") {
            None => {
                return Err(missing(Attribute::Angle));
            },
            Some(angle) => TransformOp::Rotate {
                x: find_attr(attrs, "x"),
                y: find_attr(attrs, "y"),
                z: find_attr(attrs, "z"),
                angle,
            },
        }
    } else if eq_lit(name, "translate") {
        match find_value(attrs) {
            Err(e) => {
                return Err(e);
            },
            Ok(v) => TransformOp::Translate(v),
        }
    } else if eq_lit(name, "scale") {
        match find_value(attrs) {
            Err(e) => {
                return Err(e);
            },
            Ok(v) => TransformOp::Scale(v),
        }
    } else if eq_lit(name, "matrix") {
        match find_value(attrs) {
            Err(e) => {
                return Err(e);
            },
            Ok(v) => TransformOp::Matrix(v),
        }
    } else {
        return Err(MitsubaError::UnknownDataType(Context::Transform, name.clone()));
    };
    let ghost opv = op@;
    ops.push(op);
    proof {
        assert(ops_view(ops@) =~= ops_view(old_ops).push(opv));
    }
    Ok(Start::Update(Frame::Transform { ops }))
}

fn dielectric_start_exec(
    id: Option<String>,
    int_ior: Option<String>,
    ext_ior: Option<String>,
    specular_reflectance: Option<String>,
    specular_transmittance: Option<String>,
    name: &String,
    attrs: &Vec<(String, String)>,
) -> (r: Result<Start, MitsubaError>)
    ensures
        start_matches(
            r,
            FrameView::Dielectric {
                id: opt_view(id),
                int_ior: opt_view(int_ior),
                ext_ior: opt_view(ext_ior),
                specular_reflectance: opt_view(specular_reflectance),
                specular_transmittance: opt_view(specular_transmittance),
            },
            dielectric_start(
                opt_view(id),
                opt_view(int_ior),
                opt_view(ext_ior),
                opt_view(specular_reflectance),
                opt_view(specular_transmittance),
                name@,
                attrs_view(attrs@),
            ),
        ),
{
    if eq_lit(name, "rgb") {
        match find_rgb(attrs, "specular_reflectance", RgbName::SpecularReflectanceOrTransmittance) {
            Ok(v) => Ok(
                Start::Update(
                    Frame::Dielectric {
                        id,
                        int_ior,
                        ext_ior,
                        specular_reflectance: Some(v),
                        specular_transmittance,
                    },
                ),
            ),
            Err(_) => match find_rgb(
                attrs,
                "specular_transmittance",
                RgbName::SpecularReflectanceOrTransmittance,
            ) {
                Ok(v) => Ok(
                    Start::Update(
                        Frame::Dielectric {
                            id,
                            int_ior,
                            ext_ior,
                            specular_reflectance,
                            specular_transmittance: Some(v),
                        },
                    ),
                ),
                Err(_) => match find_attr(attrs, "name") {
                    None => Err(missing(Attribute::Name)),
                    Some(n) => Err(MitsubaError::UnknownParameter(Context::Dielectric, n)),
                },
            },
        }
    } else if eq_lit(name, "float") {
        match find_name_value(attrs) {
            Err(e) => Err(e),
            Ok((n, v)) => {
                if eq_lit(&n, "int_ior") {
                    Ok(
                        Start::Update(
                            Frame::Dielectric {
                                id,
                                int_ior: Some(v),
                                ext_ior,
                                specular_reflectance,
                                specular_transmittance,
                            },
                        ),
                    )
                } else if eq_lit(&n, "ext_ior") {
                    Ok(
                        Start::Update(
                            Frame::Dielectric {
                                id,
                                int_ior,
                                ext_ior: Some(v),
                                specular_reflectance,
                                specular_transmittance,
                            },
                        ),
                    )
                } else {
                    Err(MitsubaError::UnknownParameter(Context::Dielectric, n))
                }
            },
        }
    } else {
        Err(MitsubaError::UnknownDataType(Context::Dielectric, name.clone()))
    }
}

/// The axes that `attrs[from..]` set, in order.
fn point_axes_exec(
    attrs: &Vec<(String, String)>,
    from: usize,
    x: Option<String>,
    y: Option<String>,
    z: Option<String>,
) -> (r: Result<(Option<String>, Option<String>, Option<String>), MitsubaError>)
    requires
        from <= attrs@.len(),
    ensures
        match (r, point_axes(attrs_view(attrs@).skip(from as int), opt_view(x), opt_view(y), opt_view(z))) {
            (Ok((x2, y2, z2)), Ok((x3, y3, z3))) => opt_view(x2) == x3 && opt_view(y2) == y3
                && opt_view(z2) == z3,
            (Err(e), Err(e2)) => e@ == e2,
            _ => false,
        },
    decreases attrs@.len() - from,
{
    let ghost a = attrs_view(attrs@).skip(from as int);
    if from == attrs.len() {
        return Ok((x, y, z));
    }
    proof {
        assert(a[0] == (attrs@[from as int].0@, attrs@[from as int].1@));
        assert(a.drop_first() =~= attrs_view(attrs@).skip(from + 1));
    }
    let key = &attrs[from].0;
    if eq_lit(key, "x") {
        point_axes_exec(attrs, from + 1, Some(attrs[from].1.clone()), y, z)
    } else if eq_lit(key, "y") {
        point_axes_exec(attrs, from + 1, x, Some(attrs[from].1.clone()), z)
    } else if eq_lit(key, "z") {
        point_axes_exec(attrs, from + 1, x, y, Some(attrs[from].1.clone()))
    } else {
        Err(MitsubaError::InvalidPointAxis(key.clone()))
    }
}

fn emitter_start_exec(e: EmitterDesc, name: &String, attrs: &Vec<(String, String)>) -> (r: Result<
    Start,
    MitsubaError,
>)
    ensures
        start_matches(r, FrameView::Emitter(e@), emitter_start(e@, name@, attrs_view(attrs@))),
{
    proof {
        lemma_no_ops();
    }
    match e {
        EmitterDesc::Constant { radiance } => {
            if eq_lit(name, "rgb") {
                match find_rgb(attrs, "radiance", RgbName::Radiance) {
                    Err(err) => Err(err),
                    Ok(v) => Ok(
                        Start::Update(Frame::Emitter(EmitterDesc::Constant { radiance: Some(v) })),
                    ),
                }
            } else {
                Err(MitsubaError::UnknownDataType(Context::ConstantEmitter, name.clone()))
            }
        },
        EmitterDesc::Point { x, y, z, intensity } => {
            if eq_lit(name, "point") {
                match find_attr(attrs, "name") {
                    None => Err(missing(Attribute::Name)),
                    Some(n) => {
                        if !eq_lit(&n, "position") {
                            Err(MitsubaError::ExpectedPosition)
                        } else {
                            proof {
                                assert(attrs_view(attrs@).skip(1) =~= attrs_view(attrs@).drop_first());
                            }
                            // `name` was found, so there is an attribute to skip
                            match point_axes_exec(attrs, 1, x, y, z) {
                                Err(err) => Err(err),
                                Ok((x2, y2, z2)) => Ok(
                                    Start::Update(
                                        Frame::Emitter(
                                            EmitterDesc::Point { x: x2, y: y2, z: z2, intensity },
                                        ),
                                    ),
                                ),
                            }
                        }
                    },
                }
            } else if eq_lit(name, "rgb") {
                match find_rgb(attrs, "intensity", RgbName::Intensity) {
                    Err(err) => Err(err),
                    Ok(v) => Ok(
                        Start::Update(
                            Frame::Emitter(EmitterDesc::Point { x, y, z, intensity: Some(v) }),
                        ),
                    ),
                }
            } else {
                Err(MitsubaError::UnknownDataType(Context::PointLight, name.clone()))
            }
        },
        EmitterDesc::Spot { transform, intensity, cutoff_angle, beam_width } => {
            if eq_lit(name, "float") {
                match find_attr(attrs, "name") {
                    None => Err(missing(Attribute::Name)),
                    Some(n) => {
                        if eq_lit(&n, "cutoff_angle") {
                            match find_value(attrs) {
                                Err(err) => Err(err),
                                Ok(v) => Ok(
                                    Start::Update(
                                        Frame::Emitter(
                                            EmitterDesc::Spot {
                                                transform,
                                                intensity,
                                                cutoff_angle: Some(v),
                                                beam_width,
                                            },
                                        ),
                                    ),
                                ),
                            }
                        } else if eq_lit(&n, "beam_width") {
                            match find_value(attrs) {
                                Err(err) => Err(err),
                                Ok(v) => Ok(
                                    Start::Update(
                                        Frame::Emitter(
                                            EmitterDesc::Spot {
                                                transform,
                                                intensity,
                                                cutoff_angle,
                                                beam_width: Some(v),
                                            },
                                        ),
                                    ),
                                ),
                            }
                        } else {
                            Err(MitsubaError::UnknownParameter(Context::SpotLight, n))
                        }
                    },
                }
            } else if eq_lit(name, "transform") {
                Ok(
                    Start::Push(
                        Frame::Emitter(
                            EmitterDesc::Spot { transform, intensity, cutoff_angle, beam_width },
                        ),
                        Frame::Transform { ops: Vec::new() },
                    ),
                )
            } else if eq_lit(name, "rgb") {
                match find_rgb(attrs, "intensity", RgbName::Intensity) {
                    Err(err) => Err(err),
                    Ok(v) => Ok(
                        Start::Update(
                            Frame::Emitter(
                                EmitterDesc::Spot {
                                    transform,
                                    intensity: Some(v),
                                    cutoff_angle,
                                    beam_width,
                                },
                            ),
                        ),
                    ),
                }
            } else {
                Err(MitsubaError::UnknownDataType(Context::SpotLight, name.clone()))
            }
        },
    }
}

fn shape_start_exec(
    filename: Option<String>,
    material_id: Option<String>,
    transform: Vec<TransformOp>,
    name: &String,
    attrs: &Vec<(String, String)>,
) -> (r: Result<Start, MitsubaError>)
    ensures
        start_matches(
            r,
            FrameView::Shape {
                filename: opt_view(filename),
                material_id: opt_view(material_id),
                transform: ops_view(transform@),
            },
            shape_start(
                opt_view(filename),
                opt_view(material_id),
                ops_view(transform@),
                name@,
                attrs_view(attrs@),
            ),
        ),
{
    proof {
        lemma_no_ops();
    }
    if eq_lit(name, "string") {
        match find_attr(attrs, "name") {
            None => Err(missing(Attribute::Name)),
            Some(n) => {
                if !eq_lit(&n, "filename") {
                    Err(MitsubaError::ExpectedFilename)
                } else {
                    match find_value(attrs) {
                        Err(e) => Err(e),
                        Ok(v) => Ok(
                            Start::Update(Frame::Shape { filename: Some(v), material_id, transform }),
                        ),
                    }
                }
            },
        }
    } else if eq_lit(name, "ref") {
        match find_attr(attrs, "name") {
            None => Err(missing(Attribute::Name)),
            Some(n) => {
                if !eq_lit(&n, "bsdf") {
                    Err(MitsubaError::ExpectedBsdfRef(n))
                } else {
                    match find_attr(attrs, "id") {
                        None => Err(missing(Attribute::Id)),
                        Some(id) => Ok(
                            Start::Update(Frame::Shape { filename, material_id: Some(id), transform }),
                        ),
                    }
                }
            },
        }
    } else if eq_lit(name, "transform") {
        Ok(
            Start::Push(
                Frame::Shape { filename, material_id, transform },
                Frame::Transform { ops: Vec::new() },
            ),
        )
    } else {
        Err(MitsubaError::UnknownDataType(Context::Shape, name.clone()))
    }
}

/// What a start tag does inside a frame.
pub fn frame_start_exec(kind: Frame, name: &String, attrs: &Vec<(String, String)>) -> (r: Result<
    Start,
    MitsubaError,
>)
    ensures
        start_matches(r, kind@, frame_start(kind@, name@, attrs_view(attrs@))),
{
    match kind {
        Frame::Sensor { fov_axis, fov, transform } => sensor_start_exec(
            fov_axis,
            fov,
            transform,
            name,
            attrs,
        ),
        Frame::Transform { ops } => transform_start_exec(ops, name, attrs),
        Frame::TwoSided { id, material } => {
            if eq_lit(name, "bsdf") {
                Ok(
                    Start::Push(
                        Frame::TwoSided { id, material },
                        Frame::Diffuse { id: None, reflectance: Reflectance::Half },
                    ),
                )
            } else if eq_lit(name, "rgb") {
                match find_rgb(attrs, "reflectance", RgbName::Reflectance) {
                    Err(e) => Err(e),
                    Ok(v) => Ok(
                        Start::Update(
                            Frame::TwoSided { id, material: MaterialDesc::Matte(Reflectance::Rgb(v)) },
                        ),
                    ),
                }
            } else {
                Err(MitsubaError::UnknownDataType(Context::TwoSided, name.clone()))
            }
        },
        Frame::Diffuse { id, reflectance } => {
            if eq_lit(name, "rgb") {
                match find_rgb(attrs, "reflectance", RgbName::Reflectance) {
                    Err(e) => Err(e),
                    Ok(v) => Ok(Start::Update(Frame::Diffuse { id, reflectance: Reflectance::Rgb(v) })),
                }
            } else {
                Err(MitsubaError::UnknownDataType(Context::Diffuse, name.clone()))
            }
        },
        Frame::Dielectric { id, int_ior, ext_ior, specular_reflectance, specular_transmittance } => {
            dielectric_start_exec(
                id,
                int_ior,
                ext_ior,
                specular_reflectance,
                specular_transmittance,
                name,
                attrs,
            )
        },
        Frame::Emitter(e) => emitter_start_exec(e, name, attrs),
        Frame::Shape { filename, material_id, transform } => shape_start_exec(
            filename,
            material_id,
            transform,
            name,
            attrs,
        ),
    }
}

} // verus!
