//! The values a Mitsuba 2 scene file is read into, and their views.
//!
//! Numbers stay as the text the file holds them in; turning them into
//! floating point values is left to the renderer.
use vstd::prelude::*;

verus! {

/// One event of an XML document, as the scene reader sees it: element
/// names and attribute names are local names.
pub enum XmlEvent {
    StartElement { name: String, attributes: Vec<(String, String)> },
    EndElement { name: String },
    Characters(String),
    CData(String),
    ProcessingInstruction(String),
    Whitespace,
    /// The start of the document, or a comment.
    Other,
}

pub enum XmlEventView {
    StartElement { name: Seq<char>, attributes: Seq<(Seq<char>, Seq<char>)> },
    EndElement { name: Seq<char> },
    Characters(Seq<char>),
    CData(Seq<char>),
    ProcessingInstruction(Seq<char>),
    Whitespace,
    Other,
}

pub open spec fn attrs_view(a: Seq<(String, String)>) -> Seq<(Seq<char>, Seq<char>)> {
    a.map_values(|p: (String, String)| (p.0@, p.1@))
}

impl View for XmlEvent {
    type V = XmlEventView;

    open spec fn view(&self) -> XmlEventView {
        match self {
            XmlEvent::StartElement { name, attributes } => XmlEventView::StartElement {
                name: name@,
                attributes: attrs_view(attributes@),
            },
            XmlEvent::EndElement { name } => XmlEventView::EndElement { name: name@ },
            XmlEvent::Characters(s) => XmlEventView::Characters(s@),
            XmlEvent::CData(s) => XmlEventView::CData(s@),
            XmlEvent::ProcessingInstruction(s) => XmlEventView::ProcessingInstruction(s@),
            XmlEvent::Whitespace => XmlEventView::Whitespace,
            XmlEvent::Other => XmlEventView::Other,
        }
    }
}

pub open spec fn events_view(events: Seq<XmlEvent>) -> Seq<XmlEventView> {
    events.map_values(|e: XmlEvent| e@)
}

pub open spec fn opt_view(o: Option<String>) -> Option<Seq<char>> {
    match o {
        Some(s) => Some(s@),
        None => None,
    }
}

/// One step of a `transform` element, each number as written.
pub enum TransformOp {
    /// A rotation by `angle` degrees about the axis (`x`, `y`, `z`), a
    /// missing component being zero.
    Rotate { x: Option<String>, y: Option<String>, z: Option<String>, angle: String },
    Translate(String),
    /// One factor, or three.
    Scale(String),
    /// Sixteen numbers, row by row.
    Matrix(String),
}

pub enum TransformOpView {
    Rotate {
        x: Option<Seq<char>>,
        y: Option<Seq<char>>,
        z: Option<Seq<char>>,
        angle: Seq<char>,
    },
    Translate(Seq<char>),
    Scale(Seq<char>),
    Matrix(Seq<char>),
}

impl View for TransformOp {
    type V = TransformOpView;

    open spec fn view(&self) -> TransformOpView {
        match self {
            TransformOp::Rotate { x, y, z, angle } => TransformOpView::Rotate {
                x: opt_view(*x),
                y: opt_view(*y),
                z: opt_view(*z),
                angle: angle@,
            },
            TransformOp::Translate(v) => TransformOpView::Translate(v@),
            TransformOp::Scale(v) => TransformOpView::Scale(v@),
            TransformOp::Matrix(v) => TransformOpView::Matrix(v@),
        }
    }
}

pub open spec fn ops_view(ops: Seq<TransformOp>) -> Seq<TransformOpView> {
    ops.map_values(|t: TransformOp| t@)
}

/// The reflectance of a matte material.
pub enum Reflectance {
    /// The value of an `rgb` element.
    Rgb(String),
    /// Half of the light in each channel.
    Half,
    /// All of the light.
    Full,
}

pub enum ReflectanceView {
    Rgb(Seq<char>),
    Half,
    Full,
}

impl View for Reflectance {
    type V = ReflectanceView;

    open spec fn view(&self) -> ReflectanceView {
        match self {
            Reflectance::Rgb(s) => ReflectanceView::Rgb(s@),
            Reflectance::Half => ReflectanceView::Half,
            Reflectance::Full => ReflectanceView::Full,
        }
    }
}

/// A material: matte, or glass, whose missing values take their defaults.
pub enum MaterialDesc {
    Matte(Reflectance),
    Glass {
        int_ior: Option<String>,
        ext_ior: Option<String>,
        specular_reflectance: Option<String>,
        specular_transmittance: Option<String>,
    },
}

pub enum MaterialView {
    Matte(ReflectanceView),
    Glass {
        int_ior: Option<Seq<char>>,
        ext_ior: Option<Seq<char>>,
        specular_reflectance: Option<Seq<char>>,
        specular_transmittance: Option<Seq<char>>,
    },
}

impl View for MaterialDesc {
    type V = MaterialView;

    open spec fn view(&self) -> MaterialView {
        match self {
            MaterialDesc::Matte(r) => MaterialView::Matte(r@),
            MaterialDesc::Glass {
                int_ior,
                ext_ior,
                specular_reflectance,
                specular_transmittance,
            } => MaterialView::Glass {
                int_ior: opt_view(*int_ior),
                ext_ior: opt_view(*ext_ior),
                specular_reflectance: opt_view(*specular_reflectance),
                specular_transmittance: opt_view(*specular_transmittance),
            },
        }
    }
}

/// A light source, or the background.
pub enum EmitterDesc {
    /// The background, black where no radiance is given.
    Constant { radiance: Option<String> },
    Point {
        x: Option<String>,
        y: Option<String>,
        z: Option<String>,
        intensity: Option<String>,
    },
    Spot {
        transform: Vec<TransformOp>,
        intensity: Option<String>,
        cutoff_angle: Option<String>,
        beam_width: Option<String>,
    },
}

pub enum EmitterView {
    Constant { radiance: Option<Seq<char>> },
    Point {
        x: Option<Seq<char>>,
        y: Option<Seq<char>>,
        z: Option<Seq<char>>,
        intensity: Option<Seq<char>>,
    },
    Spot {
        transform: Seq<TransformOpView>,
        intensity: Option<Seq<char>>,
        cutoff_angle: Option<Seq<char>>,
        beam_width: Option<Seq<char>>,
    },
}

impl View for EmitterDesc {
    type V = EmitterView;

    open spec fn view(&self) -> EmitterView {
        match self {
            EmitterDesc::Constant { radiance } => EmitterView::Constant {
                radiance: opt_view(*radiance),
            },
            EmitterDesc::Point { x, y, z, intensity } => EmitterView::Point {
                x: opt_view(*x),
                y: opt_view(*y),
                z: opt_view(*z),
                intensity: opt_view(*intensity),
            },
            EmitterDesc::Spot { transform, intensity, cutoff_angle, beam_width } => EmitterView::Spot {
                transform: ops_view(transform@),
                intensity: opt_view(*intensity),
                cutoff_angle: opt_view(*cutoff_angle),
                beam_width: opt_view(*beam_width),
            },
        }
    }
}

/// The camera: the axis its field of view is given along, its field of view
/// and its camera-to-world steps.
pub struct SensorDesc {
    pub fov_axis: Option<String>,
    pub fov: Option<String>,
    pub transform: Vec<TransformOp>,
}

pub struct SensorView {
    pub fov_axis: Option<Seq<char>>,
    pub fov: Option<Seq<char>>,
    pub transform: Seq<TransformOpView>,
}

impl View for SensorDesc {
    type V = SensorView;

    open spec fn view(&self) -> SensorView {
        SensorView {
            fov_axis: opt_view(self.fov_axis),
            fov: opt_view(self.fov),
            transform: ops_view(self.transform@),
        }
    }
}

/// A PLY mesh: its file as written, the index of its material among the
/// materials of the scene, and its object-to-world steps.
pub struct ShapeDesc {
    pub filename: String,
    pub material: usize,
    pub transform: Vec<TransformOp>,
}

pub struct ShapeView {
    pub filename: Seq<char>,
    pub material: int,
    pub transform: Seq<TransformOpView>,
}

impl View for ShapeDesc {
    type V = ShapeView;

    open spec fn view(&self) -> ShapeView {
        ShapeView {
            filename: self.filename@,
            material: self.material as int,
            transform: ops_view(self.transform@),
        }
    }
}

/// What a Mitsuba 2 scene file describes.
pub struct MitsubaSceneDesc {
    /// The last camera given.
    pub sensor: Option<SensorDesc>,
    /// The materials with their ids, in the order they are given; a later
    /// material with the same id takes the place of an earlier one for what
    /// follows it.
    pub materials: Vec<(String, MaterialDesc)>,
    pub emitters: Vec<EmitterDesc>,
    pub shapes: Vec<ShapeDesc>,
}

pub struct SceneView {
    pub sensor: Option<SensorView>,
    pub materials: Seq<(Seq<char>, MaterialView)>,
    pub emitters: Seq<EmitterView>,
    pub shapes: Seq<ShapeView>,
}

pub open spec fn materials_view(m: Seq<(String, MaterialDesc)>) -> Seq<(Seq<char>, MaterialView)> {
    m.map_values(|p: (String, MaterialDesc)| (p.0@, p.1@))
}

impl View for MitsubaSceneDesc {
    type V = SceneView;

    open spec fn view(&self) -> SceneView {
        SceneView {
            sensor: match self.sensor {
                Some(s) => Some(s@),
                None => None,
            },
            materials: materials_view(self.materials@),
            emitters: self.emitters@.map_values(|e: EmitterDesc| e@),
            shapes: self.shapes@.map_values(|s: ShapeDesc| s@),
        }
    }
}

/// The element in which a problem was met.
#[derive(Clone, Copy, Debug, PartialEq, Eq, Structural)]
pub enum Context {
    Sensor,
    Transform,
    TwoSided,
    Diffuse,
    Dielectric,
    ConstantEmitter,
    PointLight,
    SpotLight,
    Shape,
}

/// An attribute that an element lacks.
#[derive(Clone, Copy, Debug, PartialEq, Eq, Structural)]
pub enum Attribute {
    Version,
    Type,
    Id,
    Name,
    Value,
    Angle,
}

/// The name an `rgb` element should have had.
#[derive(Clone, Copy, Debug, PartialEq, Eq, Structural)]
pub enum RgbName {
    Reflectance,
    Radiance,
    Intensity,
    SpecularReflectanceOrTransmittance,
}

/// Why a Mitsuba 2 scene file cannot be read.
#[derive(Debug)]
pub enum MitsubaError {
    MissingAttribute(Attribute),
    /// The scene's version is not 2.1.0.
    WrongVersion,
    UnknownElement(String),
    UnknownBsdfType(String),
    UnexpectedShapeType(String),
    UnexpectedCharacters(String),
    UnexpectedCData(String),
    UnexpectedProcessingInstruction(String),
    /// A child element that the element cannot hold.
    UnknownDataType(Context, String),
    /// A `string`, `float` or `rgb` child with a name the element does not know.
    UnknownParameter(Context, String),
    UnexpectedRgbName(RgbName, String),
    /// A point light's `point` element is not named `position`.
    ExpectedPosition,
    InvalidPointAxis(String),
    /// A mesh's `string` element is not named `filename`.
    ExpectedFilename,
    /// A mesh's `ref` element refers to something other than a `bsdf`.
    ExpectedBsdfRef(String),
    /// The camera's field of view is not given along the horizontal axis.
    OnlyHorizontalFov,
    MeshWithNoPly,
    MeshWithNoMaterial,
    UnknownMeshMaterial(String),
}

pub enum MitsubaErrorView {
    MissingAttribute(Attribute),
    WrongVersion,
    UnknownElement(Seq<char>),
    UnknownBsdfType(Seq<char>),
    UnexpectedShapeType(Seq<char>),
    UnexpectedCharacters(Seq<char>),
    UnexpectedCData(Seq<char>),
    UnexpectedProcessingInstruction(Seq<char>),
    UnknownDataType(Context, Seq<char>),
    UnknownParameter(Context, Seq<char>),
    UnexpectedRgbName(RgbName, Seq<char>),
    ExpectedPosition,
    InvalidPointAxis(Seq<char>),
    ExpectedFilename,
    ExpectedBsdfRef(Seq<char>),
    OnlyHorizontalFov,
    MeshWithNoPly,
    MeshWithNoMaterial,
    UnknownMeshMaterial(Seq<char>),
}

impl View for MitsubaError {
    type V = MitsubaErrorView;

    open spec fn view(&self) -> MitsubaErrorView {
        match self {
            MitsubaError::MissingAttribute(a) => MitsubaErrorView::MissingAttribute(*a),
            MitsubaError::WrongVersion => MitsubaErrorView::WrongVersion,
            MitsubaError::UnknownElement(s) => MitsubaErrorView::UnknownElement(s@),
            MitsubaError::UnknownBsdfType(s) => MitsubaErrorView::UnknownBsdfType(s@),
            MitsubaError::UnexpectedShapeType(s) => MitsubaErrorView::UnexpectedShapeType(s@),
            MitsubaError::UnexpectedCharacters(s) => MitsubaErrorView::UnexpectedCharacters(s@),
            MitsubaError::UnexpectedCData(s) => MitsubaErrorView::UnexpectedCData(s@),
            MitsubaError::UnexpectedProcessingInstruction(s) => {
                MitsubaErrorView::UnexpectedProcessingInstruction(s@)
            },
            MitsubaError::UnknownDataType(c, s) => MitsubaErrorView::UnknownDataType(*c, s@),
            MitsubaError::UnknownParameter(c, s) => MitsubaErrorView::UnknownParameter(*c, s@),
            MitsubaError::UnexpectedRgbName(r, s) => MitsubaErrorView::UnexpectedRgbName(*r, s@),
            MitsubaError::ExpectedPosition => MitsubaErrorView::ExpectedPosition,
            MitsubaError::InvalidPointAxis(s) => MitsubaErrorView::InvalidPointAxis(s@),
            MitsubaError::ExpectedFilename => MitsubaErrorView::ExpectedFilename,
            MitsubaError::ExpectedBsdfRef(s) => MitsubaErrorView::ExpectedBsdfRef(s@),
            MitsubaError::OnlyHorizontalFov => MitsubaErrorView::OnlyHorizontalFov,
            MitsubaError::MeshWithNoPly => MitsubaErrorView::MeshWithNoPly,
            MitsubaError::MeshWithNoMaterial => MitsubaErrorView::MeshWithNoMaterial,
            MitsubaError::UnknownMeshMaterial(s) => MitsubaErrorView::UnknownMeshMaterial(s@),
        }
    }
}

} // verus!
