use yuki::scene::mitsuba::reader::{check_fov_axis, mitsuba_scene};
use yuki::scene::mitsuba::types::{
    Attribute, Context, EmitterDesc, MaterialDesc, MitsubaError, MitsubaSceneDesc, Reflectance, RgbName,
    TransformOp, XmlEvent,
};
use yuki::scene::mitsuba::xml_events::read_mitsuba;

fn read(text: &str) -> Result<MitsubaSceneDesc, MitsubaError> {
    let (scene, xml_error) = read_mitsuba(text.as_bytes());
    assert!(!xml_error);
    scene
}

const SCENE: &str = r#"<?xml version="1.0"?>
<scene version="2.1.0">
  <!-- a comment -->
  <default name="spp" value="64"/>
  <integrator type="path"><integer name="max_depth" value="8"/></integrator>
  <sensor type="perspective">
    <string name="fov_axis" value="x"/>
    <float name="fov" value="39.3"/>
    <float name="near_clip" value="0.1"/>
    <transform name="to_world"><matrix value="1 0 0 0 0 1 0 0 0 0 1 0 0 0 0 1"/></transform>
    <sampler type="independent"><integer name="sample_count" value="64"/></sampler>
    <film type="hdrfilm"><integer name="width" value="512"/><rfilter type="box"/></film>
  </sensor>
  <bsdf type="twosided" id="white"><bsdf type="diffuse"><rgb name="reflectance" value="0.8 0.8 0.8"/></bsdf></bsdf>
  <bsdf type="dielectric" id="glass"><float name="int_ior" value="1.5"/></bsdf>
  <emitter type="point"><point name="position" x="1" y="2" z="3"/><rgb name="intensity" value="10 10 10"/></emitter>
  <emitter type="constant"><rgb name="radiance" value="0.1 0.1 0.1"/></emitter>
  <emitter type="area"><rgb name="radiance" value="1 1 1"/></emitter>
  <emitter type="spot">
    <float name="cutoff_angle" value="30"/>
    <transform name="to_world"><rotate y="1" angle="90"/></transform>
  </emitter>
  <shape type="ply">
    <string name="filename" value="meshes/a.ply"/>
    <ref name="bsdf" id="white"/>
    <transform name="to_world"><translate value="0 1 0"/><scale value="2"/></transform>
  </shape>
</scene>
"#;

#[test]
fn reads_a_whole_scene() {
    let scene = read(SCENE).unwrap();
    let sensor = scene.sensor.unwrap();
    assert_eq!(sensor.fov.as_deref(), Some("39.3"));
    assert_eq!(sensor.transform.len(), 1);
    assert!(matches!(&sensor.transform[0], TransformOp::Matrix(m) if m == "1 0 0 0 0 1 0 0 0 0 1 0 0 0 0 1"));
    assert_eq!(scene.materials.len(), 2);
    assert_eq!(scene.materials[0].0, "white");
    assert!(matches!(&scene.materials[0].1, MaterialDesc::Matte(Reflectance::Rgb(r)) if r == "0.8 0.8 0.8"));
    assert_eq!(scene.materials[1].0, "glass");
    assert!(matches!(&scene.materials[1].1,
        MaterialDesc::Glass { int_ior: Some(i), ext_ior: None, specular_reflectance: None, specular_transmittance: None }
        if i == "1.5"));
    assert_eq!(scene.emitters.len(), 3);
    assert!(matches!(&scene.emitters[0],
        EmitterDesc::Point { x: Some(x), y: Some(y), z: Some(z), intensity: Some(i) }
        if x == "1" && y == "2" && z == "3" && i == "10 10 10"));
    assert!(matches!(&scene.emitters[1], EmitterDesc::Constant { radiance: Some(r) } if r == "0.1 0.1 0.1"));
    match &scene.emitters[2] {
        EmitterDesc::Spot { transform, intensity: None, cutoff_angle: Some(c), beam_width: None } => {
            assert_eq!(c, "30");
            assert_eq!(transform.len(), 1);
            assert!(matches!(&transform[0],
                TransformOp::Rotate { x: None, y: Some(y), z: None, angle } if y == "1" && angle == "90"));
        }
        _ => panic!("expected a spot light"),
    }
    assert_eq!(scene.shapes.len(), 1);
    let shape = &scene.shapes[0];
    assert_eq!(shape.filename, "meshes/a.ply");
    assert_eq!(shape.material, 0);
    assert_eq!(shape.transform.len(), 2);
    assert!(matches!(&shape.transform[0], TransformOp::Translate(v) if v == "0 1 0"));
    assert!(matches!(&shape.transform[1], TransformOp::Scale(v) if v == "2"));
}

#[test]
fn defaults_of_materials() {
    let scene = read(
        r#"<scene version="2.1.0"><bsdf type="twosided" id="a"/><bsdf type="diffuse" id="b"/></scene>"#,
    )
    .unwrap();
    assert!(matches!(&scene.materials[0].1, MaterialDesc::Matte(Reflectance::Full)));
    assert!(matches!(&scene.materials[1].1, MaterialDesc::Matte(Reflectance::Half)));
}

#[test]
fn a_mesh_uses_the_material_defined_before_it() {
    let scene = read(
        r#"<scene version="2.1.0">
            <bsdf type="diffuse" id="m"/>
            <shape type="ply"><string name="filename" value="a.ply"/><ref name="bsdf" id="m"/></shape>
            <bsdf type="dielectric" id="m"/>
            <shape type="ply"><string name="filename" value="b.ply"/><ref name="bsdf" id="m"/></shape>
        </scene>"#,
    )
    .unwrap();
    assert_eq!(scene.shapes[0].material, 0);
    assert_eq!(scene.shapes[1].material, 1);
}

#[test]
fn wrong_version() {
    assert!(matches!(read(r#"<scene version="2.0.0"></scene>"#), Err(MitsubaError::WrongVersion)));
    assert!(matches!(read(r#"<scene></scene>"#), Err(MitsubaError::MissingAttribute(Attribute::Version))));
}

#[test]
fn unknown_element() {
    let r = read(r#"<scene version="2.1.0"><texture type="bitmap"/></scene>"#);
    assert!(matches!(r, Err(MitsubaError::UnknownElement(n)) if n == "texture"));
}

#[test]
fn unknown_bsdf_type() {
    let r = read(r#"<scene version="2.1.0"><bsdf type="plastic" id="p"/></scene>"#);
    assert!(matches!(r, Err(MitsubaError::UnknownBsdfType(t)) if t == "plastic"));
}

#[test]
fn only_horizontal_fov() {
    let scene = read(r#"<scene version="2.1.0"><sensor><string name="fov_axis" value="y"/></sensor></scene>"#).unwrap();
    let sensor = scene.sensor.unwrap();
    assert_eq!(sensor.fov_axis.as_deref(), Some("y"));
    assert!(matches!(check_fov_axis(&sensor), Err(MitsubaError::OnlyHorizontalFov)));
    let scene = read(r#"<scene version="2.1.0"><sensor/></scene>"#).unwrap();
    assert!(matches!(check_fov_axis(&scene.sensor.unwrap()), Err(MitsubaError::OnlyHorizontalFov)));
    let scene = read(SCENE).unwrap();
    assert!(check_fov_axis(&scene.sensor.unwrap()).is_ok());
}

#[test]
fn unexpected_shape_type() {
    let r = read(r#"<scene version="2.1.0"><shape type="obj"/></scene>"#);
    assert!(matches!(r, Err(MitsubaError::UnexpectedShapeType(t)) if t == "obj"));
}

#[test]
fn mesh_with_no_ply() {
    let r = read(r#"<scene version="2.1.0"><bsdf type="diffuse" id="m"/><shape type="ply"><ref name="bsdf" id="m"/></shape></scene>"#);
    assert!(matches!(r, Err(MitsubaError::MeshWithNoPly)));
}

#[test]
fn mesh_with_no_material() {
    let r = read(r#"<scene version="2.1.0"><shape type="ply"><string name="filename" value="a.ply"/></shape></scene>"#);
    assert!(matches!(r, Err(MitsubaError::MeshWithNoMaterial)));
}

#[test]
fn unknown_mesh_material() {
    let r = read(
        r#"<scene version="2.1.0"><shape type="ply"><string name="filename" value="a.ply"/><ref name="bsdf" id="gold"/></shape></scene>"#,
    );
    assert!(matches!(r, Err(MitsubaError::UnknownMeshMaterial(id)) if id == "gold"));
}

#[test]
fn misnamed_children() {
    let r = read(r#"<scene version="2.1.0"><shape type="ply"><string name="file" value="a.ply"/></shape></scene>"#);
    assert!(matches!(r, Err(MitsubaError::ExpectedFilename)));
    let r = read(r#"<scene version="2.1.0"><shape type="ply"><ref name="texture" id="t"/></shape></scene>"#);
    assert!(matches!(r, Err(MitsubaError::ExpectedBsdfRef(n)) if n == "texture"));
    let r = read(r#"<scene version="2.1.0"><bsdf type="diffuse" id="m"><rgb name="color" value="1 1 1"/></bsdf></scene>"#);
    assert!(matches!(r, Err(MitsubaError::UnexpectedRgbName(RgbName::Reflectance, n)) if n == "color"));
    let r = read(r#"<scene version="2.1.0"><sensor><float name="focus" value="1"/></sensor></scene>"#);
    assert!(matches!(r, Err(MitsubaError::UnknownParameter(Context::Sensor, n)) if n == "focus"));
    let r = read(r#"<scene version="2.1.0"><sensor><lens/></sensor></scene>"#);
    assert!(matches!(r, Err(MitsubaError::UnknownDataType(Context::Sensor, n)) if n == "lens"));
    let r = read(r#"<scene version="2.1.0"><emitter type="point"><point name="position" w="1"/></emitter></scene>"#);
    assert!(matches!(r, Err(MitsubaError::InvalidPointAxis(a)) if a == "w"));
    let r = read(r#"<scene version="2.1.0"><emitter type="point"><point name="origin" x="1"/></emitter></scene>"#);
    assert!(matches!(r, Err(MitsubaError::ExpectedPosition)));
    let r = read(r#"<scene version="2.1.0"><bsdf type="diffuse"/></scene>"#);
    assert!(matches!(r, Err(MitsubaError::MissingAttribute(Attribute::Id))));
    let r = read(r#"<scene version="2.1.0"><sensor><transform><shear value="1"/></transform></sensor></scene>"#);
    assert!(matches!(r, Err(MitsubaError::UnknownDataType(Context::Transform, n)) if n == "shear"));
}

#[test]
fn characters_outside_tags() {
    let r = read(r#"<scene version="2.1.0">text</scene>"#);
    assert!(matches!(r, Err(MitsubaError::UnexpectedCharacters(t)) if t == "text"));
}

#[test]
fn truncated_document_finishes_open_elements() {
    let (scene, xml_error) = read_mitsuba(br#"<scene version="2.1.0"><sensor><string name="fov_axis" value="x"/>"#);
    assert!(xml_error);
    let scene = scene.unwrap();
    let sensor = scene.sensor.unwrap();
    assert!(sensor.fov.is_none());
    assert!(sensor.transform.is_empty());
}

#[test]
fn events_built_by_hand() {
    let start = |name: &str, attrs: &[(&str, &str)]| XmlEvent::StartElement {
        name: name.to_string(),
        attributes: attrs.iter().map(|(k, v)| (k.to_string(), v.to_string())).collect(),
    };
    let end = |name: &str| XmlEvent::EndElement { name: name.to_string() };
    let events = vec![
        XmlEvent::Other,
        start("scene", &[("version", "2.1.0")]),
        XmlEvent::Whitespace,
        start("emitter", &[("type", "constant")]),
        start("rgb", &[("name", "radiance"), ("value", "1 2 3")]),
        end("rgb"),
        end("emitter"),
        end("scene"),
    ];
    let scene = mitsuba_scene(&events).unwrap();
    assert_eq!(scene.emitters.len(), 1);
    assert!(matches!(&scene.emitters[0], EmitterDesc::Constant { radiance: Some(r) } if r == "1 2 3"));
    let events = vec![start("scene", &[("version", "2.1.0")]), XmlEvent::CData("x".to_string())];
    assert!(matches!(mitsuba_scene(&events), Err(MitsubaError::UnexpectedCData(c)) if c == "x"));
}
