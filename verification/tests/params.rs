use yuki::scene::pbrt::graphics_state::{GraphicsIds, GraphicsStacks};
use yuki::math::normal::Normal;
use yuki::math::point::{Point2, Point3};
use yuki::math::spectrum::Spectrum;
use yuki::scene::pbrt::param_def::try_split_param_def;
use yuki::scene::pbrt::param_set::{find_param_value, find_param_values, ParamSet, ParamSetItem};

fn item<T>(name: &str, values: Vec<T>) -> ParamSetItem<T> {
    ParamSetItem { name: name.to_string(), values }
}

#[test]
fn find_value_takes_first_single_valued_match() {
    let params = vec![item("a", vec![1, 2]), item("b", vec![3]), item("a", vec![4]), item("a", vec![5])];
    assert_eq!(find_param_value("a", &params, 0), 4);
    assert_eq!(find_param_value("b", &params, 0), 3);
    assert_eq!(find_param_value("c", &params, 7), 7);
}

#[test]
fn find_values_takes_first_match() {
    let params = vec![item("a", vec![1, 2]), item("a", vec![4])];
    assert_eq!(find_param_values("a", &params, &[9]), &[1, 2]);
    assert_eq!(find_param_values("b", &params, &[9]), &[9]);
    let empty: Vec<ParamSetItem<i32>> = Vec::new();
    assert_eq!(find_param_values("a", &empty, &[]), &[] as &[i32]);
}

#[test]
fn param_set_add_then_find() {
    let mut ps: ParamSet<f32> = ParamSet::default();
    ps.add_f32("fov".to_string(), vec![30.0]);
    ps.add_i32("xresolution".to_string(), vec![800]);
    ps.add_i32("indices".to_string(), vec![0, 1, 2]);
    ps.add_spectrum("Kd".to_string(), vec![Spectrum::new(0.1, 0.2, 0.3)]);
    ps.add_point("from".to_string(), vec![Point3::new(1.0, 2.0, 3.0)]);
    ps.add_point("P".to_string(), vec![Point3::new(0.0, 0.0, 0.0), Point3::new(1.0, 0.0, 0.0)]);
    ps.add_normal("N".to_string(), vec![Normal::new(0.0, 1.0, 0.0)]);
    ps.add_string("filename".to_string(), vec!["mesh.ply".to_string()]);
    assert_eq!(ps.find_f32("fov", 45.0), 30.0);
    assert_eq!(ps.find_f32("missing", 45.0), 45.0);
    assert_eq!(ps.find_i32("xresolution", 640), 800);
    assert_eq!(ps.find_i32("yresolution", 480), 480);
    assert_eq!(ps.find_i32("indices", -1), -1);
    assert_eq!(ps.find_i32s("indices", &[]), &[0, 1, 2]);
    let kd = ps.find_spectrum("Kd", Spectrum::new(0.5, 0.5, 0.5));
    assert_eq!((kd.r, kd.g, kd.b), (0.1, 0.2, 0.3));
    let from = ps.find_point("from", Point3::new(0.0, 0.0, 0.0));
    assert_eq!((from.x, from.y, from.z), (1.0, 2.0, 3.0));
    assert_eq!(ps.find_points("P", &[]).len(), 2);
    assert_eq!(ps.find_normals("N", &[]).len(), 1);
    assert_eq!(ps.find_string("filename", ""), "mesh.ply");
    assert_eq!(ps.find_string("other", "none"), "none");
}

#[test]
fn earlier_parameters_shadow_later_ones() {
    let mut ps: ParamSet<f32> = ParamSet::default();
    ps.add_f32("radius".to_string(), vec![2.0]);
    ps.add_f32("radius".to_string(), vec![3.0]);
    assert_eq!(ps.find_f32("radius", 1.0), 2.0);
}

#[test]
fn multi_valued_string_is_not_a_single_string() {
    let mut ps: ParamSet<f32> = ParamSet::default();
    ps.add_string("names".to_string(), vec!["a".to_string(), "b".to_string()]);
    assert_eq!(ps.find_string("names", "default"), "default");
}

#[test]
fn splits_declarations() {
    let (t, n) = try_split_param_def(b"float fov").unwrap();
    assert_eq!((t.as_slice(), n.as_slice()), (&b"float"[..], &b"fov"[..]));
    let (t, n) = try_split_param_def(b"  point3\t P \n").unwrap();
    assert_eq!((t.as_slice(), n.as_slice()), (&b"point3"[..], &b"P"[..]));
    assert!(try_split_param_def(b"float").is_none());
    assert!(try_split_param_def(b"").is_none());
    assert!(try_split_param_def(b"a b c").is_none());
}

#[test]
fn splits_on_unicode_whitespace() {
    let s = "color\u{00A0}Kd";
    let (t, n) = try_split_param_def(s.as_bytes()).unwrap();
    assert_eq!((t.as_slice(), n.as_slice()), (&b"color"[..], &b"Kd"[..]));
    let s = "rgb\u{3000}L\u{2009}";
    let (t, n) = try_split_param_def(s.as_bytes()).unwrap();
    assert_eq!((t.as_slice(), n.as_slice()), (&b"rgb"[..], &b"L"[..]));
    let words: Vec<&str> = "a\u{2028}b\u{85}c".split_whitespace().collect();
    assert_eq!(words.len(), 3);
    assert!(try_split_param_def("a\u{2028}b\u{85}c".as_bytes()).is_none());
    assert!(try_split_param_def("é ü".as_bytes()).is_some());
}

#[test]
fn booleans_and_texture_coordinates() {
    let mut ps: ParamSet<f32> = ParamSet::default();
    ps.add_bool("remaproughness".to_string(), vec![false]);
    ps.add_uv("uv".to_string(), vec![Point2::new(0.0, 1.0), Point2::new(1.0, 0.0)]);
    assert!(!ps.find_bool("remaproughness", true));
    assert!(ps.find_bool("other", true));
    let uvs = ps.find_uvs("uv", &[]);
    assert_eq!(uvs.len(), 2);
    assert_eq!((uvs[1].x, uvs[1].y), (1.0, 0.0));
}

#[test]
fn blocks_restore_the_graphics_state() {
    let mut g = GraphicsStacks::new(GraphicsIds { material: 0, transform: 0 });
    g.attribute_begin();
    g.set_material(1);
    g.set_transform(2);
    g.transform_begin();
    g.set_transform(3);
    g.set_material(4);
    assert!(g.transform_end());
    assert_eq!(g.current, GraphicsIds { material: 4, transform: 2 });
    assert!(g.attribute_end());
    assert_eq!(g.current, GraphicsIds { material: 0, transform: 0 });
    assert!(!g.attribute_end());
    assert!(!g.transform_end());
    assert_eq!(g.current, GraphicsIds { material: 0, transform: 0 });
}
