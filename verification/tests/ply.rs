use yuki::math::point::Point3;
use yuki::scene::ply::{check_ply_header, is_valid, triangulate_faces, Face, IndexList, PlyContent, PlyElement, PlyError, PlyHeader, Vertex};

fn element(name: &str, props: &[&str]) -> PlyElement {
    PlyElement { name: name.to_string(), properties: props.iter().map(|p| p.to_string()).collect() }
}

#[test]
fn valid_headers() {
    let h = PlyHeader { elements: vec![element("vertex", &["x", "y", "z", "nx"]), element("face", &["vertex_indices"])] };
    assert!(is_valid(&h));
    let h = PlyHeader { elements: vec![element("face", &["vertex_index"]), element("vertex", &["z", "y", "x"])] };
    assert!(is_valid(&h));
}

#[test]
fn invalid_headers() {
    let h = PlyHeader { elements: vec![element("vertex", &["x", "y"]), element("face", &["vertex_indices"])] };
    assert!(!is_valid(&h));
    let h = PlyHeader { elements: vec![element("vertex", &["x", "y", "z"]), element("face", &["indices"])] };
    assert!(!is_valid(&h));
    let h = PlyHeader { elements: vec![element("vertex", &["x", "y", "z"])] };
    assert!(!is_valid(&h));
    let h = PlyHeader { elements: vec![element("face", &["vertex_indices"])] };
    assert!(!is_valid(&h));
    assert!(!is_valid(&PlyHeader { elements: vec![] }));
}

#[test]
fn new_content_is_empty() {
    let c = PlyContent::new();
    assert!(c.vertex.is_none() && c.face.is_none());
}

#[test]
fn fans_faces_into_triangles() {
    let faces = vec![vec![0, 1, 2], vec![3, 4, 5, 6], vec![7, 8], vec![9, 10, 11, 12, 13]];
    let indices = triangulate_faces(&faces);
    assert_eq!(
        indices,
        vec![0, 1, 2, 3, 4, 5, 3, 5, 6, 9, 10, 11, 9, 11, 12, 9, 12, 13]
    );
    assert_eq!(indices.len() % 3, 0);
}

#[test]
fn face_index_properties() {
    let mut f = Face::new();
    f.set_property("vertex_indices", IndexList::Int(vec![0, 2, 3]));
    assert_eq!(f.indices, vec![0, 2, 3]);
    f.set_property("vertex_index", IndexList::UInt(vec![4, 5, 6]));
    assert_eq!(f.indices, vec![4, 5, 6]);
    f.set_property("flags", IndexList::UInt(vec![1]));
    assert_eq!(f.indices, vec![4, 5, 6]);
    f.set_property("vertex_index", IndexList::Other);
    assert_eq!(f.indices, vec![4, 5, 6]);
}

#[test]
fn vertex_properties() {
    let mut v = Vertex::new(Point3::new(0.0f32, 0.0, 0.0));
    v.set_property("x", 1.0, 0.0);
    v.set_property("y", 2.0, 0.0);
    v.set_property("z", 3.0, 0.0);
    v.set_property("u", 9.0, 0.0);
    assert_eq!((v.point.x, v.point.y, v.point.z), (1.0, 2.0, 3.0));
    assert!(v.normal.is_none());
    v.set_property("nx", 0.5, 0.0);
    v.set_property("ny", 0.25, 0.0);
    v.set_property("nz", 0.125, 0.0);
    let n = v.normal.unwrap();
    assert_eq!((n.x, n.y, n.z), (0.5, 0.25, 0.125));
}

const PLY_HEADER: &[u8] = b"ply\nformat ascii 1.0\ncomment made by hand\nelement vertex 3\nproperty float x\nproperty float y\nproperty float z\nelement face 1\nproperty list uchar int vertex_indices\nend_header\n0 0 0\n1 0 0\n0 1 0\n3 0 1 2\n";

#[test]
fn reads_and_checks_a_ply_header() {
    let read = check_ply_header(PLY_HEADER).unwrap();
    let names: Vec<&str> = read.header.elements.iter().map(|e| e.name.as_str()).collect();
    assert_eq!(names, vec!["vertex", "face"]);
    assert_eq!(read.header.elements[0].properties, vec!["x", "y", "z"]);
    assert_eq!(read.header.elements[1].properties, vec!["vertex_indices"]);
    assert_eq!(read.payload, b"0 0 0\n1 0 0\n0 1 0\n3 0 1 2\n");
    assert_eq!(read.raw.elements["vertex"].count, 3);
}

#[test]
fn unreadable_ply_header() {
    assert!(matches!(check_ply_header(b"not a ply file\n"), Err(PlyError::InvalidHeader)));
    assert!(matches!(check_ply_header(b""), Err(PlyError::InvalidHeader)));
}

#[test]
fn ply_header_without_faces() {
    let bytes = b"ply\nformat ascii 1.0\nelement vertex 1\nproperty float x\nproperty float y\nproperty float z\nend_header\n0 0 0\n";
    assert!(matches!(check_ply_header(bytes), Err(PlyError::UnsupportedContent)));
}

#[test]
fn ply_header_with_a_number_too_large() {
    let bytes = b"ply\nformat ascii 1.0\nelement vertex 18446744073709551616\nproperty float x\nend_header\n";
    assert!(matches!(check_ply_header(bytes), Err(PlyError::InvalidHeader)));
    let bytes = b"ply\nformat ascii 99999999999999999999999.0\nend_header\n";
    assert!(matches!(check_ply_header(bytes), Err(PlyError::InvalidHeader)));
    assert!(yuki::scene::ply::has_huge_number(bytes));
    // The largest count that can be read is accepted as far as numbers go
    let bytes = b"ply\nformat ascii 1.0\nelement vertex 18446744073709551615\nend_header\n";
    assert!(!yuki::scene::ply::has_huge_number(bytes));
    // Digits after the header are not looked at
    let bytes = b"ply\nformat ascii 1.0\nend_header\n123456789012345678901234567890\n";
    assert!(!yuki::scene::ply::has_huge_number(bytes));
}
