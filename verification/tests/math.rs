use yuki::common::{Maxi, Mini, ValueType};
use yuki::math::bounds::Bounds2;
use yuki::math::matrix::Matrix4x4;
use yuki::math::point::Point2;
use yuki::scene::pbrt::spectral::is_sorted;
use yuki::math::transform::Transform;
use yuki::math::vector::{Vec2, Vec3, Vec4};

fn sample() -> Matrix4x4<i32> {
    Matrix4x4::new([[1, 2, 3, 4], [5, 6, 7, 8], [9, 10, 11, 12], [13, 14, 15, 16]])
}

#[test]
fn matrix_rows_and_columns() {
    let m = sample();
    assert_eq!(m.row(1), [5, 6, 7, 8]);
    assert_eq!(m.col(2), [3, 7, 11, 15]);
}

#[test]
fn matrix_transposed() {
    let m = sample();
    let t = m.transposed();
    assert_eq!(t.m, [[1, 5, 9, 13], [2, 6, 10, 14], [3, 7, 11, 15], [4, 8, 12, 16]]);
    assert_eq!(t.transposed().m, m.m);
    for i in 0..4 {
        assert_eq!(m.col(i), t.row(i));
    }
}

#[test]
fn matrix_identity_and_zeros() {
    let i: Matrix4x4<u8> = Matrix4x4::identity();
    assert_eq!(i.m, [[1, 0, 0, 0], [0, 1, 0, 0], [0, 0, 1, 0], [0, 0, 0, 1]]);
    assert_eq!(i.transposed().m, i.m);
    let z: Matrix4x4<i64> = Matrix4x4::zeros();
    assert_eq!(z.m, [[0; 4]; 4]);
}

#[test]
fn matrix_row_mut() {
    let mut m = sample();
    m.row_mut(2)[1] = 0;
    assert_eq!(m.m[2], [9, 0, 11, 12]);
    assert_eq!(m.m[1], [5, 6, 7, 8]);
}

#[test]
fn transform_inverted_and_transposed() {
    let m = sample();
    let n = sample().transposed();
    let t = Transform::new_full(m, n);
    let u = t.inverted();
    assert_eq!(u.m().m, n.m);
    assert_eq!(u.m_inv().m, m.m);
    assert_eq!(u.inverted().m().m, m.m);
    let v = t.transposed();
    assert_eq!(v.m().m, m.transposed().m);
    assert_eq!(v.m_inv().m, n.transposed().m);
    assert_eq!(v.transposed().m().m, m.m);
}

#[test]
fn inverse_and_transpose_commute() {
    let t = Transform::new_full(sample(), sample().transposed());
    let a = t.inverted().transposed();
    let b = t.transposed().inverted();
    assert_eq!(a.m().m, b.m().m);
    assert_eq!(a.m_inv().m, b.m_inv().m);
}

#[test]
fn transform_identity() {
    let t: Transform<i32> = Transform::default();
    assert!(t.is_identity());
    assert_eq!(t.m().m, t.m_inv().m);
    let s = Transform::new_full(sample(), sample());
    assert!(!s.is_identity());
    let almost = Transform::new_full(
        Matrix4x4::new([[1, 0, 0, 0], [0, 1, 0, 0], [0, 0, 1, 0], [0, 0, 1, 1]]),
        Matrix4x4::identity(),
    );
    assert!(!almost.is_identity());
}

#[test]
fn value_type_constants() {
    assert_eq!(<u16 as ValueType>::zero(), 0);
    assert_eq!(<i8 as ValueType>::one(), 1);
    assert_eq!(3u32.mini(7), 3);
    assert_eq!((-3i64).maxi(-7), -3);
}

#[test]
fn vector_components() {
    let v2 = Vec2 { x: 4, y: 9 };
    assert_eq!(v2.min_comp(), 4);
    assert_eq!(v2.max_comp(), 9);
    assert_eq!(v2.max_dimension(), 1);
    let v3 = Vec3 { x: 7i32, y: -2, z: 7 };
    assert_eq!(v3.min_comp(), -2);
    assert_eq!(v3.max_comp(), 7);
    assert_eq!(v3.max_dimension(), 2);
    let v4 = Vec4 { x: 1u8, y: 8, z: 3, w: 5 };
    assert_eq!(v4.min_comp(), 1);
    assert_eq!(v4.max_comp(), 8);
    assert_eq!(v4.max_dimension(), 1);
    let v4b = Vec4 { x: 9i16, y: 1, z: 3, w: 2 };
    assert_eq!(v4b.max_dimension(), 0);
}

#[test]
fn bounds_pixels_row_by_row() {
    let bb = Bounds2 { p_min: Point2::new(2u16, 5), p_max: Point2::new(5, 7) };
    let mut it = bb.into_iter();
    let mut seen = Vec::new();
    while let Some(p) = it.next() {
        seen.push((p.x, p.y));
    }
    assert_eq!(seen, vec![(2, 5), (3, 5), (4, 5), (2, 6), (3, 6), (4, 6)]);
    assert!(it.next().is_none());
}

#[test]
fn single_pixel_bounds() {
    let bb = Bounds2 { p_min: Point2::new(0u16, 0), p_max: Point2::new(1, 1) };
    let mut it = bb.into_iter();
    assert!(matches!(it.next(), Some(p) if p.x == 0 && p.y == 0));
    assert!(it.next().is_none());
}

#[test]
fn sortedness() {
    assert!(is_sorted(&[1.0f32, 2.0, 2.0, 3.5]));
    assert!(!is_sorted(&[1.0f32, 0.5]));
    assert!(is_sorted(&[7u8]));
    assert!(is_sorted(&[300, 400, 500]));
}

#[test]
fn bounds_area_and_extent() {
    let bb = Bounds2 { p_min: Point2::new(2u16, 5), p_max: Point2::new(5, 7) };
    assert_eq!(bb.area(), 6);
    assert_eq!(bb.maximum_extent(), 0);
    let tall = Bounds2 { p_min: Point2::new(0u16, 0), p_max: Point2::new(2, 2) };
    assert_eq!(tall.maximum_extent(), 1);
}

#[test]
fn matrix_from_values() {
    let m = Matrix4x4::from((1..=16).collect::<Vec<i32>>());
    assert_eq!(m.m, sample().m);
}

#[test]
fn normal_from_vector() {
    let n = yuki::math::normal::Normal::from(Vec3 { x: 1, y: 2, z: 3 });
    assert_eq!((n.x, n.y, n.z), (1, 2, 3));
}
