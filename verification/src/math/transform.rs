//! Transformations stored as a matrix together with its inverse.
use vstd::prelude::*;

use super::matrix::{identity_entry, is_transpose, lemma_transposed_twice, Matrix4x4};
use crate::common::ValueType;
use vstd::std_specs::cmp::PartialEqSpec;

verus! {

/// A transformation, held as its matrix and the inverse of that matrix.
#[derive(Clone, Debug)]
pub struct Transform<T> {
    m: Matrix4x4<T>,
    m_inv: Matrix4x4<T>,
}

impl<T> Transform<T> {
    /// The matrix of this `Transform`.
    pub closed spec fn matrix(&self) -> Matrix4x4<T> {
        self.m
    }

    /// The inverse matrix held by this `Transform`.
    pub closed spec fn inverse_matrix(&self) -> Matrix4x4<T> {
        self.m_inv
    }
}

/// `u` is the inverse of `t`: its matrix is `t`'s inverse matrix, and its
/// inverse matrix is `t`'s matrix.
pub open spec fn is_inverse<T>(u: Transform<T>, t: Transform<T>) -> bool {
    u.matrix() == t.inverse_matrix() && u.inverse_matrix() == t.matrix()
}

/// `u` is the transpose of `t`: both of its matrices are transposed.
pub open spec fn is_transposed<T>(u: Transform<T>, t: Transform<T>) -> bool {
    is_transpose(u.matrix(), t.matrix()) && is_transpose(u.inverse_matrix(), t.inverse_matrix())
}

/// Inverting a transform twice gives back the transform.
pub proof fn lemma_inverted_twice<T>(t: Transform<T>, u: Transform<T>, v: Transform<T>)
    requires
        is_inverse(u, t),
        is_inverse(v, u),
    ensures
        v.matrix() == t.matrix(),
        v.inverse_matrix() == t.inverse_matrix(),
{
}

/// Transposing a transform twice gives back the transform.
pub proof fn lemma_transform_transposed_twice<T>(t: Transform<T>, u: Transform<T>, v: Transform<T>)
    requires
        is_transposed(u, t),
        is_transposed(v, u),
    ensures
        v.matrix() == t.matrix(),
        v.inverse_matrix() == t.inverse_matrix(),
{
    lemma_transposed_twice(t.matrix(), u.matrix(), v.matrix());
    lemma_transposed_twice(t.inverse_matrix(), u.inverse_matrix(), v.inverse_matrix());
}

/// Inverting and transposing a transform can be done in either order.
pub proof fn lemma_inverse_transpose_commute<T>(
    t: Transform<T>,
    a: Transform<T>,
    b: Transform<T>,
    c: Transform<T>,
    d: Transform<T>,
)
    requires
        is_inverse(a, t),
        is_transposed(b, a),
        is_transposed(c, t),
        is_inverse(d, c),
    ensures
        b.matrix() == d.matrix(),
        b.inverse_matrix() == d.inverse_matrix(),
{
    assert(b.matrix().m =~= d.matrix().m) by {
        assert forall|i: int| 0 <= i < 4 implies b.matrix().m[i] == d.matrix().m[i] by {
            assert(b.matrix().m[i] =~= d.matrix().m[i]);
        }
    }
    assert(b.inverse_matrix().m =~= d.inverse_matrix().m) by {
        assert forall|i: int| 0 <= i < 4 implies b.inverse_matrix().m[i] == d.inverse_matrix().m[i] by {
            assert(b.inverse_matrix().m[i] =~= d.inverse_matrix().m[i]);
        }
    }
}

/// `m` is the identity matrix, as `T`'s `==` sees it.
pub open spec fn is_identity_matrix<T: ValueType>(m: Matrix4x4<T>) -> bool {
    forall|i: int, j: int|
        0 <= i < 4 && 0 <= j < 4 ==> #[trigger] m.m[i][j].eq_spec(&identity_entry::<T>(i, j))
}

impl<T: Copy> Transform<T> {
    /// Creates a new `Transform` from a [Matrix4x4] and its inverse.
    pub fn new_full(m: Matrix4x4<T>, m_inv: Matrix4x4<T>) -> (r: Self)
        ensures
            r.matrix() == m,
            r.inverse_matrix() == m_inv,
    {
        Self { m, m_inv }
    }

    /// Returns a reference to the [Matrix4x4] of this `Transform`.
    pub fn m(&self) -> (r: &Matrix4x4<T>)
        ensures
            *r == self.matrix(),
    {
        &self.m
    }

    /// Returns a reference to the inverse [Matrix4x4] of this `Transform`.
    pub fn m_inv(&self) -> (r: &Matrix4x4<T>)
        ensures
            *r == self.inverse_matrix(),
    {
        &self.m_inv
    }

    /// Returns the inverse of this `Transform`.
    pub fn inverted(&self) -> (r: Self)
        ensures
            is_inverse(r, *self),
    {
        Self::new_full(self.m_inv, self.m)
    }

    /// Returns the transpose of this `Transform`.
    pub fn transposed(&self) -> (r: Self)
        ensures
            is_transposed(r, *self),
    {
        Self::new_full(self.m.transposed(), self.m_inv.transposed())
    }
}

impl<T: ValueType> Transform<T> {
    /// Checks if this `Transform` is the identity transform.
    pub fn is_identity(&self) -> (r: bool)
        ensures
            T::obeys_eq_spec() ==> (r == is_identity_matrix(self.matrix())),
    {
        let o = T::one();
        let z = T::zero();
        let m = &self.m.m;
        let r = m[0][0] == o && m[0][1] == z && m[0][2] == z && m[0][3] == z && m[1][0] == z
            && m[1][1] == o && m[1][2] == z && m[1][3] == z && m[2][0] == z && m[2][1] == z
            && m[2][2] == o && m[2][3] == z && m[3][0] == z && m[3][1] == z && m[3][2] == z
            && m[3][3] == o;
        proof {
            if T::obeys_eq_spec() {
                if r {
                    assert forall|i: int, j: int| 0 <= i < 4 && 0 <= j < 4 implies #[trigger] m[i][j].eq_spec(
                        &identity_entry::<T>(i, j),
                    ) by {
                        assert(0 <= i < 4 && 0 <= j < 4);
                        if i == 0 {
                            if j == 0 {
                            } else if j == 1 {
                            } else if j == 2 {
                            } else {
                            }
                        } else if i == 1 {
                            if j == 0 {
                            } else if j == 1 {
                            } else if j == 2 {
                            } else {
                            }
                        } else if i == 2 {
                            if j == 0 {
                            } else if j == 1 {
                            } else if j == 2 {
                            } else {
                            }
                        } else {
                            if j == 0 {
                            } else if j == 1 {
                            } else if j == 2 {
                            } else {
                            }
                        }
                    }
                } else {
                    assert(!(m[0][0].eq_spec(&identity_entry::<T>(0, 0)) && m[0][1].eq_spec(&identity_entry::<T>(0, 1))
                        && m[0][2].eq_spec(&identity_entry::<T>(0, 2)) && m[0][3].eq_spec(&identity_entry::<T>(0, 3))
                        && m[1][0].eq_spec(&identity_entry::<T>(1, 0)) && m[1][1].eq_spec(&identity_entry::<T>(1, 1))
                        && m[1][2].eq_spec(&identity_entry::<T>(1, 2)) && m[1][3].eq_spec(&identity_entry::<T>(1, 3))
                        && m[2][0].eq_spec(&identity_entry::<T>(2, 0)) && m[2][1].eq_spec(&identity_entry::<T>(2, 1))
                        && m[2][2].eq_spec(&identity_entry::<T>(2, 2)) && m[2][3].eq_spec(&identity_entry::<T>(2, 3))
                        && m[3][0].eq_spec(&identity_entry::<T>(3, 0)) && m[3][1].eq_spec(&identity_entry::<T>(3, 1))
                        && m[3][2].eq_spec(&identity_entry::<T>(3, 2)) && m[3][3].eq_spec(&identity_entry::<T>(3, 3))));
                }
            }
        }
        r
    }
}

impl<T: ValueType> Default for Transform<T> {
    /// The identity transform.
    fn default() -> (r: Self)
        ensures
            r.matrix() == r.inverse_matrix(),
            forall|i: int, j: int|
                0 <= i < 4 && 0 <= j < 4 ==> #[trigger] r.matrix().m[i][j] == identity_entry::<T>(i, j),
    {
        let m = Matrix4x4::identity();
        Self::new_full(m, m)
    }
}

} // verus!
