//! Row-major 4x4 matrices.
use vstd::prelude::*;

use crate::common::ValueType;

verus! {

/// A row-major 4x4 `Matrix4x4`.
#[derive(Debug, Copy, Clone)]
pub struct Matrix4x4<T> {
    /// Raw values in row-major order.
    pub m: [[T; 4]; 4],
}

/// The entry of the identity matrix at row `i`, column `j`.
pub open spec fn identity_entry<T: ValueType>(i: int, j: int) -> T {
    if i == j {
        T::one_value()
    } else {
        T::zero_value()
    }
}

/// `t` is the transpose of `m`.
pub open spec fn is_transpose<T>(t: Matrix4x4<T>, m: Matrix4x4<T>) -> bool {
    forall|i: int, j: int| 0 <= i < 4 && 0 <= j < 4 ==> #[trigger] t.m[i][j] == m.m[j][i]
}

/// Transposing a matrix twice gives back the matrix.
pub proof fn lemma_transposed_twice<T>(m: Matrix4x4<T>, t: Matrix4x4<T>, tt: Matrix4x4<T>)
    requires
        is_transpose(t, m),
        is_transpose(tt, t),
    ensures
        tt == m,
{
    assert forall|i: int| 0 <= i < 4 implies tt.m[i] == m.m[i] by {
        assert forall|j: int| 0 <= j < 4 implies tt.m[i][j] == m.m[i][j] by {
            assert(tt.m[i][j] == t.m[j][i]);
        }
        assert(tt.m[i] =~= m.m[i]);
    }
    assert(tt.m =~= m.m);
}

/// The `i`th column of a matrix, as `col` gives it, is the `i`th row of its
/// transpose.
pub proof fn lemma_column_is_row_of_transpose<T>(m: Matrix4x4<T>, t: Matrix4x4<T>, c: [T; 4], i: int)
    requires
        is_transpose(t, m),
        0 <= i < 4,
        forall|j: int| 0 <= j < 4 ==> #[trigger] c[j] == m.m[j][i],
    ensures
        c == t.m[i],
{
    assert(c =~= t.m[i]);
}

/// The identity matrix is its own transpose.
pub proof fn lemma_identity_symmetric<T: ValueType>(id: Matrix4x4<T>, t: Matrix4x4<T>)
    requires
        forall|i: int, j: int| 0 <= i < 4 && 0 <= j < 4 ==> #[trigger] id.m[i][j] == identity_entry::<T>(i, j),
        is_transpose(t, id),
    ensures
        t == id,
{
    assert forall|i: int| 0 <= i < 4 implies t.m[i] == id.m[i] by {
        assert forall|j: int| 0 <= j < 4 implies t.m[i][j] == id.m[i][j] by {
            assert(t.m[i][j] == id.m[j][i]);
            assert(id.m[j][i] == identity_entry::<T>(j, i));
            assert(id.m[i][j] == identity_entry::<T>(i, j));
        }
        assert(t.m[i] =~= id.m[i]);
    }
    assert(t.m =~= id.m);
}

impl<T: Copy> Matrix4x4<T> {
    /// Creates a new `Matrix4x4`.
    pub fn new(m: [[T; 4]; 4]) -> (r: Self)
        ensures
            r.m == m,
    {
        Self { m }
    }

    /// Creates a new `Matrix4x4` from 16 values in row-major order.
    pub fn from(m: Vec<T>) -> (r: Self)
        requires
            m@.len() == 16,
        ensures
            forall|i: int, j: int| 0 <= i < 4 && 0 <= j < 4 ==> #[trigger] r.m[i][j] == m@[4 * i + j],
    {
        let r = Self::new(
            [
                [m[0], m[1], m[2], m[3]],
                [m[4], m[5], m[6], m[7]],
                [m[8], m[9], m[10], m[11]],
                [m[12], m[13], m[14], m[15]],
            ],
        );
        proof {
            assert forall|i: int, j: int| 0 <= i < 4 && 0 <= j < 4 implies #[trigger] r.m[i][j] == m@[4 * i + j] by {
                if i == 0 {
                } else if i == 1 {
                } else if i == 2 {
                } else {
                }
            }
        }
        r
    }

    /// Returns the `i`th row of this `Matrix4x4`.
    pub fn row(&self, i: usize) -> (r: [T; 4])
        requires
            i < 4,
        ensures
            r == self.m[i as int],
    {
        self.m[i]
    }

    /// Returns a mutable reference to the `i`th row in this `Matrix4x4`.
    pub fn row_mut(&mut self, i: usize) -> (r: &mut [T; 4])
        requires
            i < 4,
        ensures
            *r == old(self).m[i as int],
            final(self).m@ == old(self).m@.update(i as int, *final(r)),
    {
        &mut self.m[i]
    }

    /// Returns the `i`th column of this `Matrix4x4`.
    pub fn col(&self, i: usize) -> (r: [T; 4])
        requires
            i < 4,
        ensures
            forall|j: int| 0 <= j < 4 ==> #[trigger] r[j] == self.m[j][i as int],
    {
        [self.m[0][i], self.m[1][i], self.m[2][i], self.m[3][i]]
    }

    /// Returns the transpose of this `Matrix4x4`.
    pub fn transposed(&self) -> (r: Self)
        ensures
            is_transpose(r, *self),
    {
        Self {
            m: [
                [self.m[0][0], self.m[1][0], self.m[2][0], self.m[3][0]],
                [self.m[0][1], self.m[1][1], self.m[2][1], self.m[3][1]],
                [self.m[0][2], self.m[1][2], self.m[2][2], self.m[3][2]],
                [self.m[0][3], self.m[1][3], self.m[2][3], self.m[3][3]],
            ],
        }
    }
}

impl<T: ValueType> Matrix4x4<T> {
    /// Creates a new identity `Matrix4x4`.
    pub fn identity() -> (r: Self)
        ensures
            forall|i: int, j: int|
                0 <= i < 4 && 0 <= j < 4 ==> #[trigger] r.m[i][j] == identity_entry::<T>(i, j),
    {
        let o = T::one();
        let z = T::zero();
        Self { m: [[o, z, z, z], [z, o, z, z], [z, z, o, z], [z, z, z, o]] }
    }

    /// Creates a new `Matrix4x4` filled with zeroes.
    pub fn zeros() -> (r: Self)
        ensures
            forall|i: int, j: int| 0 <= i < 4 && 0 <= j < 4 ==> #[trigger] r.m[i][j] == T::zero_value(),
    {
        let z = T::zero();
        Self { m: [[z, z, z, z], [z, z, z, z], [z, z, z, z], [z, z, z, z]] }
    }
}

} // verus!
