//! Checks on the samples of a sampled spectrum.
use vstd::prelude::*;

use crate::math::vector::greater;
use vstd::std_specs::cmp::PartialOrdSpec;

verus! {

/// Checks that `values` never decrease, as `T`'s ordering sees it. `values`
/// must not be empty.
pub fn is_sorted<T: PartialOrd + Copy>(values: &[T]) -> (r: bool)
    requires
        values@.len() >= 1,
    ensures
        T::obeys_partial_cmp_spec() ==> (r == forall|i: int|
            0 <= i < values@.len() - 1 ==> !greater(#[trigger] values@[i], values@[i + 1])),
{
    let n = values.len() - 1;
    let mut i: usize = 0;
    while i < n
        invariant
            n == values@.len() - 1,
            i <= n,
            T::obeys_partial_cmp_spec() ==> forall|j: int|
                0 <= j < i ==> !greater(#[trigger] values@[j], values@[j + 1]),
        decreases n - i,
    {
        if values[i].gt(&values[i + 1]) {
            return false;
        }
        i += 1;
    }
    true
}

} // verus!
