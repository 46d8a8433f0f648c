//! Utility functions.
use vstd::prelude::*;

use crate::traits::Primitive;

verus! {

/// Clamp the value to a given range.
pub fn clamp<N: Primitive>(a: N, min: N, max: N) -> (r: N)
    ensures
        a.value() < min.value() ==> r == min,
        min.value() <= a.value() && a.value() > max.value() ==> r == max,
        min.value() <= a.value() <= max.value() ==> r == a,
{
    if a.less_than(min) {
        return min;
    }
    if max.less_than(a) {
        return max;
    }
    a
}

} // verus!
