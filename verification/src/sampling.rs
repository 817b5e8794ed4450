//! Inverting a tabulated cumulative distribution, as the path tracer's
//! environment sampling does.
//!
//! The distribution's values are floats; the caller passes keys that order
//! as the values do (with `-0.0` read as `0.0`), so the search compares
//! keys.

use vstd::prelude::*;

verus! {

/// Whether `s` never decreases.
pub open spec fn non_decreasing(s: Seq<u32>) -> bool {
    forall|i: int, j: int| 0 <= i <= j < s.len() ==> s[i] <= s[j]
}

/// The largest index `i` with `cdf[i] <= u`, or 0 when there is none.
/// On a table that never decreases, the search finds it; on any table the
/// result is a valid index (or 0 for an empty one).
pub fn upper_bound_index(cdf: &[u32], u: u32) -> (index: usize)
    ensures
        cdf@.len() == 0 ==> index == 0,
        cdf@.len() > 0 ==> index < cdf@.len(),
        non_decreasing(cdf@) && (forall|i: int| 0 <= i < cdf@.len() ==> u < #[trigger] cdf@[i]) ==> index == 0,
        non_decreasing(cdf@) && (exists|i: int| 0 <= i < cdf@.len() && #[trigger] cdf@[i] <= u) ==> {
            &&& cdf@[index as int] <= u
            &&& forall|j: int| index < j < cdf@.len() ==> u < #[trigger] cdf@[j]
        },
{
    let mut lo: usize = 0;
    let mut hi: usize = cdf.len();
    while lo < hi
        invariant
            lo <= hi <= cdf@.len(),
            non_decreasing(cdf@) ==> forall|i: int| 0 <= i < lo ==> #[trigger] cdf@[i] <= u,
            non_decreasing(cdf@) ==> forall|i: int| hi <= i < cdf@.len() ==> u < #[trigger] cdf@[i],
        decreases hi - lo,
    {
        let mid = lo + (hi - lo) / 2;
        if cdf[mid] <= u {
            lo = mid + 1;
        } else {
            hi = mid;
        }
    }
    proof {
        if lo > 0 && non_decreasing(cdf@) {
            assert(cdf@[0] <= u);
            assert(cdf@[lo - 1] <= u);
        }
    }
    if lo == 0 {
        0
    } else {
        lo - 1
    }
}

} // verus!
