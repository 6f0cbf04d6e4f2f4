//! Conversion of sparse matrix indices from the one-based convention of a
//! host language to the zero-based convention used here.
//!
//! A compressed-sparse-column matrix arrives as a column-pointer array and a
//! row-index array; every entry of both is one too large and is shifted down
//! by one, exactly.

use vstd::prelude::*;

verus! {

/// Every index is at least one, and fits in a `usize` once shifted.
pub open spec fn all_one_based(indices: Seq<i64>) -> bool {
    forall|i: int| 0 <= i < indices.len() ==> 1 <= #[trigger] indices[i] <= usize::MAX + 1
}

/// The indices, each shifted down by one.
pub open spec fn shifted_down(indices: Seq<i64>) -> Seq<int> {
    Seq::new(indices.len(), |i: int| indices[i] - 1)
}

/// The entries of `v` as integers.
pub open spec fn as_ints(v: Seq<usize>) -> Seq<int> {
    Seq::new(v.len(), |i: int| v[i] as int)
}

/// Shifts one-based indices down by one. Returns `None` when some index is
/// not one-based: below one, or too large for a `usize` after the shift.
pub fn to_zero_based(indices: &[i64]) -> (shifted: Option<Vec<usize>>)
    ensures
        shifted.is_some() <==> all_one_based(indices@),
        shifted matches Some(v) ==> as_ints(v@) == shifted_down(indices@),
{
    let mut shifted: Vec<usize> = Vec::with_capacity(indices.len());
    let mut i: usize = 0;
    while i < indices.len()
        invariant
            i <= indices@.len(),
            shifted@.len() == i,
            forall|j: int| 0 <= j < i ==> 1 <= #[trigger] indices@[j] <= usize::MAX + 1,
            forall|j: int| 0 <= j < i ==> #[trigger] shifted@[j] == indices@[j] - 1,
        decreases indices@.len() - i,
    {
        let index = indices[i];
        if index < 1 {
            return None;
        }
        let down: u64 = (index - 1) as u64;
        if down > usize::MAX as u64 {
            return None;
        }
        shifted.push(down as usize);
        i = i + 1;
    }
    assert(as_ints(shifted@) == shifted_down(indices@));
    Some(shifted)
}

} // verus!
