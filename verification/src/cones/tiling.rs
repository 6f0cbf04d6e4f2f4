//! How the blocks of a composite cone lie in its flat vector: they start at
//! zero, follow one another without gap or overlap, and end at the total
//! element count. The totals of a composite are the sums of those of its
//! parts.

use crate::cones::coneset::{
    degree_before, elements_before, lemma_elements_before_monotonic,
    lemma_totals_depend_on_prefix,
};
use crate::cones::supported::SupportedCones;
use vstd::prelude::*;

verus! {

/// Position `p` of the flat vector lies in the block of cone `i`.
pub open spec fn block_holds(
    kinds: Seq<SupportedCones>,
    dims: Seq<usize>,
    i: nat,
    p: nat,
) -> bool {
    elements_before(kinds, dims, i) <= p < elements_before(kinds, dims, i + 1)
}

/// The first block starts at zero, and every later block starts where the
/// block before it ends: at that block's start plus its element count.
pub proof fn lemma_offsets_accumulate(kinds: Seq<SupportedCones>, dims: Seq<usize>, i: nat)
    ensures
        elements_before(kinds, dims, 0) == 0,
        i > 0 ==> elements_before(kinds, dims, i) == elements_before(kinds, dims, (i - 1) as nat)
            + kinds[i - 1].elements(dims[i - 1] as nat),
{
}

/// Every block lies within the flat vector.
pub proof fn lemma_block_within_total(kinds: Seq<SupportedCones>, dims: Seq<usize>, i: nat)
    requires
        kinds.len() == dims.len(),
        i < kinds.len(),
    ensures
        elements_before(kinds, dims, i) <= elements_before(kinds, dims, i + 1),
        elements_before(kinds, dims, i + 1) <= elements_before(kinds, dims, kinds.len()),
{
    lemma_elements_before_monotonic(kinds, dims, i, i + 1);
    lemma_elements_before_monotonic(kinds, dims, i + 1, kinds.len());
}

/// Blocks of different cones do not overlap: the earlier one ends before, or
/// where, the later one starts.
pub proof fn lemma_blocks_disjoint(kinds: Seq<SupportedCones>, dims: Seq<usize>, i: nat, j: nat)
    requires
        kinds.len() == dims.len(),
        i < j,
    ensures
        elements_before(kinds, dims, i + 1) <= elements_before(kinds, dims, j),
        forall|p: nat| !(block_holds(kinds, dims, i, p) && block_holds(kinds, dims, j, p)),
{
    lemma_elements_before_monotonic(kinds, dims, i + 1, j);
}

/// A cone among the first `n` whose block holds position `p`, for a position
/// below the total of the first `n` cones.
proof fn lemma_find_block(kinds: Seq<SupportedCones>, dims: Seq<usize>, n: nat, p: nat) -> (i:
    nat)
    requires
        p < elements_before(kinds, dims, n),
    ensures
        i < n,
        block_holds(kinds, dims, i, p),
    decreases n,
{
    if p >= elements_before(kinds, dims, (n - 1) as nat) {
        (n - 1) as nat
    } else {
        lemma_find_block(kinds, dims, (n - 1) as nat, p)
    }
}

/// The blocks tile the flat vector: every position below the total element
/// count lies in the block of exactly one cone.
pub proof fn lemma_blocks_tile(kinds: Seq<SupportedCones>, dims: Seq<usize>, p: nat)
    requires
        kinds.len() == dims.len(),
        p < elements_before(kinds, dims, kinds.len()),
    ensures
        exists|i: nat| i < kinds.len() && block_holds(kinds, dims, i, p),
        forall|i: nat, j: nat|
            block_holds(kinds, dims, i, p) && block_holds(kinds, dims, j, p) ==> i == j,
{
    let found = lemma_find_block(kinds, dims, kinds.len(), p);
    assert(found < kinds.len() && block_holds(kinds, dims, found, p));
    assert forall|i: nat, j: nat|
        block_holds(kinds, dims, i, p) && block_holds(kinds, dims, j, p) implies i == j by {
        if i < j {
            lemma_elements_before_monotonic(kinds, dims, i + 1, j);
        }
        if j < i {
            lemma_elements_before_monotonic(kinds, dims, j + 1, i);
        }
    }
}

/// The totals are additive: those of the first cones of one composite put
/// after another are the totals of that other plus those of the cones added.
pub proof fn lemma_totals_of_concatenation(
    kinds1: Seq<SupportedCones>,
    dims1: Seq<usize>,
    kinds2: Seq<SupportedCones>,
    dims2: Seq<usize>,
    n: nat,
)
    requires
        kinds1.len() == dims1.len(),
        kinds2.len() == dims2.len(),
        n <= kinds2.len(),
    ensures
        elements_before(kinds1 + kinds2, dims1 + dims2, kinds1.len() + n) == elements_before(
            kinds1,
            dims1,
            kinds1.len(),
        ) + elements_before(kinds2, dims2, n),
        degree_before(kinds1 + kinds2, dims1 + dims2, kinds1.len() + n) == degree_before(
            kinds1,
            dims1,
            kinds1.len(),
        ) + degree_before(kinds2, dims2, n),
    decreases n,
{
    if n == 0 {
        lemma_totals_depend_on_prefix(
            kinds1 + kinds2,
            dims1 + dims2,
            kinds1,
            dims1,
            kinds1.len(),
        );
    } else {
        lemma_totals_of_concatenation(kinds1, dims1, kinds2, dims2, (n - 1) as nat);
        assert((kinds1 + kinds2)[kinds1.len() + n - 1] == kinds2[n - 1]);
        assert((dims1 + dims2)[kinds1.len() + n - 1] == dims2[n - 1]);
    }
}

} // verus!
