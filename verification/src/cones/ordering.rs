//! The totals of a composite cone do not depend on the order of its cones:
//! two composites made of the same cones, in any order, have the same element
//! count, the same degree and the same count of every kind.

use crate::cones::coneset::{degree_before, elements_before, occurrences};
use crate::cones::supported::SupportedCones;
use vstd::prelude::*;
use vstd::seq_lib::{to_multiset_contains, to_multiset_len, to_multiset_remove};

verus! {

/// The cones of kinds `kinds` and dimensions `dims`, as pairs.
pub open spec fn cone_pairs(kinds: Seq<SupportedCones>, dims: Seq<usize>) -> Seq<
    (SupportedCones, usize),
> {
    Seq::new(kinds.len(), |i: int| (kinds[i], dims[i]))
}

/// Sum of the element counts of the cones `s`.
spec fn pairs_elements(s: Seq<(SupportedCones, usize)>) -> nat
    decreases s.len(),
{
    if s.len() == 0 {
        0
    } else {
        pairs_elements(s.drop_last()) + s.last().0.elements(s.last().1 as nat)
    }
}

/// Sum of the barrier degrees of the cones `s`.
spec fn pairs_degree(s: Seq<(SupportedCones, usize)>) -> nat
    decreases s.len(),
{
    if s.len() == 0 {
        0
    } else {
        pairs_degree(s.drop_last()) + s.last().0.barrier_degree(s.last().1 as nat)
    }
}

/// Number of cones of kind `kind` among the cones `s`.
spec fn pairs_occurrences(s: Seq<(SupportedCones, usize)>, kind: SupportedCones) -> nat
    decreases s.len(),
{
    if s.len() == 0 {
        0
    } else {
        pairs_occurrences(s.drop_last(), kind) + if s.last().0 == kind {
            1nat
        } else {
            0nat
        }
    }
}

/// The running totals over kinds and dimensions are the totals of the pairs
/// counted so far.
proof fn lemma_totals_as_pairs(
    kinds: Seq<SupportedCones>,
    dims: Seq<usize>,
    kind: SupportedCones,
    n: nat,
)
    requires
        kinds.len() == dims.len(),
        n <= kinds.len(),
    ensures
        elements_before(kinds, dims, n) == pairs_elements(cone_pairs(kinds, dims).take(n as int)),
        degree_before(kinds, dims, n) == pairs_degree(cone_pairs(kinds, dims).take(n as int)),
        occurrences(kinds, kind, n) == pairs_occurrences(
            cone_pairs(kinds, dims).take(n as int),
            kind,
        ),
    decreases n,
{
    if n > 0 {
        lemma_totals_as_pairs(kinds, dims, kind, (n - 1) as nat);
        let pairs = cone_pairs(kinds, dims);
        assert(pairs.take(n as int).drop_last() =~= pairs.take(n - 1));
        assert(pairs.take(n as int).last() == (kinds[n - 1], dims[n - 1]));
    }
}

/// Taking one cone out lowers the totals by what that cone contributes.
proof fn lemma_totals_without(s: Seq<(SupportedCones, usize)>, kind: SupportedCones, i: int)
    requires
        0 <= i < s.len(),
    ensures
        pairs_elements(s) == pairs_elements(s.remove(i)) + s[i].0.elements(s[i].1 as nat),
        pairs_degree(s) == pairs_degree(s.remove(i)) + s[i].0.barrier_degree(s[i].1 as nat),
        pairs_occurrences(s, kind) == pairs_occurrences(s.remove(i), kind) + if s[i].0 == kind {
            1nat
        } else {
            0nat
        },
    decreases s.len(),
{
    if i == s.len() - 1 {
        assert(s.remove(i) =~= s.drop_last());
    } else {
        lemma_totals_without(s.drop_last(), kind, i);
        assert(s.remove(i).drop_last() =~= s.drop_last().remove(i));
        assert(s.remove(i).last() == s.last());
    }
}

/// Two sequences of the same cones, in any order, have the same totals.
proof fn lemma_pairs_permutation(
    s1: Seq<(SupportedCones, usize)>,
    s2: Seq<(SupportedCones, usize)>,
    kind: SupportedCones,
)
    requires
        s1.to_multiset() == s2.to_multiset(),
    ensures
        pairs_elements(s1) == pairs_elements(s2),
        pairs_degree(s1) == pairs_degree(s2),
        pairs_occurrences(s1, kind) == pairs_occurrences(s2, kind),
    decreases s1.len(),
{
    to_multiset_len(s1);
    to_multiset_len(s2);
    if s1.len() > 0 {
        let x = s1.last();
        assert(s1.contains(x));
        to_multiset_contains(s1, x);
        to_multiset_contains(s2, x);
        let i = choose|i: int| 0 <= i < s2.len() && s2[i] == x;
        to_multiset_remove(s1, s1.len() - 1);
        to_multiset_remove(s2, i);
        assert(s1.remove(s1.len() - 1) =~= s1.drop_last());
        lemma_pairs_permutation(s1.drop_last(), s2.remove(i), kind);
        lemma_totals_without(s2, kind, i);
    }
}

/// The totals of a composite do not depend on the order of its cones: where
/// two lists of kinds and dimensions hold the same cones, each as often as
/// the other, their element counts, their degrees and their counts of every
/// kind agree.
pub proof fn lemma_totals_of_permutation(
    kinds1: Seq<SupportedCones>,
    dims1: Seq<usize>,
    kinds2: Seq<SupportedCones>,
    dims2: Seq<usize>,
)
    requires
        kinds1.len() == dims1.len(),
        kinds2.len() == dims2.len(),
        cone_pairs(kinds1, dims1).to_multiset() == cone_pairs(kinds2, dims2).to_multiset(),
    ensures
        kinds1.len() == kinds2.len(),
        elements_before(kinds1, dims1, kinds1.len()) == elements_before(
            kinds2,
            dims2,
            kinds2.len(),
        ),
        degree_before(kinds1, dims1, kinds1.len()) == degree_before(kinds2, dims2, kinds2.len()),
        forall|kind: SupportedCones|
            occurrences(kinds1, kind, kinds1.len()) == occurrences(kinds2, kind, kinds2.len()),
{
    let s1 = cone_pairs(kinds1, dims1);
    let s2 = cone_pairs(kinds2, dims2);
    to_multiset_len(s1);
    to_multiset_len(s2);
    assert(s1.take(s1.len() as int) =~= s1);
    assert(s2.take(s2.len() as int) =~= s2);
    assert forall|kind: SupportedCones|
        occurrences(kinds1, kind, kinds1.len()) == occurrences(kinds2, kind, kinds2.len()) by {
        lemma_totals_as_pairs(kinds1, dims1, kind, kinds1.len());
        lemma_totals_as_pairs(kinds2, dims2, kind, kinds2.len());
        lemma_pairs_permutation(s1, s2, kind);
    }
    lemma_totals_as_pairs(kinds1, dims1, SupportedCones::ZeroConeT, kinds1.len());
    lemma_totals_as_pairs(kinds2, dims2, SupportedCones::ZeroConeT, kinds2.len());
    lemma_pairs_permutation(s1, s2, SupportedCones::ZeroConeT);
}

/// Whether any cone's scaling was changed does not depend on the order of the
/// cones: two lists of the same outcomes, in any order, hold a change or
/// do not together.
pub proof fn lemma_any_changed_of_permutation(changed1: Seq<bool>, changed2: Seq<bool>)
    requires
        changed1.to_multiset() == changed2.to_multiset(),
    ensures
        (exists|i: int| 0 <= i < changed1.len() && changed1[i]) <==> (exists|i: int|
            0 <= i < changed2.len() && changed2[i]),
{
    to_multiset_contains(changed1, true);
    to_multiset_contains(changed2, true);
    if exists|i: int| 0 <= i < changed1.len() && changed1[i] {
        let i = choose|i: int| 0 <= i < changed1.len() && changed1[i];
        assert(changed1.contains(true));
    }
    if exists|i: int| 0 <= i < changed2.len() && changed2[i] {
        let i = choose|i: int| 0 <= i < changed2.len() && changed2[i];
        assert(changed2.contains(true));
    }
}

} // verus!
