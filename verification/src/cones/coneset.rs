//! The composite cone: an ordered sequence of cone blocks with the offset of
//! each block in the flat vector that the whole composite occupies.

use crate::cones::supported::{cone_dict, ConeBlock, SupportedCones};
use std::collections::HashMap;
use std::ops::Range;
use std::slice::Iter;
use vstd::std_specs::iter::IteratorSpec;
use vstd::prelude::*;

verus! {

broadcast use {vstd::std_specs::hash::group_hash_axioms, vstd::std_specs::slice::group_slice_axioms};

/// Sum of the element counts of the first `n` cones of kinds `kinds` and
/// dimensions `dims`.
pub open spec fn elements_before(kinds: Seq<SupportedCones>, dims: Seq<usize>, n: nat) -> nat
    decreases n,
{
    if n == 0 {
        0
    } else {
        elements_before(kinds, dims, (n - 1) as nat) + kinds[n - 1].elements(dims[n - 1] as nat)
    }
}

/// Sum of the barrier degrees of the first `n` cones of kinds `kinds` and
/// dimensions `dims`.
pub open spec fn degree_before(kinds: Seq<SupportedCones>, dims: Seq<usize>, n: nat) -> nat
    decreases n,
{
    if n == 0 {
        0
    } else {
        degree_before(kinds, dims, (n - 1) as nat) + kinds[n - 1].barrier_degree(
            dims[n - 1] as nat,
        )
    }
}

/// Number of cones of kind `kind` among the first `n` of `kinds`.
pub open spec fn occurrences(kinds: Seq<SupportedCones>, kind: SupportedCones, n: nat) -> nat
    decreases n,
{
    if n == 0 {
        0
    } else {
        occurrences(kinds, kind, (n - 1) as nat) + if kinds[n - 1] == kind {
            1nat
        } else {
            0nat
        }
    }
}

/// The kinds of a sequence of cone blocks, in order.
pub open spec fn block_kinds(cones: Seq<ConeBlock>) -> Seq<SupportedCones> {
    Seq::new(cones.len(), |i: int| cones[i].spec_kind())
}

/// The dimensions of a sequence of cone blocks, in order.
pub open spec fn block_dims(cones: Seq<ConeBlock>) -> Seq<usize> {
    Seq::new(cones.len(), |i: int| cones[i].spec_dim())
}

/// Kinds and dimensions from which a composite cone can be built: one
/// dimension per kind, and totals that fit in a `usize`.
pub open spec fn composable(kinds: Seq<SupportedCones>, dims: Seq<usize>) -> bool {
    &&& kinds.len() == dims.len()
    &&& elements_before(kinds, dims, kinds.len()) <= usize::MAX
    &&& degree_before(kinds, dims, kinds.len()) <= usize::MAX
}

/// The running total of element counts never decreases.
pub proof fn lemma_elements_before_monotonic(
    kinds: Seq<SupportedCones>,
    dims: Seq<usize>,
    i: nat,
    j: nat,
)
    requires
        i <= j,
    ensures
        elements_before(kinds, dims, i) <= elements_before(kinds, dims, j),
    decreases j,
{
    if i < j {
        lemma_elements_before_monotonic(kinds, dims, i, (j - 1) as nat);
    }
}

/// The running total of barrier degrees never decreases.
pub proof fn lemma_degree_before_monotonic(
    kinds: Seq<SupportedCones>,
    dims: Seq<usize>,
    i: nat,
    j: nat,
)
    requires
        i <= j,
    ensures
        degree_before(kinds, dims, i) <= degree_before(kinds, dims, j),
    decreases j,
{
    if i < j {
        lemma_degree_before_monotonic(kinds, dims, i, (j - 1) as nat);
    }
}

/// The running totals depend only on the cones counted so far.
pub proof fn lemma_totals_depend_on_prefix(
    kinds1: Seq<SupportedCones>,
    dims1: Seq<usize>,
    kinds2: Seq<SupportedCones>,
    dims2: Seq<usize>,
    n: nat,
)
    requires
        n <= kinds1.len(),
        n <= kinds2.len(),
        n <= dims1.len(),
        n <= dims2.len(),
        forall|i: int| 0 <= i < n ==> kinds1[i] == kinds2[i],
        forall|i: int| 0 <= i < n ==> dims1[i] == dims2[i],
    ensures
        elements_before(kinds1, dims1, n) == elements_before(kinds2, dims2, n),
        degree_before(kinds1, dims1, n) == degree_before(kinds2, dims2, n),
    decreases n,
{
    if n > 0 {
        lemma_totals_depend_on_prefix(kinds1, dims1, kinds2, dims2, (n - 1) as nat);
    }
}

/// Fills `headidx` with the offset of the first element of each cone:
/// entry 0 is zero, and every later entry is the entry before it plus the
/// element count of the cone before it.
pub fn _coneset_make_headidx(headidx: &mut [usize], cones: &[ConeBlock])
    requires
        old(headidx)@.len() == cones@.len(),
        elements_before(block_kinds(cones@), block_dims(cones@), cones@.len()) <= usize::MAX,
    ensures
        final(headidx)@.len() == cones@.len(),
        forall|i: int|
            0 <= i < cones@.len() ==> #[trigger] final(headidx)@[i] == elements_before(
                block_kinds(cones@),
                block_dims(cones@),
                i as nat,
            ),
{
    let ghost kinds = block_kinds(cones@);
    let ghost dims = block_dims(cones@);
    if cones.len() > 0 {
        headidx[0] = 0;
        let mut i: usize = 1;
        while i < headidx.len()
            invariant
                1 <= i <= cones@.len(),
                headidx@.len() == cones@.len(),
                kinds == block_kinds(cones@),
                dims == block_dims(cones@),
                elements_before(kinds, dims, cones@.len()) <= usize::MAX,
                forall|j: int|
                    0 <= j < i ==> #[trigger] headidx@[j] == elements_before(kinds, dims, j as nat),
            decreases cones@.len() - i,
        {
            proof {
                lemma_elements_before_monotonic(kinds, dims, i as nat, cones@.len());
            }
            headidx[i] = headidx[i - 1] + cones[i - 1].numel();
            i = i + 1;
        }
    }
}

/// No kind occurs more often than there are cones.
pub proof fn lemma_occurrences_bounded(kinds: Seq<SupportedCones>, kind: SupportedCones, n: nat)
    ensures
        occurrences(kinds, kind, n) <= n,
    decreases n,
{
    if n > 0 {
        lemma_occurrences_bounded(kinds, kind, (n - 1) as nat);
    }
}

/// The table `counts` holds, under the ordinal of `kind`, how often `kind`
/// occurs among the first `n` of `kinds`; a kind that does not occur has no
/// entry.
spec fn counted(
    counts: Map<u64, usize>,
    kinds: Seq<SupportedCones>,
    kind: SupportedCones,
    n: nat,
) -> bool {
    if counts.contains_key(kind.ordinal()) {
        counts[kind.ordinal()] == occurrences(kinds, kind, n) && occurrences(kinds, kind, n) > 0
    } else {
        occurrences(kinds, kind, n) == 0
    }
}

/// The composite cone: an ordered sequence of cones treated as one cone over
/// the concatenation of their coordinates.
///
/// A composite is described by the kinds and dimensions of its cones; its
/// size, its degree and the offset of each cone are functions of those.
pub struct ConeSet {
    cones: Vec<ConeBlock>,
    // type tags and count of each cone kind
    types: Vec<SupportedCones>,
    type_counts: HashMap<u64, usize>,
    // overall size of the composite cone
    numel: usize,
    degree: usize,
    // index of the first element of each cone in the flat vector
    headidx: Vec<usize>,
}

impl ConeSet {
    #[verifier::type_invariant]
    spec fn inv(&self) -> bool {
        &&& self.types@ == block_kinds(self.cones@)
        &&& self.headidx@.len() == self.cones@.len()
        &&& self.numel == elements_before(self.kinds(), self.dims(), self.cones@.len())
        &&& self.degree == degree_before(self.kinds(), self.dims(), self.cones@.len())
        &&& forall|i: int|
            0 <= i < self.cones@.len() ==> #[trigger] self.headidx@[i] == elements_before(
                self.kinds(),
                self.dims(),
                i as nat,
            )
        &&& forall|kind: SupportedCones| #[trigger]
            counted(self.type_counts@, self.types@, kind, self.cones@.len())
    }

    /// The kinds of the constituent cones, in order.
    pub closed spec fn kinds(&self) -> Seq<SupportedCones> {
        self.types@
    }

    /// The dimensions the constituent cones were created with, in order.
    pub closed spec fn dims(&self) -> Seq<usize> {
        block_dims(self.cones@)
    }

    /// The constituent cones, in order.
    pub closed spec fn blocks(&self) -> Seq<ConeBlock> {
        self.cones@
    }

    /// Number of constituent cones.
    pub open spec fn spec_len(&self) -> nat {
        self.kinds().len()
    }

    /// Total number of coordinates of the composite.
    pub open spec fn spec_numel(&self) -> nat {
        elements_before(self.kinds(), self.dims(), self.kinds().len())
    }

    /// Total barrier degree of the composite.
    pub open spec fn spec_degree(&self) -> nat {
        degree_before(self.kinds(), self.dims(), self.kinds().len())
    }

    /// Offset of the first coordinate of cone `i` in the flat vector.
    pub open spec fn spec_head_index(&self, i: nat) -> nat {
        elements_before(self.kinds(), self.dims(), i)
    }

    /// Number of constituent cones of kind `kind`.
    pub open spec fn spec_type_count(&self, kind: SupportedCones) -> nat {
        occurrences(self.kinds(), kind, self.kinds().len())
    }

    /// Builds the composite of the cones with the given kinds and dimensions,
    /// in the given order.
    pub fn new(types: &[SupportedCones], dims: &[usize]) -> (cs: ConeSet)
        requires
            composable(types@, dims@),
        ensures
            cs.kinds() == types@,
            cs.dims() == dims@,
            cs.spec_len() == types@.len(),
            cs.spec_numel() == elements_before(types@, dims@, types@.len()),
            cs.spec_degree() == degree_before(types@, dims@, types@.len()),
            forall|i: nat| cs.spec_head_index(i) == elements_before(types@, dims@, i),
            forall|kind: SupportedCones|
                cs.spec_type_count(kind) == occurrences(types@, kind, types@.len()),
    {
        // make an internal copy to protect from user modification
        let kinds = vstd::slice::slice_to_vec(types);
        let ncones = kinds.len();
        let mut cones: Vec<ConeBlock> = Vec::with_capacity(ncones);

        // create cones with the given dims, and count up the number of each
        // kind, the elements and the degree
        let mut type_counts: HashMap<u64, usize> = HashMap::new();
        let mut numel: usize = 0;
        let mut degree: usize = 0;
        let mut i: usize = 0;
        while i < ncones
            invariant
                i <= ncones,
                ncones == types@.len(),
                kinds@ == types@,
                composable(types@, dims@),
                cones@.len() == i,
                forall|j: int|
                    0 <= j < i ==> (#[trigger] cones@[j]).spec_kind() == types@[j]
                        && cones@[j].spec_dim() == dims@[j],
                numel == elements_before(types@, dims@, i as nat),
                degree == degree_before(types@, dims@, i as nat),
                forall|kind: SupportedCones| #[trigger] counted(type_counts@, types@, kind, i as nat),
            decreases ncones - i,
        {
            proof {
                lemma_elements_before_monotonic(types@, dims@, (i + 1) as nat, ncones as nat);
                lemma_degree_before_monotonic(types@, dims@, (i + 1) as nat, ncones as nat);
            }
            let t = kinds[i];
            let cone = cone_dict(t, dims[i]).unwrap();
            numel = numel + cone.numel();
            degree = degree + cone.degree();

            let key = t.key();
            let seen: usize = match type_counts.get(&key) {
                Some(c) => *c,
                None => 0,
            };
            proof {
                assert(counted(type_counts@, types@, t, i as nat));
                lemma_occurrences_bounded(types@, t, i as nat);
            }
            let ghost before = type_counts@;
            type_counts.insert(key, seen + 1);
            assert forall|kind: SupportedCones| #[trigger]
                counted(type_counts@, types@, kind, (i + 1) as nat) by {
                assert(counted(before, types@, kind, i as nat));
            }
            cones.push(cone);
            i = i + 1;
        }

        // headidx gives the index of the first element of each constituent cone
        let mut headidx: Vec<usize> = vec![0; ncones];
        assert(block_kinds(cones@) == types@);
        assert(block_dims(cones@) == dims@);
        _coneset_make_headidx(headidx.as_mut_slice(), cones.as_slice());

        ConeSet { cones, types: kinds, type_counts, numel, degree, headidx }
    }

    /// Builds the composite as `new` does when the kinds and dimensions can
    /// be composed, and returns `None` when they cannot: when their numbers
    /// differ, or when the total element count or the total degree does not
    /// fit in a `usize`.
    pub fn try_new(types: &[SupportedCones], dims: &[usize]) -> (cs: Option<ConeSet>)
        ensures
            cs.is_some() <==> composable(types@, dims@),
            cs matches Some(c) ==> c.kinds() == types@ && c.dims() == dims@,
    {
        if types.len() != dims.len() {
            return None;
        }
        let ncones = types.len();
        let mut numel: usize = 0;
        let mut degree: usize = 0;
        let mut i: usize = 0;
        while i < ncones
            invariant
                i <= ncones,
                ncones == types@.len(),
                ncones == dims@.len(),
                numel == elements_before(types@, dims@, i as nat),
                degree == degree_before(types@, dims@, i as nat),
            decreases ncones - i,
        {
            proof {
                lemma_elements_before_monotonic(types@, dims@, (i + 1) as nat, ncones as nat);
                lemma_degree_before_monotonic(types@, dims@, (i + 1) as nat, ncones as nat);
            }
            let elements = match types[i].numel(dims[i]) {
                Some(e) => e,
                None => {
                    return None;
                },
            };
            numel = match numel.checked_add(elements) {
                Some(sum) => sum,
                None => {
                    return None;
                },
            };
            degree = match degree.checked_add(types[i].degree(dims[i])) {
                Some(sum) => sum,
                None => {
                    return None;
                },
            };
            i = i + 1;
        }
        Some(ConeSet::new(types, dims))
    }

    /// Number of constituent cones.
    pub fn len(&self) -> (n: usize)
        ensures
            n == self.spec_len(),
            n == self.dims().len(),
    {
        proof {
            use_type_invariant(self);
        }
        self.cones.len()
    }

    /// Total number of coordinates of the composite: the sum of the element
    /// counts of its cones.
    pub fn numel(&self) -> (n: usize)
        ensures
            n == self.spec_numel(),
    {
        proof {
            use_type_invariant(self);
        }
        self.numel
    }

    /// Total barrier degree of the composite: the sum of the degrees of its
    /// cones.
    pub fn degree(&self) -> (d: usize)
        ensures
            d == self.spec_degree(),
    {
        proof {
            use_type_invariant(self);
        }
        self.degree
    }

    /// Number of constituent cones of kind `kind`.
    pub fn type_count(&self, kind: SupportedCones) -> (n: usize)
        ensures
            n == self.spec_type_count(kind),
    {
        proof {
            use_type_invariant(self);
            assert(counted(self.type_counts@, self.types@, kind, self.cones@.len()));
        }
        let key = kind.key();
        match self.type_counts.get(&key) {
            Some(c) => *c,
            None => 0,
        }
    }

    /// Offset of the first coordinate of cone `i` in the flat vector.
    pub fn head_index(&self, i: usize) -> (start: usize)
        requires
            i < self.spec_len(),
        ensures
            start == self.spec_head_index(i as nat),
    {
        proof {
            use_type_invariant(self);
        }
        self.headidx[i]
    }

    /// The positions that cone `i` occupies in the flat vector: from its own
    /// offset up to, and not including, the offset of the cone after it.
    pub fn range(&self, i: usize) -> (r: Range<usize>)
        requires
            i < self.spec_len(),
        ensures
            r.start == self.spec_head_index(i as nat),
            r.end == self.spec_head_index((i + 1) as nat),
            r.end <= self.spec_numel(),
    {
        proof {
            use_type_invariant(self);
            lemma_elements_before_monotonic(
                self.kinds(),
                self.dims(),
                (i + 1) as nat,
                self.cones@.len(),
            );
        }
        let start = self.headidx[i];
        start..(start + self.cones[i].numel())
    }

    /// Aggregates the outcomes of rectifying the equilibration scaling cone
    /// by cone: the composite's scaling was changed exactly when the scaling
    /// of at least one cone was. `changed` holds the outcome for each cone.
    pub fn rectify_equilibration(&self, changed: &[bool]) -> (any_changed: bool)
        ensures
            any_changed <==> exists|i: int| 0 <= i < changed@.len() && changed@[i],
    {
        let mut any_changed = false;
        let mut i: usize = 0;
        while i < changed.len()
            invariant
                i <= changed@.len(),
                any_changed <==> exists|j: int| 0 <= j < i && changed@[j],
            decreases changed@.len() - i,
        {
            any_changed = any_changed || changed[i];
            i = i + 1;
        }
        any_changed
    }

    /// The cone at position `i`.
    pub fn cone(&self, i: usize) -> (c: &ConeBlock)
        requires
            i < self.spec_len(),
        ensures
            *c == self.blocks()[i as int],
            c.spec_kind() == self.kinds()[i as int],
            c.spec_dim() == self.dims()[i as int],
    {
        proof {
            use_type_invariant(self);
        }
        &self.cones[i]
    }

    /// Iterates over the constituent cones, in order.
    pub fn iter(&self) -> (it: Iter<'_, ConeBlock>)
        ensures
            it.remaining() == self.blocks().as_ref(),
            block_kinds(self.blocks()) == self.kinds(),
            block_dims(self.blocks()) == self.dims(),
    {
        proof {
            use_type_invariant(self);
        }
        self.cones.as_slice().iter()
    }
}

} // verus!
