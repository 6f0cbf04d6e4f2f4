//! A vector over the coordinates of a composite cone, addressed either as one
//! flat buffer or block by block, one block per constituent cone.

use crate::cones::coneset::{lemma_elements_before_monotonic, ConeSet};
use vstd::prelude::*;

verus! {

/// A flat buffer partitioned into consecutive blocks, one per cone of the
/// composite it was made for.
pub struct ConicVector<T> {
    vec: Vec<T>,
    // offsets[i] is where block i starts; the last entry is the buffer's length
    offsets: Vec<usize>,
}

impl<T> ConicVector<T> {
    /// The whole buffer.
    pub closed spec fn flat(&self) -> Seq<T> {
        self.vec@
    }

    /// Where each block starts, followed by the length of the buffer.
    pub closed spec fn offsets(&self) -> Seq<usize> {
        self.offsets@
    }

    /// The offsets partition the buffer: they start at zero, never decrease,
    /// and end at the buffer's length.
    pub open spec fn wf(&self) -> bool {
        &&& self.offsets().len() >= 1
        &&& self.offsets()[0] == 0
        &&& self.offsets()[self.offsets().len() - 1] == self.flat().len()
        &&& forall|i: int, j: int|
            0 <= i <= j < self.offsets().len() ==> self.offsets()[i] <= self.offsets()[j]
    }

    /// Number of blocks.
    pub open spec fn spec_len(&self) -> nat {
        (self.offsets().len() - 1) as nat
    }

    /// The content of block `i`.
    pub open spec fn block(&self, i: int) -> Seq<T> {
        self.flat().subrange(self.offsets()[i] as int, self.offsets()[i + 1] as int)
    }

    /// Position `p` of the buffer lies in block `i`.
    pub open spec fn block_holds(&self, i: int, p: int) -> bool {
        0 <= i < self.spec_len() && self.offsets()[i] <= p < self.offsets()[i + 1]
    }

    /// Partitions `vec` into the blocks of `cones`, or returns `None` when the
    /// length of `vec` is not the element count of `cones`.
    pub fn new(vec: Vec<T>, cones: &ConeSet) -> (v: Option<ConicVector<T>>)
        ensures
            v.is_some() <==> vec@.len() == cones.spec_numel(),
            v matches Some(x) ==> {
                &&& x.wf()
                &&& x.flat() == vec@
                &&& x.spec_len() == cones.spec_len()
                &&& forall|i: int|
                    0 <= i <= cones.spec_len() ==> #[trigger] x.offsets()[i]
                        == cones.spec_head_index(i as nat)
            },
    {
        let numel = cones.numel();
        if vec.len() != numel {
            return None;
        }
        let ncones = cones.len();
        let mut offsets: Vec<usize> = Vec::new();
        let mut i: usize = 0;
        while i < ncones
            invariant
                i <= ncones,
                ncones == cones.spec_len(),
                offsets@.len() == i,
                forall|j: int|
                    0 <= j < i ==> #[trigger] offsets@[j] == cones.spec_head_index(j as nat),
            decreases ncones - i,
        {
            offsets.push(cones.head_index(i));
            i = i + 1;
        }
        offsets.push(numel);
        proof {
            assert forall|i: int, j: int| 0 <= i <= j < offsets@.len() implies offsets@[i]
                <= offsets@[j] by {
                lemma_elements_before_monotonic(cones.kinds(), cones.dims(), i as nat, j as nat);
            }
        }
        Some(ConicVector { vec, offsets })
    }

    /// Number of blocks.
    pub fn len(&self) -> (n: usize)
        requires
            self.wf(),
        ensures
            n == self.spec_len(),
    {
        self.offsets.len() - 1
    }

    /// The whole buffer, read-only.
    pub fn as_slice(&self) -> (flat: &[T])
        ensures
            flat@ == self.flat(),
    {
        self.vec.as_slice()
    }

    /// The whole buffer, mutable. The partition stays as it is.
    pub fn as_mut_slice(&mut self) -> (flat: &mut [T])
        ensures
            flat@ == old(self).flat(),
            final(self).flat() == final(flat)@,
            final(self).offsets() == old(self).offsets(),
    {
        self.vec.as_mut_slice()
    }

    /// Gives the buffer back.
    pub fn into_vec(self) -> (vec: Vec<T>)
        ensures
            vec@ == self.flat(),
    {
        self.vec
    }

    /// Read-only view of block `i`.
    pub fn view(&self, i: usize) -> (block: &[T])
        requires
            self.wf(),
            i < self.spec_len(),
        ensures
            block@ == self.block(i as int),
    {
        assert(self.offsets@.len() == self.offsets.len());
        let start = self.offsets[i];
        let end = self.offsets[i + 1];
        vstd::slice::slice_subrange(self.vec.as_slice(), start, end)
    }

    /// Mutable view of block `i`. What is written through it becomes block
    /// `i`; the partition and every other block stay as they are.
    ///
    /// A slice keeps its length, so the vector stays well formed; the
    /// contract says so for every final content of that length.
    pub fn view_mut(&mut self, i: usize) -> (block: &mut [T])
        requires
            old(self).wf(),
            i < old(self).spec_len(),
        ensures
            block@ == old(self).block(i as int),
            final(self).offsets() == old(self).offsets(),
            final(self).flat() == old(self).flat().subrange(0, old(self).offsets()[i as int] as int)
                + final(block)@ + old(self).flat().subrange(
                old(self).offsets()[i + 1] as int,
                old(self).flat().len() as int,
            ),
            final(block)@.len() == block@.len() ==> {
                &&& final(self).wf()
                &&& final(self).block(i as int) == final(block)@
                &&& forall|j: int|
                    0 <= j < old(self).spec_len() && j != i ==> #[trigger] final(self).block(j)
                        == old(self).block(j)
            },
    {
        assert(self.offsets@.len() == self.offsets.len());
        let start = self.offsets[i];
        let end = self.offsets[i + 1];
        let (_, tail) = self.vec.as_mut_slice().split_at_mut(start);
        let (block, _) = tail.split_at_mut(end - start);
        block
    }
}

/// A block among the first `k` that holds position `p`, for a position below
/// the start of block `k`.
proof fn lemma_find_block<T>(v: ConicVector<T>, k: int, p: int) -> (i: int)
    requires
        v.wf(),
        1 <= k < v.offsets().len(),
        0 <= p < v.offsets()[k],
    ensures
        0 <= i < k,
        v.offsets()[i] <= p < v.offsets()[i + 1],
    decreases k,
{
    if v.offsets()[k - 1] <= p {
        k - 1
    } else {
        lemma_find_block(v, k - 1, p)
    }
}

/// The blocks of a well-formed vector tile its buffer: every position lies
/// in exactly one block, and holds there what the buffer holds.
pub proof fn lemma_blocks_tile_buffer<T>(v: ConicVector<T>, p: int)
    requires
        v.wf(),
        0 <= p < v.flat().len(),
    ensures
        exists|i: int| #[trigger]
            v.block_holds(i, p) && v.block(i)[p - v.offsets()[i]] == v.flat()[p],
        forall|i: int, j: int| v.block_holds(i, p) && v.block_holds(j, p) ==> i == j,
{
    let found = lemma_find_block(v, v.offsets().len() - 1, p);
    assert(v.offsets()[found + 1] <= v.offsets()[v.offsets().len() - 1]);
    assert(v.block_holds(found, p));
    assert(v.block(found)[p - v.offsets()[found]] == v.flat()[p]);
    assert forall|i: int, j: int| v.block_holds(i, p) && v.block_holds(j, p) implies i == j by {
        if i < j {
            assert(v.offsets()[i + 1] <= v.offsets()[j]);
        }
        if j < i {
            assert(v.offsets()[j + 1] <= v.offsets()[i]);
        }
    }
}

} // verus!
