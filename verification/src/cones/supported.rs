//! The supported cone kinds and the size of a single cone block.

use vstd::prelude::*;

verus! {

/// Tag of a supported cone family.
#[derive(Clone, Copy, Debug, PartialEq, Eq, Hash, Structural)]
pub enum SupportedCones {
    /// The zero cone, for equality constraints.
    ZeroConeT,
    /// The nonnegative orthant.
    NonnegativeConeT,
    /// The second-order cone.
    SecondOrderConeT,
    /// The exponential cone, in three dimensions.
    ExponentialConeT,
    /// The power cone, in three dimensions.
    PowerConeT,
    /// The cone of positive semidefinite matrices, stored as packed triangles.
    PSDTriangleConeT,
}

/// Number of entries in the packed triangle of an `n` by `n` symmetric matrix.
pub open spec fn triangular_number(n: nat) -> nat {
    n * (n + 1) / 2
}

impl SupportedCones {
    /// Number of scalar coordinates that a cone of this kind occupies when it
    /// is created with dimension `dim`.
    ///
    /// The exponential and power cones are three-dimensional whatever `dim`
    /// says; a semidefinite block of side `dim` is stored as its packed
    /// triangle.
    pub open spec fn elements(self, dim: nat) -> nat {
        match self {
            SupportedCones::ZeroConeT => dim,
            SupportedCones::NonnegativeConeT => dim,
            SupportedCones::SecondOrderConeT => dim,
            SupportedCones::ExponentialConeT => 3,
            SupportedCones::PowerConeT => 3,
            SupportedCones::PSDTriangleConeT => triangular_number(dim),
        }
    }

    /// Barrier degree of a cone of this kind created with dimension `dim`.
    pub open spec fn barrier_degree(self, dim: nat) -> nat {
        match self {
            SupportedCones::ZeroConeT => 0,
            SupportedCones::NonnegativeConeT => dim,
            SupportedCones::SecondOrderConeT => 1,
            SupportedCones::ExponentialConeT => 3,
            SupportedCones::PowerConeT => 3,
            SupportedCones::PSDTriangleConeT => dim,
        }
    }

    /// Position of the kind in the declaration order, from 0 to 5.
    pub open spec fn ordinal(self) -> u64 {
        match self {
            SupportedCones::ZeroConeT => 0,
            SupportedCones::NonnegativeConeT => 1,
            SupportedCones::SecondOrderConeT => 2,
            SupportedCones::ExponentialConeT => 3,
            SupportedCones::PowerConeT => 4,
            SupportedCones::PSDTriangleConeT => 5,
        }
    }

    /// The kind's ordinal, as a key for counting tables.
    pub fn key(self) -> (k: u64)
        ensures
            k == self.ordinal(),
    {
        match self {
            SupportedCones::ZeroConeT => 0,
            SupportedCones::NonnegativeConeT => 1,
            SupportedCones::SecondOrderConeT => 2,
            SupportedCones::ExponentialConeT => 3,
            SupportedCones::PowerConeT => 4,
            SupportedCones::PSDTriangleConeT => 5,
        }
    }

    /// Computes `self.elements(dim)`, or `None` when the count does not fit
    /// in a `usize`.
    pub fn numel(self, dim: usize) -> (n: Option<usize>)
        ensures
            n.is_some() <==> self.elements(dim as nat) <= usize::MAX,
            n matches Some(v) ==> v == self.elements(dim as nat),
    {
        match self {
            SupportedCones::ZeroConeT => Some(dim),
            SupportedCones::NonnegativeConeT => Some(dim),
            SupportedCones::SecondOrderConeT => Some(dim),
            SupportedCones::ExponentialConeT => Some(3),
            SupportedCones::PowerConeT => Some(3),
            SupportedCones::PSDTriangleConeT => packed_triangle_len(dim),
        }
    }

    /// Computes `self.barrier_degree(dim)`.
    pub fn degree(self, dim: usize) -> (d: usize)
        ensures
            d == self.barrier_degree(dim as nat),
    {
        match self {
            SupportedCones::ZeroConeT => 0,
            SupportedCones::NonnegativeConeT => dim,
            SupportedCones::SecondOrderConeT => 1,
            SupportedCones::ExponentialConeT => 3,
            SupportedCones::PowerConeT => 3,
            SupportedCones::PSDTriangleConeT => dim,
        }
    }
}

/// Length of the packed triangle of an `n` by `n` symmetric matrix, or `None`
/// when it does not fit in a `usize`.
pub fn packed_triangle_len(n: usize) -> (len: Option<usize>)
    ensures
        len.is_some() <==> triangular_number(n as nat) <= usize::MAX,
        len matches Some(v) ==> v == triangular_number(n as nat),
{
    if n == usize::MAX {
        assert(triangular_number(n as nat) > usize::MAX) by (nonlinear_arith)
            requires
                n == usize::MAX,
                usize::MAX >= 0xffff_ffff,
        ;
        return None;
    }
    // One of n and n + 1 is even: halve that one before multiplying, so that
    // the product overflows exactly when the result does.
    let (a, b): (usize, usize) = if n % 2 == 0 {
        (n / 2, n + 1)
    } else {
        (n, (n + 1) / 2)
    };
    assert(a * b == triangular_number(n as nat)) by (nonlinear_arith)
        requires
            (n % 2 == 0 && a == n / 2 && b == n + 1) || (n % 2 == 1 && a == n && b == (n + 1) / 2),
    ;
    a.checked_mul(b)
}

/// One constituent cone of a composite: its kind, the dimension it was created
/// with, and the number of coordinates it occupies.
#[derive(Clone, Copy, Debug)]
pub struct ConeBlock {
    kind: SupportedCones,
    dim: usize,
    numel: usize,
}

impl ConeBlock {
    #[verifier::type_invariant]
    spec fn inv(&self) -> bool {
        self.numel == self.kind.elements(self.dim as nat)
    }

    /// The cone's kind.
    pub closed spec fn spec_kind(&self) -> SupportedCones {
        self.kind
    }

    /// The dimension the cone was created with.
    pub closed spec fn spec_dim(&self) -> usize {
        self.dim
    }

    /// Number of coordinates the cone occupies.
    pub open spec fn spec_numel(&self) -> nat {
        self.spec_kind().elements(self.spec_dim() as nat)
    }

    /// Barrier degree of the cone.
    pub open spec fn spec_degree(&self) -> nat {
        self.spec_kind().barrier_degree(self.spec_dim() as nat)
    }

    /// The cone's kind.
    #[verifier::when_used_as_spec(spec_kind)]
    pub fn kind(&self) -> (k: SupportedCones)
        ensures
            k == self.spec_kind(),
    {
        self.kind
    }

    /// The dimension the cone was created with.
    #[verifier::when_used_as_spec(spec_dim)]
    pub fn dim(&self) -> (d: usize)
        ensures
            d == self.spec_dim(),
    {
        self.dim
    }

    /// Number of coordinates the cone occupies.
    pub fn numel(&self) -> (n: usize)
        ensures
            n == self.spec_numel(),
    {
        proof {
            use_type_invariant(self);
        }
        self.numel
    }

    /// Barrier degree of the cone.
    pub fn degree(&self) -> (d: usize)
        ensures
            d == self.spec_degree(),
    {
        self.kind.degree(self.dim)
    }
}

/// Creates the cone of the given kind and dimension, or `None` when its
/// element count does not fit in a `usize`.
pub fn cone_dict(kind: SupportedCones, dim: usize) -> (cone: Option<ConeBlock>)
    ensures
        cone.is_some() <==> kind.elements(dim as nat) <= usize::MAX,
        cone matches Some(c) ==> c.spec_kind() == kind && c.spec_dim() == dim,
{
    match kind.numel(dim) {
        Some(numel) => Some(ConeBlock { kind, dim, numel }),
        None => None,
    }
}

} // verus!
