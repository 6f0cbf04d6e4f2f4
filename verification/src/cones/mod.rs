//! Cone kinds, single cone blocks and the composite cone.

pub mod supported;
pub mod coneset;
pub mod tiling;
pub mod ordering;
