//! Bookkeeping core of a composite cone: an ordered product of constraint
//! cones that a conic interior-point solver treats as one vector space.
//!
//! The crate holds the integer side of that abstraction: the supported cone
//! kinds with their element counts and barrier degrees, the composite cone
//! with its offset table, the partitioned vector that hands out one block per
//! constituent cone, and the index-base conversion used when sparse matrix
//! structure arrives from a one-based host.

pub mod cones;
pub mod conicvector;
pub mod indexing;
