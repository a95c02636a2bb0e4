//! Native verification of PLONK proofs over the BN254 scalar field: gate
//! evaluation, transcript replay, opening-query assembly and multi-open
//! batching.
pub mod field;
pub mod error;
pub mod arith;
pub mod expression;
pub mod schema;
pub mod verify;
pub mod queries;
pub mod transcript;
pub mod multiopen;
pub mod curve;
