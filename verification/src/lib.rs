//! Spectral triples of finite Markov chains: the decisions.
//!
//! A triple is a generator, a stationary weighting and a regularizer. This
//! crate holds every decision that building and using one takes: which inputs
//! are accepted, which singular vector is the stationary estimate, how
//! eigenvalues are clamped, and how the search for a Connes distance proceeds.
//! Numbers are carried as binary64 bit patterns; sums, products and matrix
//! decompositions are the caller's to compute and hand in.

pub mod binary64;
pub mod error;
pub mod extrema;
pub mod matrix;
pub mod validate;
pub mod search;
pub mod estimate;
pub mod dirac;
pub mod triple;
