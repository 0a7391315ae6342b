//! The reasons for which a triple is refused or a distance is not computed.

use vstd::prelude::*;

verus! {

/// Why an input was rejected. Numbers are reported as binary64 bit patterns.
#[derive(Debug, Clone, Copy, PartialEq, Eq, Structural)]
pub enum ConnesError {
    /// The matrix has `rows` rows and `cols` columns, and they differ.
    NotSquare { rows: usize, cols: usize },
    /// A state index reaches `len` states where the chain has only `n`.
    DimensionMismatch { len: usize, n: usize },
    /// Some entry of the stationary distribution is zero or negative.
    StationaryNonPositive,
    /// The stationary distribution adds up to `sum`, too far from one.
    StationaryNotNormalized { sum: u64 },
    /// Some row of the generator adds up to `max_abs` in absolute value, too
    /// far from zero.
    RowSumsNotZero { max_abs: u64 },
    /// Some row of the transition matrix adds up to a number whose distance
    /// from one is `max_abs`, which is too far.
    RowSumsNotOne { max_abs: u64 },
    /// The regularizer, carried here, is zero or negative.
    NonPositiveEpsilon(u64),
}

} // verus!
