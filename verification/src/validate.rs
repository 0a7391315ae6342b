//! Which generators, transition matrices and stationary distributions are
//! accepted.
//!
//! The validators read sums that the caller has computed: the sum of each row,
//! or of the whole distribution, and for a sum that should be one also that sum
//! less one.

use vstd::prelude::*;
use crate::binary64::{abs, absolute, at_most, greater, gt, le, nan, rank, ZERO};
use crate::error::ConnesError;
use crate::extrema::{abs_all, largest_abs, lemma_peak_is_largest, peak};
use crate::matrix::Matrix;

verus! {

/// How far a sum may lie from its target: the binary64 number nearest to one
/// billionth.
pub const TOLERANCE: u64 = 0x3E11_2E0B_E826_D695;

/// Whether every entry is a number greater than zero or not a number at all,
/// that is, no entry compares as zero or less.
pub open spec fn none_non_positive(entries: Seq<u64>) -> bool {
    forall|i: int| 0 <= i < entries.len() ==> !le(#[trigger] entries[i], ZERO)
}

/// The verdict on a generator of the given shape whose rows add up to
/// `row_sums`.
pub open spec fn generator_verdict(rows: usize, cols: usize, row_sums: Seq<u64>) -> Result<
    (),
    ConnesError,
> {
    if rows != cols {
        Err(ConnesError::NotSquare { rows, cols })
    } else if gt(peak(abs_all(row_sums)), TOLERANCE) {
        Err(ConnesError::RowSumsNotZero { max_abs: peak(abs_all(row_sums)) })
    } else {
        Ok(())
    }
}

/// The verdict on a transition matrix of the given shape, where `row_excess`
/// holds each row's sum less one.
pub open spec fn transition_verdict(rows: usize, cols: usize, row_excess: Seq<u64>) -> Result<
    (),
    ConnesError,
> {
    if rows != cols {
        Err(ConnesError::NotSquare { rows, cols })
    } else if gt(peak(abs_all(row_excess)), TOLERANCE) {
        Err(ConnesError::RowSumsNotOne { max_abs: peak(abs_all(row_excess)) })
    } else {
        Ok(())
    }
}

/// The verdict on a distribution with the given entries, which add up to
/// `sum`, where `excess` is that sum less one.
pub open spec fn stationary_verdict(entries: Seq<u64>, sum: u64, excess: u64) -> Result<
    (),
    ConnesError,
> {
    if !none_non_positive(entries) {
        Err(ConnesError::StationaryNonPositive)
    } else if gt(abs(excess), TOLERANCE) {
        Err(ConnesError::StationaryNotNormalized { sum })
    } else {
        Ok(())
    }
}

/// Accepts a square matrix whose row sums all lie within the tolerance of
/// zero; otherwise reports the shape, or the largest absolute row sum.
pub fn validate_generator(l: &Matrix, row_sums: &Vec<u64>) -> (r: Result<(), ConnesError>)
    ensures
        r == generator_verdict(l.rows, l.cols, row_sums@),
{
    if l.rows != l.cols {
        return Err(ConnesError::NotSquare { rows: l.rows, cols: l.cols });
    }
    let max_abs: u64 = largest_abs(row_sums);
    if greater(max_abs, TOLERANCE) {
        return Err(ConnesError::RowSumsNotZero { max_abs });
    }
    Ok(())
}

/// Accepts a square matrix whose row sums all lie within the tolerance of
/// one; otherwise reports the shape, or the largest distance of a row sum
/// from one.
pub fn validate_transition(p: &Matrix, row_excess: &Vec<u64>) -> (r: Result<(), ConnesError>)
    ensures
        r == transition_verdict(p.rows, p.cols, row_excess@),
{
    if p.rows != p.cols {
        return Err(ConnesError::NotSquare { rows: p.rows, cols: p.cols });
    }
    let max_abs: u64 = largest_abs(row_excess);
    if greater(max_abs, TOLERANCE) {
        return Err(ConnesError::RowSumsNotOne { max_abs });
    }
    Ok(())
}

/// Accepts a distribution none of whose entries is zero or less and whose sum
/// lies within the tolerance of one.
pub fn validate_stationary(pi: &Vec<u64>, sum: u64, excess: u64) -> (r: Result<(), ConnesError>)
    ensures
        r == stationary_verdict(pi@, sum, excess),
{
    let mut i: usize = 0;
    while i < pi.len()
        invariant
            i <= pi.len(),
            none_non_positive(pi@.take(i as int)),
        decreases pi.len() - i,
    {
        if at_most(pi[i], ZERO) {
            return Err(ConnesError::StationaryNonPositive);
        }
        proof {
            assert forall|k: int| 0 <= k < i + 1 implies !le(
                #[trigger] pi@.take(i + 1)[k],
                ZERO,
            ) by {
                if k < i {
                    assert(pi@.take(i + 1)[k] == pi@.take(i as int)[k]);
                }
            }
        }
        i += 1;
    }
    proof {
        assert(pi@.take(pi.len() as int) =~= pi@);
    }
    if greater(absolute(excess), TOLERANCE) {
        return Err(ConnesError::StationaryNotNormalized { sum });
    }
    Ok(())
}

/// A square generator each of whose rows adds up to exactly zero, of either
/// sign, is accepted.
pub proof fn lemma_exact_zero_rows_accepted(n: usize, row_sums: Seq<u64>)
    requires
        forall|i: int| 0 <= i < row_sums.len() ==> !nan(#[trigger] row_sums[i]) && rank(row_sums[i]) == 0,
    ensures
        generator_verdict(n, n, row_sums) is Ok,
{
    let sums = abs_all(row_sums);
    lemma_peak_is_largest(sums);
    if peak(sums) != ZERO {
        let k = choose|k: int| 0 <= k < sums.len() && #[trigger] sums[k] == peak(sums);
        assert(!nan(row_sums[k]) && rank(row_sums[k]) == 0);
    }
}

} // verus!
