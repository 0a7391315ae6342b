//! The eigenvalues that the Dirac operator is rebuilt from.
//!
//! The operator is `U diag(1 / (epsilon + lambda_i)) U^T`, where the
//! `lambda_i` are the eigenvalues of the negated symmetrized generator,
//! clamped so that none is below zero. The caller decomposes and rebuilds;
//! this module clamps.

use vstd::prelude::*;
use crate::binary64::{greater, gt, nan, rank, ZERO};

verus! {

/// An eigenvalue clamped at zero: itself where it exceeds zero, positive zero
/// otherwise, and also where it is not a number.
pub open spec fn clamped(eigenvalue: u64) -> u64 {
    if gt(eigenvalue, ZERO) {
        eigenvalue
    } else {
        ZERO
    }
}

/// Every eigenvalue clamped at zero.
pub open spec fn clamped_all(eigenvalues: Seq<u64>) -> Seq<u64> {
    Seq::new(eigenvalues.len(), |i: int| clamped(eigenvalues[i]))
}

/// Clamps every eigenvalue at zero. What comes out are numbers, none of them
/// below zero.
pub fn clamp_eigenvalues(eigenvalues: &Vec<u64>) -> (r: Vec<u64>)
    ensures
        r@ == clamped_all(eigenvalues@),
        forall|i: int| 0 <= i < r@.len() ==> !nan(#[trigger] r@[i]) && rank(r@[i]) >= 0,
{
    let mut out: Vec<u64> = Vec::new();
    let mut i: usize = 0;
    while i < eigenvalues.len()
        invariant
            i <= eigenvalues.len(),
            out@.len() == i,
            forall|k: int| 0 <= k < i ==> out@[k] == clamped(eigenvalues@[k]),
        decreases eigenvalues.len() - i,
    {
        let x: u64 = eigenvalues[i];
        if greater(x, ZERO) {
            out.push(x);
        } else {
            out.push(ZERO);
        }
        i += 1;
    }
    proof {
        assert(out@ =~= clamped_all(eigenvalues@));
    }
    out
}

} // verus!
