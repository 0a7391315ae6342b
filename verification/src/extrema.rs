//! The largest of a list of numbers, never less than zero.

use vstd::prelude::*;
use crate::binary64::{abs, absolute, greater, gt, nan, SIGN_BIT, ZERO};

verus! {

/// The largest number of `values` that exceeds zero, or positive zero where
/// none does. Patterns that are not numbers are passed over.
pub open spec fn peak(values: Seq<u64>) -> u64
    decreases values.len(),
{
    if values.len() == 0 {
        ZERO
    } else {
        let before = peak(values.drop_last());
        if gt(values.last(), before) {
            values.last()
        } else {
            before
        }
    }
}

/// Every pattern of `values` with its sign bit cleared.
pub open spec fn abs_all(values: Seq<u64>) -> Seq<u64> {
    Seq::new(values.len(), |i: int| abs(values[i]))
}

/// A peak is a number, is not negative, is exceeded by none of the values,
/// and is either positive zero or one of the values.
pub proof fn lemma_peak_is_largest(values: Seq<u64>)
    ensures
        !nan(peak(values)),
        peak(values) < SIGN_BIT,
        forall|i: int| 0 <= i < values.len() ==> !gt(#[trigger] values[i], peak(values)),
        peak(values) == ZERO || exists|i: int|
            0 <= i < values.len() && #[trigger] values[i] == peak(values),
    decreases values.len(),
{
    if values.len() > 0 {
        let front = values.drop_last();
        lemma_peak_is_largest(front);
        let before = peak(front);
        assert forall|i: int| 0 <= i < values.len() implies !gt(
            #[trigger] values[i],
            peak(values),
        ) by {
            if i < values.len() - 1 {
                assert(values[i] == front[i]);
            }
        }
        if gt(values.last(), before) {
            assert(values[values.len() - 1] == peak(values));
        } else if before != ZERO {
            let k = choose|k: int| 0 <= k < front.len() && #[trigger] front[k] == before;
            assert(values[k] == peak(values));
        }
    }
}

/// Only one pattern has the properties of a peak: two patterns that both are
/// numbers, are not negative, are exceeded by no value, and are positive zero
/// or one of the values, are the same pattern.
pub proof fn lemma_peak_is_unique(values: Seq<u64>, a: u64, b: u64)
    requires
        !nan(a) && a < SIGN_BIT,
        !nan(b) && b < SIGN_BIT,
        forall|i: int| 0 <= i < values.len() ==> !gt(#[trigger] values[i], a),
        forall|i: int| 0 <= i < values.len() ==> !gt(#[trigger] values[i], b),
        a == ZERO || exists|i: int| 0 <= i < values.len() && #[trigger] values[i] == a,
        b == ZERO || exists|i: int| 0 <= i < values.len() && #[trigger] values[i] == b,
    ensures
        a == b,
{
    if a != ZERO {
        let i = choose|i: int| 0 <= i < values.len() && #[trigger] values[i] == a;
        assert(!gt(values[i], b));
    }
    if b != ZERO {
        let j = choose|j: int| 0 <= j < values.len() && #[trigger] values[j] == b;
        assert(!gt(values[j], a));
    }
}

/// The largest of `values`, never less than zero.
pub fn largest(values: &Vec<u64>) -> (r: u64)
    ensures
        r == peak(values@),
{
    let mut acc: u64 = ZERO;
    let mut i: usize = 0;
    while i < values.len()
        invariant
            i <= values.len(),
            acc == peak(values@.take(i as int)),
        decreases values.len() - i,
    {
        let v: u64 = values[i];
        proof {
            assert(values@.take(i + 1).drop_last() =~= values@.take(i as int));
        }
        if greater(v, acc) {
            acc = v;
        }
        i += 1;
    }
    proof {
        assert(values@.take(values.len() as int) =~= values@);
    }
    acc
}

/// The largest absolute value among `values`.
pub fn largest_abs(values: &Vec<u64>) -> (r: u64)
    ensures
        r == peak(abs_all(values@)),
{
    let mut acc: u64 = ZERO;
    let mut i: usize = 0;
    while i < values.len()
        invariant
            i <= values.len(),
            acc == peak(abs_all(values@).take(i as int)),
        decreases values.len() - i,
    {
        let v: u64 = absolute(values[i]);
        proof {
            assert(abs_all(values@).take(i + 1).drop_last() =~= abs_all(values@).take(i as int));
        }
        if greater(v, acc) {
            acc = v;
        }
        i += 1;
    }
    proof {
        assert(abs_all(values@).take(values.len() as int) =~= abs_all(values@));
    }
    acc
}

} // verus!
