//! The stationary estimate: which singular vector it is, and how its entries
//! are floored.
//!
//! The estimate of a stationary distribution is the right singular vector that
//! belongs to the smallest singular value of a matrix that annihilates the
//! distribution. The caller decomposes the matrix; this module picks the
//! vector and lifts its entries to a small positive floor. The caller then
//! divides the vector by its sum.

use vstd::prelude::*;
use crate::binary64::{gt, le, less, lt, nan, INFINITY, ZERO};
use crate::matrix::Matrix;

verus! {

/// No entry of an estimate stays below this, the number nearest to ten to the
/// power -15.
pub const FLOOR: u64 = 0x3CD2_03AF_9EE7_5616;

/// The index and the value of the smallest of the first `k` values, taking
/// the earlier of two equal ones; index 0 and infinity where none of them is
/// below infinity.
pub open spec fn running_smallest(values: Seq<u64>, k: int) -> (int, u64)
    decreases k,
{
    if k <= 0 {
        (0, INFINITY)
    } else {
        let before = running_smallest(values, k - 1);
        if lt(values[k - 1], before.1) {
            (k - 1, values[k - 1])
        } else {
            before
        }
    }
}

/// The index of the smallest value, or 0 where no value is below infinity.
pub open spec fn smallest_index(values: Seq<u64>) -> int {
    running_smallest(values, values.len() as int).0
}

/// Whether `at` is where the smallest value first occurs: the value there is
/// below infinity, no value is below it, and no earlier value equals it.
pub open spec fn first_smallest(values: Seq<u64>, at: int) -> bool {
    &&& 0 <= at < values.len()
    &&& lt(values[at], INFINITY)
    &&& forall|k: int| 0 <= k < values.len() ==> !lt(#[trigger] values[k], values[at])
    &&& forall|k: int| 0 <= k < at ==> !le(#[trigger] values[k], values[at])
}

proof fn lemma_running_smallest(values: Seq<u64>, k: int)
    requires
        0 <= k <= values.len(),
    ensures
        ({
            let (at, least) = running_smallest(values, k);
            if exists|j: int| 0 <= j < k && lt(#[trigger] values[j], INFINITY) {
                &&& first_smallest(values.take(k), at)
                &&& least == values[at]
            } else {
                at == 0 && least == INFINITY
            }
        }),
    decreases k,
{
    if k > 0 {
        lemma_running_smallest(values, k - 1);
        let before = running_smallest(values, k - 1);
        let (at, least) = running_smallest(values, k);
        let last = values[k - 1];
        let shorter = values.take(k - 1);
        let longer = values.take(k);
        assert forall|j: int| 0 <= j < k - 1 implies shorter[j] == longer[j] by {}
        if exists|j: int| 0 <= j < k - 1 && lt(#[trigger] values[j], INFINITY) {
            let w = choose|j: int| 0 <= j < k - 1 && lt(#[trigger] values[j], INFINITY);
            assert(0 <= w < k && lt(values[w], INFINITY));
            assert(first_smallest(shorter, before.0));
            if lt(last, before.1) {
                assert forall|j: int| 0 <= j < longer.len() implies !lt(
                    #[trigger] longer[j],
                    longer[at],
                ) by {
                    if j < k - 1 {
                        assert(!lt(shorter[j], shorter[before.0]));
                    }
                }
                assert forall|j: int| 0 <= j < at implies !le(#[trigger] longer[j], longer[at]) by {
                    assert(!lt(shorter[j], shorter[before.0]));
                }
            } else {
                assert forall|j: int| 0 <= j < longer.len() implies !lt(
                    #[trigger] longer[j],
                    longer[at],
                ) by {
                    if j < k - 1 {
                        assert(!lt(shorter[j], shorter[before.0]));
                    }
                }
                assert forall|j: int| 0 <= j < at implies !le(#[trigger] longer[j], longer[at]) by {
                    assert(!le(shorter[j], shorter[before.0]));
                }
            }
            assert(first_smallest(longer, at));
        } else {
            if lt(last, INFINITY) {
                assert(0 <= k - 1 < k && lt(values[k - 1], INFINITY));
                assert forall|j: int| 0 <= j < longer.len() implies !lt(
                    #[trigger] longer[j],
                    longer[at],
                ) by {
                    if j < k - 1 {
                        assert(!lt(values[j], INFINITY));
                    }
                }
                assert forall|j: int| 0 <= j < at implies !le(#[trigger] longer[j], longer[at]) by {
                    assert(!lt(values[j], INFINITY));
                }
                assert(first_smallest(longer, at));
            } else {
                assert forall|j: int| 0 <= j < k implies !lt(#[trigger] values[j], INFINITY) by {
                    if j < k - 1 {
                    }
                }
            }
        }
    }
}

/// Where some value is below infinity, the chosen index is where the smallest
/// value first occurs. Where none is, it is 0.
pub proof fn lemma_smallest_index(values: Seq<u64>)
    ensures
        if exists|j: int| 0 <= j < values.len() && lt(#[trigger] values[j], INFINITY) {
            first_smallest(values, smallest_index(values))
        } else {
            smallest_index(values) == 0
        },
{
    lemma_running_smallest(values, values.len() as int);
    assert(values.take(values.len() as int) =~= values);
}

/// The smallest value first occurs at one place only.
pub proof fn lemma_first_smallest_is_unique(values: Seq<u64>, a: int, b: int)
    requires
        first_smallest(values, a),
        first_smallest(values, b),
    ensures
        a == b,
{
    if a < b {
        assert(!le(values[a], values[b]));
        assert(!lt(values[b], values[a]));
    } else if b < a {
        assert(!le(values[b], values[a]));
        assert(!lt(values[a], values[b]));
    }
}

/// Finds the smallest of the singular values, the first of equal ones.
pub fn smallest_singular_index(values: &Vec<u64>) -> (r: usize)
    ensures
        r == smallest_index(values@),
        values@.len() > 0 ==> r < values@.len(),
        values@.len() == 0 ==> r == 0,
{
    let mut at: usize = 0;
    let mut least: u64 = INFINITY;
    let mut k: usize = 0;
    while k < values.len()
        invariant
            k <= values.len(),
            (at as int, least) == running_smallest(values@, k as int),
            k > 0 ==> at < k,
            k == 0 ==> at == 0,
        decreases values.len() - k,
    {
        if less(values[k], least) {
            least = values[k];
            at = k;
        }
        k += 1;
    }
    at
}

/// An entry lifted to the floor: the floor where the entry is below it, the
/// entry itself otherwise, and also where it is not a number.
pub open spec fn floored(entry: u64) -> u64 {
    if lt(entry, FLOOR) {
        FLOOR
    } else {
        entry
    }
}

/// Every entry lifted to the floor.
pub open spec fn floored_all(entries: Seq<u64>) -> Seq<u64> {
    Seq::new(entries.len(), |i: int| floored(entries[i]))
}

/// Lifts every entry that is below the floor to the floor.
pub fn floor_entries(entries: &Vec<u64>) -> (r: Vec<u64>)
    ensures
        r@ == floored_all(entries@),
{
    let mut out: Vec<u64> = Vec::new();
    let mut i: usize = 0;
    while i < entries.len()
        invariant
            i <= entries.len(),
            out@.len() == i,
            forall|k: int| 0 <= k < i ==> out@[k] == floored(entries@[k]),
        decreases entries.len() - i,
    {
        let x: u64 = entries[i];
        if less(x, FLOOR) {
            out.push(FLOOR);
        } else {
            out.push(x);
        }
        i += 1;
    }
    proof {
        assert(out@ =~= floored_all(entries@));
    }
    out
}

/// A floored entry that is a number is greater than zero.
pub proof fn lemma_floored_is_positive(entry: u64)
    ensures
        !nan(entry) ==> gt(floored(entry), ZERO),
        nan(entry) ==> floored(entry) == entry,
{
}

/// The unnormalized estimate of a stationary distribution, from a singular
/// value decomposition: the row of `v_t` that belongs to the smallest
/// singular value, with its entries lifted to the floor.
///
/// There has to be a row for every singular value, and at least one row.
pub fn left_nullspace_prob(singular_values: &Vec<u64>, v_t: &Matrix) -> (r: Vec<u64>)
    requires
        v_t.wf(),
        v_t.rows > 0,
        singular_values@.len() <= v_t.rows,
    ensures
        r@ == floored_all(v_t.row_of(smallest_index(singular_values@))),
{
    let at: usize = smallest_singular_index(singular_values);
    let row: Vec<u64> = v_t.row(at);
    floor_entries(&row)
}

} // verus!
