//! Dense matrices of binary64 bit patterns, stored row by row.

use vstd::prelude::*;

verus! {

/// A matrix of `rows` rows and `cols` columns. Entry `(i, j)` is
/// `entries[i * cols + j]`.
#[derive(Debug, Clone)]
pub struct Matrix {
    pub rows: usize,
    pub cols: usize,
    pub entries: Vec<u64>,
}

/// The product of the two dimensions does not exceed the number of entries
/// once a row index is in range.
proof fn lemma_row_in_range(i: int, rows: int, cols: int)
    requires
        0 <= i < rows,
        0 <= cols,
    ensures
        0 <= i * cols,
        i * cols + cols <= rows * cols,
{
    assert(0 <= i * cols && (i + 1) * cols <= rows * cols) by (nonlinear_arith)
        requires
            0 <= i < rows,
            0 <= cols,
    ;
    assert((i + 1) * cols == i * cols + cols) by (nonlinear_arith);
}

/// The entry at place `(i, j)` of entries that are laid out in rows of `cols`.
pub open spec fn placed(entries: Seq<u64>, cols: int, i: int, j: int) -> u64 {
    entries[i * cols + j]
}

impl Matrix {
    /// There is exactly one entry for each place.
    pub open spec fn wf(&self) -> bool {
        self.entries@.len() == self.rows * self.cols
    }

    /// The entry in row `i` and column `j`.
    pub open spec fn at(&self, i: int, j: int) -> u64 {
        self.entries@[i * self.cols + j]
    }

    /// Row `i`, from left to right.
    pub open spec fn row_of(&self, i: int) -> Seq<u64> {
        Seq::new(self.cols as nat, |j: int| self.at(i, j))
    }

    /// Makes a matrix of the given shape out of its entries, row by row.
    /// There is a matrix exactly when the number of entries fits the shape.
    pub fn new(rows: usize, cols: usize, entries: Vec<u64>) -> (r: Option<Matrix>)
        ensures
            r is Some <==> entries@.len() == rows * cols,
            r matches Some(m) ==> m.wf() && m.rows == rows && m.cols == cols && m.entries@
                == entries@,
    {
        let given: usize = entries.len();
        match rows.checked_mul(cols) {
            Some(count) => {
                if given == count {
                    Some(Matrix { rows, cols, entries })
                } else {
                    None
                }
            },
            None => None,
        }
    }

    /// The matrix with rows and columns exchanged: its entry `(i, j)` is this
    /// matrix's entry `(j, i)`.
    pub fn transposed(&self) -> (r: Matrix)
        requires
            self.wf(),
        ensures
            r.wf(),
            r.rows == self.cols,
            r.cols == self.rows,
            forall|i: int, j: int|
                0 <= i < r.rows && 0 <= j < r.cols ==> #[trigger] r.at(i, j) == self.at(j, i),
    {
        let total: usize = self.entries.len();
        let mut entries: Vec<u64> = Vec::new();
        let mut i: usize = 0;
        while i < self.cols
            invariant
                i <= self.cols,
                self.wf(),
                total == self.entries@.len(),
                entries@.len() == i * self.rows,
                forall|a: int, b: int|
                    0 <= a < i && 0 <= b < self.rows ==> #[trigger] placed(
                        entries@,
                        self.rows as int,
                        a,
                        b,
                    ) == self.at(b, a),
            decreases self.cols - i,
        {
            let mut j: usize = 0;
            while j < self.rows
                invariant
                    i < self.cols,
                    j <= self.rows,
                    self.wf(),
                    total == self.entries@.len(),
                    entries@.len() == i * self.rows + j,
                    forall|a: int, b: int|
                        0 <= a < i && 0 <= b < self.rows ==> #[trigger] placed(
                            entries@,
                            self.rows as int,
                            a,
                            b,
                        ) == self.at(b, a),
                    forall|b: int|
                        0 <= b < j ==> #[trigger] placed(entries@, self.rows as int, i as int, b)
                            == self.at(b, i as int),
                decreases self.rows - j,
            {
                proof {
                    lemma_row_in_range(j as int, self.rows as int, self.cols as int);
                }
                let ghost before = entries@;
                entries.push(self.entries[j * self.cols + i]);
                proof {
                    assert forall|a: int, b: int| 0 <= a < i && 0 <= b < self.rows implies #[trigger] placed(
                        entries@,
                        self.rows as int,
                        a,
                        b,
                    ) == self.at(b, a) by {
                        lemma_row_in_range(a, i as int, self.rows as int);
                        assert(placed(before, self.rows as int, a, b) == self.at(b, a));
                    }
                    assert forall|b: int| 0 <= b < j + 1 implies #[trigger] placed(
                        entries@,
                        self.rows as int,
                        i as int,
                        b,
                    ) == self.at(b, i as int) by {
                        if b < j {
                            assert(placed(before, self.rows as int, i as int, b) == self.at(
                                b,
                                i as int,
                            ));
                        }
                    }
                }
                j += 1;
            }
            proof {
                assert((i + 1) * self.rows == i * self.rows + self.rows) by (nonlinear_arith);
            }
            i += 1;
        }
        let r = Matrix { rows: self.cols, cols: self.rows, entries };
        proof {
            assert(self.cols * self.rows == self.rows * self.cols) by (nonlinear_arith);
            assert forall|i: int, j: int| 0 <= i < r.rows && 0 <= j < r.cols implies #[trigger] r.at(
                i,
                j,
            ) == self.at(j, i) by {
                assert(placed(r.entries@, self.rows as int, i, j) == self.at(j, i));
            }
        }
        r
    }

    /// Whether the matrix has as many rows as columns.
    pub fn is_square(&self) -> (r: bool)
        ensures
            r == (self.rows == self.cols),
    {
        self.rows == self.cols
    }

    /// A copy of row `i`.
    pub fn row(&self, i: usize) -> (r: Vec<u64>)
        requires
            self.wf(),
            i < self.rows,
        ensures
            r@ == self.row_of(i as int),
    {
        let total: usize = self.entries.len();
        proof {
            lemma_row_in_range(i as int, self.rows as int, self.cols as int);
        }
        let start: usize = i * self.cols;
        let mut out: Vec<u64> = Vec::new();
        let mut j: usize = 0;
        while j < self.cols
            invariant
                j <= self.cols,
                self.wf(),
                start == i * self.cols,
                start + self.cols <= total,
                total == self.entries@.len(),
                out@.len() == j,
                forall|k: int| 0 <= k < j ==> out@[k] == self.at(i as int, k),
            decreases self.cols - j,
        {
            out.push(self.entries[start + j]);
            j += 1;
        }
        proof {
            assert(out@ =~= self.row_of(i as int));
        }
        out
    }
}

} // verus!
