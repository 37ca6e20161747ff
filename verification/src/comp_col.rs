//! Compressed-column sparse matrices.
//!
//! A compressed-column matrix stores the non-zero values of a sparse matrix
//! in column-major order: one vector of values, one vector giving each
//! value's row index, and one vector of per-column offsets into the other
//! two.  Column `c` occupies the half-open index range
//! `[col_offsets[c], col_offsets[c + 1])`, and within that range the row
//! indices are strictly ascending — the solver relies on this for pivoting,
//! and value lookup relies on it for binary search.  A column with no
//! non-zero entry simply repeats the previous offset.

use vstd::prelude::*;

use crate::error::Error;
use crate::sparse_matrix::SparseMat;
use crate::sparse_matrix::lemma_dom_bounds;
use crate::sparse_matrix::lemma_dom_finite;
use crate::value_type::ValueType;

verus! {

/// Offsets never decrease as the column index grows.
pub open spec fn offsets_monotone(offs: Seq<i32>) -> bool {
    forall|a: int, b: int| #![trigger offs[a], offs[b]]
        0 <= a <= b < offs.len() ==> offs[a] <= offs[b]
}

/// One column's slice `[start, end)` of the row-index vector is in range
/// for `num_rows` rows and strictly ascending.
pub open spec fn column_ok(num_rows: int, rows: Seq<i32>, start: int, end: int) -> bool {
    &&& forall|i: int| start <= i < end ==> 0 <= #[trigger] rows[i] < num_rows
    &&& forall|i: int, j: int| #![trigger rows[i], rows[j]]
        start <= i < j < end ==> rows[i] < rows[j]
}

/// The compressed-column invariant over the three backing sequences.
///
/// Offsets start at zero, never decrease, and end at the number of stored
/// values; values and row indices run in lockstep; within each column the
/// row indices are strictly ascending and within the row bound.
pub open spec fn valid_comp_col<P>(
    num_rows: int,
    vals: Seq<P>,
    rows: Seq<i32>,
    offs: Seq<i32>,
) -> bool {
    &&& offs.len() >= 1
    &&& vals.len() == rows.len()
    &&& offs[0] == 0
    &&& offs[offs.len() - 1] == vals.len()
    &&& offsets_monotone(offs)
    &&& forall|c: int|
        0 <= c < offs.len() - 1 ==> #[trigger] column_ok(
            num_rows,
            rows,
            offs[c] as int,
            offs[c + 1] as int,
        )
}

/// The raw vectors comprising a compressed-column matrix, before validation.
pub struct CompColRaw<P: ValueType> {
    pub num_rows: usize,
    pub non_zero_vals: Vec<P>,
    pub row_indices: Vec<i32>,
    pub col_offsets: Vec<i32>,
}

impl<P: ValueType> CompColRaw<P> {
    /// Whether these raw vectors satisfy the compressed-column invariant.
    pub open spec fn valid(self) -> bool {
        valid_comp_col(
            self.num_rows as int,
            self.non_zero_vals@,
            self.row_indices@,
            self.col_offsets@,
        )
    }
}

/// Check that an offset vector never decreases.
fn check_offsets_monotone(offs: &Vec<i32>) -> (r: bool)
    ensures
        r == offsets_monotone(offs@),
{
    let n = offs.len();
    if n == 0 {
        return true;
    }
    let mut c: usize = 0;
    while c < n - 1
        invariant
            n == offs@.len(),
            n >= 1,
            c <= n - 1,
            forall|a: int, b: int| #![trigger offs@[a], offs@[b]]
                0 <= a <= b <= c ==> offs@[a] <= offs@[b],
        decreases n - 1 - c,
    {
        if offs[c] > offs[c + 1] {
            assert(!offsets_monotone(offs@)) by {
                assert(offs@[c as int] > offs@[c as int + 1]);
            }
            return false;
        }
        proof {
            assert forall|a: int, b: int| #![trigger offs@[a], offs@[b]]
                0 <= a <= b <= c + 1 implies offs@[a] <= offs@[b] by {
                if b == c + 1 && a < c + 1 {
                    assert(offs@[a] <= offs@[c as int]);
                }
            }
        }
        c = c + 1;
    }
    true
}

/// Check one column's slice of the row-index vector: in range and strictly
/// ascending.
fn check_one_column(num_rows: usize, rows: &Vec<i32>, start: usize, end: usize) -> (r: bool)
    requires
        start <= end <= rows@.len(),
    ensures
        r == column_ok(num_rows as int, rows@, start as int, end as int),
{
    let mut i: usize = start;
    while i < end
        invariant
            start <= i <= end <= rows@.len(),
            forall|j: int| start <= j < i ==> 0 <= #[trigger] rows@[j] < num_rows,
            forall|a: int, b: int| #![trigger rows@[a], rows@[b]]
                start <= a < b < i ==> rows@[a] < rows@[b],
        decreases end - i,
    {
        let rv = rows[i];
        if rv < 0 || rv as usize >= num_rows {
            assert(!column_ok(num_rows as int, rows@, start as int, end as int)) by {
                assert(!(0 <= rows@[i as int] < num_rows));
            }
            return false;
        }
        if i > start {
            if rows[i - 1] >= rv {
                assert(!column_ok(num_rows as int, rows@, start as int, end as int)) by {
                    assert(rows@[i as int - 1] >= rows@[i as int]);
                }
                return false;
            }
            proof {
                assert forall|a: int, b: int| #![trigger rows@[a], rows@[b]]
                    start <= a < b < i + 1 implies rows@[a] < rows@[b] by {
                    if b == i as int && a < i as int - 1 {
                        assert(rows@[a] < rows@[i as int - 1]);
                    }
                }
            }
        }
        i = i + 1;
    }
    true
}

/// A validated compressed-column matrix: the shape the solver consumes.
///
/// Immutable after construction; [`CompColMat::from_raw`] establishes the
/// invariant and every accessor relies on it.
pub struct CompColMat<P: ValueType> {
    num_rows: usize,
    non_zero_vals: Vec<P>,
    row_indices: Vec<i32>,
    col_offsets: Vec<i32>,
}

impl<P: ValueType> CompColMat<P> {
    /// The number of rows, as seen by specifications.
    pub closed spec fn rows_spec(self) -> int {
        self.num_rows as int
    }

    /// The number of columns: one less than the offset vector's length.
    pub open spec fn cols_spec(self) -> int {
        self.col_offs_spec().len() - 1
    }

    /// The stored values, as seen by specifications.
    pub closed spec fn vals_spec(self) -> Seq<P> {
        self.non_zero_vals@
    }

    /// The row indices, as seen by specifications.
    pub closed spec fn row_inds_spec(self) -> Seq<i32> {
        self.row_indices@
    }

    /// The column offsets, as seen by specifications.
    pub closed spec fn col_offs_spec(self) -> Seq<i32> {
        self.col_offsets@
    }

    /// The compressed-column invariant, over this matrix's own vectors.
    pub open spec fn wf(self) -> bool {
        valid_comp_col(self.rows_spec(), self.vals_spec(), self.row_inds_spec(),
            self.col_offs_spec())
    }

    /// The value stored at `(row, col)`: the value at the unique in-column
    /// position whose row index is `row`, or the additive identity when the
    /// column holds no such position.
    pub open spec fn value_spec(self, row: int, col: int) -> P {
        if exists|i: int|
            self.col_offs_spec()[col] <= i < self.col_offs_spec()[col + 1]
                && #[trigger] self.row_inds_spec()[i] == row {
            let i = choose|i: int|
                self.col_offs_spec()[col] <= i < self.col_offs_spec()[col + 1]
                    && #[trigger] self.row_inds_spec()[i] == row;
            self.vals_spec()[i]
        } else {
            P::zero_spec()
        }
    }

    /// Validate raw vectors into a compressed-column matrix.
    ///
    /// Succeeds exactly when the raw vectors satisfy the compressed-column
    /// invariant; any violation reports `Error::CompColError`, and nothing
    /// is silently truncated or padded.
    #[verifier::loop_isolation(false)]
    pub fn from_raw(raw: CompColRaw<P>) -> (r: Result<CompColMat<P>, Error>)
        ensures
            match r {
                Ok(m) => {
                    &&& raw.valid()
                    &&& m.wf()
                    &&& m.rows_spec() == raw.num_rows
                    &&& m.vals_spec() == raw.non_zero_vals@
                    &&& m.row_inds_spec() == raw.row_indices@
                    &&& m.col_offs_spec() == raw.col_offsets@
                },
                Err(e) => {
                    &&& !raw.valid()
                    &&& e == Error::CompColError
                },
            },
    {
        let ghost raw0 = raw;
        let CompColRaw { num_rows, non_zero_vals, row_indices, col_offsets } = raw;
        let nnz = non_zero_vals.len();
        if col_offsets.len() == 0 {
            return Err(Error::CompColError);
        }
        let num_cols = col_offsets.len() - 1;
        if row_indices.len() != nnz {
            return Err(Error::CompColError);
        }
        if col_offsets[0] != 0 {
            return Err(Error::CompColError);
        }
        let last = col_offsets[num_cols];
        if last < 0 || last as usize != nnz {
            return Err(Error::CompColError);
        }
        if !check_offsets_monotone(&col_offsets) {
            return Err(Error::CompColError);
        }
        proof {
            lemma_offsets_in_range(col_offsets@, nnz as int);
        }
        let mut c: usize = 0;
        while c < num_cols
            invariant
                raw0.num_rows == num_rows,
                raw0.non_zero_vals@ == non_zero_vals@,
                raw0.row_indices@ == row_indices@,
                raw0.col_offsets@ == col_offsets@,
                num_cols == col_offsets@.len() - 1,
                c <= num_cols,
                nnz == non_zero_vals@.len(),
                nnz == row_indices@.len(),
                col_offsets@[0] == 0,
                col_offsets@[num_cols as int] == nnz,
                offsets_monotone(col_offsets@),
                forall|d: int| 0 <= d <= num_cols ==> 0 <= #[trigger] col_offsets@[d] <= nnz,
                forall|d: int|
                    0 <= d < c ==> #[trigger] column_ok(
                        num_rows as int,
                        row_indices@,
                        col_offsets@[d] as int,
                        col_offsets@[d + 1] as int,
                    ),
            decreases num_cols - c,
        {
            proof {
                assert(col_offsets@[c as int] <= col_offsets@[c as int + 1]);
            }
            let start = col_offsets[c] as usize;
            let end = col_offsets[c + 1] as usize;
            if !check_one_column(num_rows, &row_indices, start, end) {
                proof {
                    assert(raw0.col_offsets@ == col_offsets@);
                    assert(raw0.row_indices@ == row_indices@);
                    assert(start as int == col_offsets@[c as int] as int);
                    assert(end as int == col_offsets@[c as int + 1] as int);
                    assert(!column_ok(num_rows as int, row_indices@, start as int, end as int));
                    assert(!column_ok(
                        raw0.num_rows as int,
                        raw0.row_indices@,
                        raw0.col_offsets@[c as int] as int,
                        raw0.col_offsets@[c as int + 1] as int,
                    ));
                    assert(!raw0.valid());
                }
                return Err(Error::CompColError);
            }
            c = c + 1;
        }
        Ok(CompColMat { num_rows, non_zero_vals, row_indices, col_offsets })
    }

    /// Specify a compressed-column matrix from its three input vectors,
    /// validating them exactly as [`CompColMat::from_raw`] does.
    pub fn from_vectors(
        num_rows: usize,
        non_zero_vals: Vec<P>,
        row_indices: Vec<i32>,
        col_offsets: Vec<i32>,
    ) -> (r: Result<CompColMat<P>, Error>)
        ensures
            match r {
                Ok(m) => {
                    &&& valid_comp_col(
                        num_rows as int,
                        non_zero_vals@,
                        row_indices@,
                        col_offsets@,
                    )
                    &&& m.wf()
                    &&& m.rows_spec() == num_rows
                    &&& m.vals_spec() == non_zero_vals@
                    &&& m.row_inds_spec() == row_indices@
                    &&& m.col_offs_spec() == col_offsets@
                },
                Err(e) => {
                    &&& !valid_comp_col(
                        num_rows as int,
                        non_zero_vals@,
                        row_indices@,
                        col_offsets@,
                    )
                    &&& e == Error::CompColError
                },
            },
    {
        CompColMat::from_raw(CompColRaw { num_rows, non_zero_vals, row_indices, col_offsets })
    }

    /// Hand the backing vectors back to the caller.
    ///
    /// No copies are made, and the returned raw vectors still satisfy the
    /// compressed-column invariant, so `from_raw` accepts them again with
    /// an identical view: the round trip loses nothing.
    pub fn to_raw(self) -> (r: CompColRaw<P>)
        requires
            self.wf(),
        ensures
            r.valid(),
            r.num_rows == self.rows_spec(),
            r.non_zero_vals@ == self.vals_spec(),
            r.row_indices@ == self.row_inds_spec(),
            r.col_offsets@ == self.col_offs_spec(),
    {
        let CompColMat { num_rows, non_zero_vals, row_indices, col_offsets } = self;
        CompColRaw { num_rows, non_zero_vals, row_indices, col_offsets }
    }

    /// Get the number of rows in the matrix.
    pub fn num_rows(&self) -> (r: usize)
        ensures
            r == self.rows_spec(),
    {
        self.num_rows
    }

    /// Get the number of columns in the matrix.
    pub fn num_cols(&self) -> (r: usize)
        requires
            self.wf(),
        ensures
            r == self.cols_spec(),
    {
        self.col_offsets.len() - 1
    }

    /// Get the number of explicitly stored values.
    pub fn num_non_zeros(&self) -> (r: usize)
        ensures
            r == self.vals_spec().len(),
    {
        self.non_zero_vals.len()
    }

    /// Borrow the stored values.
    pub fn non_zero_values(&self) -> (r: &Vec<P>)
        ensures
            r@ == self.vals_spec(),
    {
        &self.non_zero_vals
    }

    /// Borrow the row indices.
    pub fn row_indices(&self) -> (r: &Vec<i32>)
        ensures
            r@ == self.row_inds_spec(),
    {
        &self.row_indices
    }

    /// Borrow the column offsets.
    pub fn column_offsets(&self) -> (r: &Vec<i32>)
        ensures
            r@ == self.col_offs_spec(),
    {
        &self.col_offsets
    }

    /// Read the value at the given row and column, by binary search over
    /// the column's strictly ascending row indices.
    pub fn value(&self, row: usize, col: usize) -> (r: P)
        requires
            self.wf(),
            row < self.rows_spec(),
            col < self.cols_spec(),
        ensures
            r == self.value_spec(row as int, col as int),
    {
        let nnz = self.non_zero_vals.len();
        let ncols = self.col_offsets.len();
        proof {
            lemma_offsets_in_range(self.col_offs_spec(), nnz as int);
            assert(self.col_offs_spec()[col as int] <= self.col_offs_spec()[col as int + 1]);
            assert(column_ok(
                self.rows_spec(),
                self.row_inds_spec(),
                self.col_offs_spec()[col as int] as int,
                self.col_offs_spec()[col as int + 1] as int,
            ));
        }
        let mut lo = self.col_offsets[col] as usize;
        let mut hi = self.col_offsets[col + 1] as usize;
        let ghost start: int = lo as int;
        let ghost end: int = hi as int;
        while lo < hi
            invariant
                self.wf(),
                col < self.cols_spec(),
                row < self.rows_spec(),
                nnz == self.vals_spec().len(),
                start == self.col_offs_spec()[col as int],
                end == self.col_offs_spec()[col as int + 1],
                column_ok(self.rows_spec(), self.row_inds_spec(), start, end),
                start <= lo <= hi <= end,
                end <= nnz,
                forall|i: int| start <= i < lo ==> #[trigger] self.row_inds_spec()[i] < row,
                forall|i: int| hi <= i < end ==> #[trigger] self.row_inds_spec()[i] > row,
            decreases hi - lo,
        {
            let mid = lo + (hi - lo) / 2;
            proof {
                assert(0 <= self.row_inds_spec()[mid as int] < self.rows_spec());
            }
            let rv = self.row_indices[mid] as usize;
            if rv == row {
                proof {
                    assert(self.row_inds_spec()[mid as int] == row);
                    let w = choose|i: int|
                        self.col_offs_spec()[col as int] <= i < self.col_offs_spec()[
                            col as int + 1
                        ] && #[trigger] self.row_inds_spec()[i] == row;
                    if w != mid as int {
                        assert(self.row_inds_spec()[w] == self.row_inds_spec()[mid as int]);
                        assert(false);
                    }
                }
                return self.non_zero_vals[mid];
            } else if rv < row {
                proof {
                    assert forall|i: int|
                        start <= i < mid as int + 1 implies #[trigger] self.row_inds_spec()[i]
                        < row by {
                        if i < mid as int {
                            assert(self.row_inds_spec()[i] < self.row_inds_spec()[mid as int]);
                        }
                    }
                }
                lo = mid + 1;
            } else {
                proof {
                    assert forall|i: int|
                        mid as int <= i < end implies #[trigger] self.row_inds_spec()[i]
                        > row by {
                        if i > mid as int {
                            assert(self.row_inds_spec()[mid as int] < self.row_inds_spec()[i]);
                        }
                    }
                }
                hi = mid;
            }
        }
        P::zero()
    }
}

/// The stored keys of `m` that come strictly before `(row, col)` in
/// column-major order: all of the columns before `col`, plus the part of
/// column `col` above `row`.
pub open spec fn keys_before<P: ValueType>(m: SparseMat<P>, col: int, row: int) -> Set<
    (int, int),
> {
    m.map_spec().dom().filter(|k: (int, int)| k.1 < col || (k.1 == col && k.0 < row))
}

/// Every slot of `[start, end)` records a stored key of column `col` and
/// carries its stored value.
pub open spec fn column_matches<P: ValueType>(
    m: SparseMat<P>,
    rows_idx: Seq<i32>,
    vals: Seq<P>,
    col: int,
    start: int,
    end: int,
) -> bool {
    forall|i: int|
        start <= i < end ==> {
            &&& m.map_spec().dom().contains(((#[trigger] rows_idx[i]) as int, col))
            &&& vals[i] == m.map_spec()[(rows_idx[i] as int, col)]
        }
}

/// Every stored key of column `col` with row below `upto` is recorded
/// somewhere in `[start, end)`.
pub open spec fn column_complete<P: ValueType>(
    m: SparseMat<P>,
    rows_idx: Seq<i32>,
    col: int,
    start: int,
    end: int,
    upto: int,
) -> bool {
    forall|rr: int|
        0 <= rr < upto && #[trigger] m.map_spec().dom().contains((rr, col)) ==> exists|i: int|
            start <= i < end && #[trigger] rows_idx[i] == rr
}

/// Appending to the value and row-index vectors disturbs none of the
/// already-emitted columns.
proof fn lemma_prefix_props_preserved<P: ValueType>(
    m: SparseMat<P>,
    rows1: Seq<i32>,
    vals1: Seq<P>,
    rows2: Seq<i32>,
    vals2: Seq<P>,
    offs: Seq<i32>,
    c: int,
    num_rows: int,
)
    requires
        rows1.len() == vals1.len(),
        rows2.len() >= rows1.len(),
        vals2.len() >= vals1.len(),
        forall|i: int| 0 <= i < rows1.len() ==> rows2[i] == rows1[i],
        forall|i: int| 0 <= i < vals1.len() ==> vals2[i] == vals1[i],
        0 <= c < offs.len(),
        offsets_monotone(offs),
        offs[c] <= rows1.len(),
        forall|d: int| 0 <= d <= c ==> 0 <= #[trigger] offs[d],
        forall|d: int|
            0 <= d < c ==> #[trigger] column_ok(num_rows, rows1, offs[d] as int, offs[d + 1] as int),
        forall|d: int|
            0 <= d < c ==> #[trigger] column_matches(
                m,
                rows1,
                vals1,
                d,
                offs[d] as int,
                offs[d + 1] as int,
            ),
        forall|d: int|
            0 <= d < c ==> #[trigger] column_complete(
                m,
                rows1,
                d,
                offs[d] as int,
                offs[d + 1] as int,
                num_rows,
            ),
    ensures
        forall|d: int|
            0 <= d < c ==> #[trigger] column_ok(num_rows, rows2, offs[d] as int, offs[d + 1] as int),
        forall|d: int|
            0 <= d < c ==> #[trigger] column_matches(
                m,
                rows2,
                vals2,
                d,
                offs[d] as int,
                offs[d + 1] as int,
            ),
        forall|d: int|
            0 <= d < c ==> #[trigger] column_complete(
                m,
                rows2,
                d,
                offs[d] as int,
                offs[d + 1] as int,
                num_rows,
            ),
{
    assert forall|d: int| 0 <= d < c implies #[trigger] column_ok(
        num_rows,
        rows2,
        offs[d] as int,
        offs[d + 1] as int,
    ) by {
        lemma_one_prefix_column(m, rows1, vals1, rows2, vals2, offs, c, d, num_rows);
    }
    assert forall|d: int| 0 <= d < c implies #[trigger] column_matches(
        m,
        rows2,
        vals2,
        d,
        offs[d] as int,
        offs[d + 1] as int,
    ) by {
        lemma_one_prefix_column(m, rows1, vals1, rows2, vals2, offs, c, d, num_rows);
    }
    assert forall|d: int| 0 <= d < c implies #[trigger] column_complete(
        m,
        rows2,
        d,
        offs[d] as int,
        offs[d + 1] as int,
        num_rows,
    ) by {
        lemma_one_prefix_column(m, rows1, vals1, rows2, vals2, offs, c, d, num_rows);
    }
}

/// One already-emitted column keeps its properties after the vectors grow.
proof fn lemma_one_prefix_column<P: ValueType>(
    m: SparseMat<P>,
    rows1: Seq<i32>,
    vals1: Seq<P>,
    rows2: Seq<i32>,
    vals2: Seq<P>,
    offs: Seq<i32>,
    c: int,
    d: int,
    num_rows: int,
)
    requires
        rows1.len() == vals1.len(),
        rows2.len() >= rows1.len(),
        vals2.len() >= vals1.len(),
        forall|i: int| 0 <= i < rows1.len() ==> rows2[i] == rows1[i],
        forall|i: int| 0 <= i < vals1.len() ==> vals2[i] == vals1[i],
        0 <= d < c < offs.len(),
        offsets_monotone(offs),
        offs[c] <= rows1.len(),
        forall|e: int| 0 <= e <= c ==> 0 <= #[trigger] offs[e],
        column_ok(num_rows, rows1, offs[d] as int, offs[d + 1] as int),
        column_matches(m, rows1, vals1, d, offs[d] as int, offs[d + 1] as int),
        column_complete(m, rows1, d, offs[d] as int, offs[d + 1] as int, num_rows),
    ensures
        column_ok(num_rows, rows2, offs[d] as int, offs[d + 1] as int),
        column_matches(m, rows2, vals2, d, offs[d] as int, offs[d + 1] as int),
        column_complete(m, rows2, d, offs[d] as int, offs[d + 1] as int, num_rows),
{
    assert(offs[d + 1] <= offs[c]);
    assert forall|i: int|
        offs[d] as int <= i < offs[d + 1] as int implies #[trigger] rows2[i] == rows1[i]
        && vals2[i] == vals1[i] by {}
    assert forall|rr: int|
        0 <= rr < num_rows && #[trigger] m.map_spec().dom().contains((rr, d))
        implies exists|i: int|
            offs[d] as int <= i < offs[d + 1] as int && #[trigger] rows2[i] == rr by {
        let i = choose|i: int|
            offs[d] as int <= i < offs[d + 1] as int && #[trigger] rows1[i] == rr;
        assert(rows2[i] == rr);
    }
}

impl<P: ValueType> SparseMat<P> {
    /// Convert this triplet matrix into a compressed-column matrix.
    ///
    /// The result holds exactly the stored keys, laid out column-major with
    /// strictly ascending row indices inside each column; a column with no
    /// stored key repeats the previous offset.  Looking any position up in
    /// the result reads the same value this matrix holds there.
    #[verifier::loop_isolation(false)]
    pub fn to_compressed_column(&self) -> (r: CompColMat<P>)
        requires
            self.wf(),
            self.rows_spec() <= i32::MAX,
            self.cols_spec() <= i32::MAX,
            self.map_spec().dom().len() <= i32::MAX,
        ensures
            r.wf(),
            r.rows_spec() == self.rows_spec(),
            r.cols_spec() == self.cols_spec(),
            r.vals_spec().len() == self.map_spec().dom().len(),
            forall|row: int, col: int|
                0 <= row < self.rows_spec() && 0 <= col < self.cols_spec()
                    ==> #[trigger] r.value_spec(row, col) == self.get_spec(row, col),
    {
        proof {
            lemma_dom_finite(*self);
            lemma_dom_bounds(*self);
        }
        let num_rows = self.num_rows();
        let num_cols = self.num_cols();
        let mut non_zero_vals: Vec<P> = Vec::new();
        let mut row_indices: Vec<i32> = Vec::new();
        let mut col_offsets: Vec<i32> = Vec::new();
        col_offsets.push(0);
        proof {
            vstd::set_lib::lemma_len_subset(
                keys_before(*self, 0, 0),
                self.map_spec().dom(),
            );
            assert(keys_before(*self, 0, 0) =~= Set::<(int, int)>::empty());
        }
        let mut c: usize = 0;
        while c < num_cols
            invariant
                c <= num_cols,
                row_indices@.len() == non_zero_vals@.len(),
                col_offsets@.len() == c + 1,
                col_offsets@[0] == 0,
                col_offsets@[c as int] == non_zero_vals@.len(),
                offsets_monotone(col_offsets@),
                forall|d: int| 0 <= d <= c ==> 0 <= #[trigger] col_offsets@[d],
                non_zero_vals@.len() == keys_before(*self, c as int, 0).len(),
                keys_before(*self, c as int, 0).finite(),
                forall|d: int|
                    0 <= d < c ==> #[trigger] column_ok(
                        num_rows as int,
                        row_indices@,
                        col_offsets@[d] as int,
                        col_offsets@[d + 1] as int,
                    ),
                forall|d: int|
                    0 <= d < c ==> #[trigger] column_matches(
                        *self,
                        row_indices@,
                        non_zero_vals@,
                        d,
                        col_offsets@[d] as int,
                        col_offsets@[d + 1] as int,
                    ),
                forall|d: int|
                    0 <= d < c ==> #[trigger] column_complete(
                        *self,
                        row_indices@,
                        d,
                        col_offsets@[d] as int,
                        col_offsets@[d + 1] as int,
                        num_rows as int,
                    ),
            decreases num_cols - c,
        {
            let ghost base = non_zero_vals@.len() as int;
            let mut rrow: usize = 0;
            while rrow < num_rows
                invariant
                    rrow <= num_rows,
                    row_indices@.len() == non_zero_vals@.len(),
                    col_offsets@.len() == c + 1,
                    col_offsets@[c as int] == base,
                    base <= non_zero_vals@.len(),
                    forall|i: int| 0 <= i <= c ==> 0 <= #[trigger] col_offsets@[i],
                    non_zero_vals@.len() == keys_before(*self, c as int, rrow as int).len(),
                    keys_before(*self, c as int, rrow as int).finite(),
                    forall|i: int|
                        base <= i < row_indices@.len() ==> 0 <= #[trigger] row_indices@[i]
                            < rrow,
                    forall|a: int, b: int| #![trigger row_indices@[a], row_indices@[b]]
                        base <= a < b < row_indices@.len() ==> row_indices@[a]
                            < row_indices@[b],
                    column_matches(
                        *self,
                        row_indices@,
                        non_zero_vals@,
                        c as int,
                        base,
                        row_indices@.len() as int,
                    ),
                    column_complete(
                        *self,
                        row_indices@,
                        c as int,
                        base,
                        row_indices@.len() as int,
                        rrow as int,
                    ),
                    forall|d: int|
                        0 <= d < c ==> #[trigger] column_ok(
                            num_rows as int,
                            row_indices@,
                            col_offsets@[d] as int,
                            col_offsets@[d + 1] as int,
                        ),
                    forall|d: int|
                        0 <= d < c ==> #[trigger] column_matches(
                            *self,
                            row_indices@,
                            non_zero_vals@,
                            d,
                            col_offsets@[d] as int,
                            col_offsets@[d + 1] as int,
                        ),
                    forall|d: int|
                        0 <= d < c ==> #[trigger] column_complete(
                            *self,
                            row_indices@,
                            d,
                            col_offsets@[d] as int,
                            col_offsets@[d + 1] as int,
                            num_rows as int,
                        ),
                decreases num_rows - rrow,
            {
                let ghost rows1 = row_indices@;
                let ghost vals1 = non_zero_vals@;
                let v = self.get(rrow, c);
                if !v.is_zero() {
                    let k: Ghost<(int, int)> = Ghost((rrow as int, c as int));
                    proof {
                        assert(self.map_spec().dom().contains(k@));
                    }
                    row_indices.push(rrow as i32);
                    non_zero_vals.push(v);
                    proof {
                        lemma_prefix_props_preserved(
                            *self,
                            rows1,
                            vals1,
                            row_indices@,
                            non_zero_vals@,
                            col_offsets@,
                            c as int,
                            num_rows as int,
                        );
                        assert(keys_before(*self, c as int, rrow as int + 1)
                            =~= keys_before(*self, c as int, rrow as int).insert(k@));
                        assert(!keys_before(*self, c as int, rrow as int).contains(k@));
                        // the fresh slot records (rrow, c); older slots are unchanged
                        assert forall|i: int|
                            base <= i < row_indices@.len() implies {
                            &&& self.map_spec().dom().contains(
                                ((#[trigger] row_indices@[i]) as int, c as int),
                            )
                            &&& non_zero_vals@[i] == self.map_spec()[(
                                row_indices@[i] as int,
                                c as int,
                            )]
                        } by {
                            if i < rows1.len() {
                                assert(row_indices@[i] == rows1[i]);
                                assert(non_zero_vals@[i] == vals1[i]);
                            }
                        }
                        assert forall|rr: int|
                            0 <= rr < rrow as int + 1 && #[trigger] self.map_spec()
                                .dom()
                                .contains((rr, c as int)) implies exists|i: int|
                            base <= i < row_indices@.len() && #[trigger] row_indices@[i]
                                == rr by {
                            if rr < rrow as int {
                                let i = choose|i: int|
                                    base <= i < rows1.len() && #[trigger] rows1[i] == rr;
                                assert(row_indices@[i] == rr);
                            } else {
                                assert(row_indices@[rows1.len() as int] == rr);
                            }
                        }
                    }
                } else {
                    proof {
                        assert(!self.map_spec().dom().contains((rrow as int, c as int)));
                        assert(keys_before(*self, c as int, rrow as int + 1)
                            =~= keys_before(*self, c as int, rrow as int));
                        assert forall|rr: int|
                            0 <= rr < rrow as int + 1 && #[trigger] self.map_spec()
                                .dom()
                                .contains((rr, c as int)) implies exists|i: int|
                            base <= i < row_indices@.len() && #[trigger] row_indices@[i]
                                == rr by {
                            assert(rr < rrow as int);
                        }
                    }
                }
                rrow = rrow + 1;
            }
            proof {
                vstd::set_lib::lemma_len_subset(
                    keys_before(*self, c as int, num_rows as int),
                    self.map_spec().dom(),
                );
            }
            let ghost offs1 = col_offsets@;
            let count = non_zero_vals.len();
            col_offsets.push(count as i32);
            proof {
                assert forall|a: int, b: int| #![trigger col_offsets@[a], col_offsets@[b]]
                    0 <= a <= b < col_offsets@.len() implies col_offsets@[a]
                    <= col_offsets@[b] by {
                    if b == c as int + 1 && a <= c as int {
                        assert(offs1[a] <= offs1[c as int]);
                    }
                }
                assert(keys_before(*self, c as int + 1, 0)
                    =~= keys_before(*self, c as int, num_rows as int));
                assert forall|d: int| 0 <= d < c as int + 1 implies {
                    &&& #[trigger] column_ok(
                        num_rows as int,
                        row_indices@,
                        col_offsets@[d] as int,
                        col_offsets@[d + 1] as int,
                    )
                    &&& column_matches(
                        *self,
                        row_indices@,
                        non_zero_vals@,
                        d,
                        col_offsets@[d] as int,
                        col_offsets@[d + 1] as int,
                    )
                    &&& column_complete(
                        *self,
                        row_indices@,
                        d,
                        col_offsets@[d] as int,
                        col_offsets@[d + 1] as int,
                        num_rows as int,
                    )
                } by {
                    if d < c as int {
                        assert(col_offsets@[d] == offs1[d]);
                        assert(col_offsets@[d + 1] == offs1[d + 1]);
                        assert(column_ok(
                            num_rows as int,
                            row_indices@,
                            offs1[d] as int,
                            offs1[d + 1] as int,
                        ));
                        assert(column_matches(
                            *self,
                            row_indices@,
                            non_zero_vals@,
                            d,
                            offs1[d] as int,
                            offs1[d + 1] as int,
                        ));
                        assert(column_complete(
                            *self,
                            row_indices@,
                            d,
                            offs1[d] as int,
                            offs1[d + 1] as int,
                            num_rows as int,
                        ));
                    } else {
                        assert(col_offsets@[d] as int == base);
                        assert(col_offsets@[d + 1] as int == row_indices@.len());
                    }
                }
            }
            c = c + 1;
        }
        let r = CompColMat { num_rows, non_zero_vals, row_indices, col_offsets };
        proof {
            assert(keys_before(*self, num_cols as int, 0) =~= self.map_spec().dom());
            assert forall|row: int, col: int|
                0 <= row < self.rows_spec() && 0 <= col < self.cols_spec()
                implies #[trigger] r.value_spec(row, col) == self.get_spec(row, col) by {
                let start = r.col_offs_spec()[col] as int;
                let end = r.col_offs_spec()[col + 1] as int;
                assert(column_matches(*self, r.row_inds_spec(), r.vals_spec(), col, start, end));
                assert(column_complete(*self, r.row_inds_spec(), col, start, end,
                    num_rows as int));
                if self.map_spec().dom().contains((row, col)) {
                    let i = choose|i: int|
                        start <= i < end && #[trigger] r.row_inds_spec()[i] == row;
                    assert(exists|i: int|
                        r.col_offs_spec()[col] <= i < r.col_offs_spec()[col + 1]
                            && #[trigger] r.row_inds_spec()[i] == row);
                    let w = choose|i: int|
                        r.col_offs_spec()[col] <= i < r.col_offs_spec()[col + 1]
                            && #[trigger] r.row_inds_spec()[i] == row;
                    assert(r.vals_spec()[w] == self.map_spec()[(row, col)]);
                } else {
                    if exists|i: int|
                        r.col_offs_spec()[col] <= i < r.col_offs_spec()[col + 1]
                            && #[trigger] r.row_inds_spec()[i] == row {
                        let w = choose|i: int|
                            r.col_offs_spec()[col] <= i < r.col_offs_spec()[col + 1]
                                && #[trigger] r.row_inds_spec()[i] == row;
                        assert(self.map_spec().dom().contains((row, col)));
                    }
                }
            }
        }
        r
    }
}

/// The partial dot product of row `row` with `x`, over the first `c`
/// columns: the running sum of `A[row, col] * x[col]`.
pub open spec fn row_dot<P: ValueType>(m: CompColMat<P>, x: Seq<P>, row: int, c: int) -> P
    decreases c,
{
    if c <= 0 {
        P::zero_spec()
    } else {
        row_dot(m, x, row, c - 1).plus_spec(m.value_spec(row, c - 1).times_spec(x[c - 1]))
    }
}

impl<P: ValueType> CompColMat<P> {
    /// Dense matrix-vector product, defined for testing and validation:
    /// entry `row` of the result is the sum over every column `col` of
    /// `A[row, col] * x[col]`.
    pub fn multiply(&self, x: &Vec<P>) -> (r: Vec<P>)
        requires
            self.wf(),
            x@.len() == self.cols_spec(),
        ensures
            r@.len() == self.rows_spec(),
            forall|row: int|
                0 <= row < self.rows_spec() ==> #[trigger] r@[row] == row_dot(
                    *self,
                    x@,
                    row,
                    self.cols_spec(),
                ),
    {
        let num_rows = self.num_rows();
        let num_cols = self.num_cols();
        let mut b: Vec<P> = Vec::new();
        let mut row: usize = 0;
        while row < num_rows
            invariant
                row <= num_rows,
                num_rows == self.rows_spec(),
                num_cols == self.cols_spec(),
                x@.len() == self.cols_spec(),
                self.wf(),
                b@.len() == row,
                forall|rr: int|
                    0 <= rr < row ==> #[trigger] b@[rr] == row_dot(
                        *self,
                        x@,
                        rr,
                        self.cols_spec(),
                    ),
            decreases num_rows - row,
        {
            let mut value = P::zero();
            let mut col: usize = 0;
            while col < num_cols
                invariant
                    col <= num_cols,
                    row < num_rows,
                    num_rows == self.rows_spec(),
                    num_cols == self.cols_spec(),
                    x@.len() == self.cols_spec(),
                    self.wf(),
                    value == row_dot(*self, x@, row as int, col as int),
                decreases num_cols - col,
            {
                value = value.plus(self.value(row, col).times(x[col]));
                col = col + 1;
            }
            b.push(value);
            row = row + 1;
        }
        b
    }
}

/// In a monotone offset vector that starts at zero and ends at `nnz`, every
/// offset lies within `[0, nnz]`.
pub proof fn lemma_offsets_in_range(offs: Seq<i32>, nnz: int)
    requires
        offs.len() >= 1,
        offs[0] == 0,
        offs[offs.len() - 1] == nnz,
        offsets_monotone(offs),
    ensures
        forall|c: int| 0 <= c < offs.len() ==> 0 <= #[trigger] offs[c] <= nnz,
{
    assert forall|c: int| 0 <= c < offs.len() implies 0 <= #[trigger] offs[c] <= nnz by {
        assert(offs[0] <= offs[c]);
        assert(offs[c] <= offs[offs.len() - 1]);
    }
}

/// Round trip: the raw vectors handed out by `to_raw` still satisfy the
/// compressed-column invariant, so `from_raw` accepts them, and any matrix
/// rebuilt from them carries identical dimensions, values, row indices,
/// and column offsets — and therefore reads every position identically.
pub proof fn lemma_raw_round_trip<P: ValueType>(
    m: CompColMat<P>,
    raw: CompColRaw<P>,
    rebuilt: CompColMat<P>,
)
    requires
        m.wf(),
        raw.num_rows == m.rows_spec(),
        raw.non_zero_vals@ == m.vals_spec(),
        raw.row_indices@ == m.row_inds_spec(),
        raw.col_offsets@ == m.col_offs_spec(),
        rebuilt.rows_spec() == raw.num_rows,
        rebuilt.vals_spec() == raw.non_zero_vals@,
        rebuilt.row_inds_spec() == raw.row_indices@,
        rebuilt.col_offs_spec() == raw.col_offsets@,
    ensures
        raw.valid(),
        rebuilt.wf(),
        rebuilt.rows_spec() == m.rows_spec(),
        rebuilt.cols_spec() == m.cols_spec(),
        rebuilt.vals_spec() == m.vals_spec(),
        rebuilt.row_inds_spec() == m.row_inds_spec(),
        rebuilt.col_offs_spec() == m.col_offs_spec(),
        forall|row: int, col: int|
            0 <= row < m.rows_spec() && 0 <= col < m.cols_spec() ==> #[trigger] rebuilt.value_spec(
                row,
                col,
            ) == m.value_spec(row, col),
{
}

/// The column-offsets invariant of every well-formed compressed-column
/// view: the offsets are non-decreasing, there is one more offset than
/// there are columns, and the final offset equals the number of stored
/// values.
pub proof fn lemma_column_offsets_invariant<P: ValueType>(m: CompColMat<P>)
    requires
        m.wf(),
    ensures
        m.col_offs_spec().len() == m.cols_spec() + 1,
        m.col_offs_spec()[0] == 0,
        m.col_offs_spec()[m.cols_spec()] == m.vals_spec().len(),
        offsets_monotone(m.col_offs_spec()),
        forall|c: int| 0 <= c < m.col_offs_spec().len() ==> 0 <= #[trigger] m.col_offs_spec()[c]
            <= m.vals_spec().len(),
{
    lemma_offsets_in_range(m.col_offs_spec(), m.vals_spec().len() as int);
}

} // verus!
