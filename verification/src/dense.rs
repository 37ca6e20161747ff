//! Column-major dense matrices.
//!
//! A dense matrix holds `num_rows * num_cols` values in column-major order.
//! It serves as the right-hand side of a solve and, afterwards, as the
//! solution: the solver overwrites the buffer in place, so the matrix that
//! enters a solve is consumed and a new one comes out holding the solution.

use vstd::prelude::*;

use crate::error::Error;
use crate::value_type::ValueType;

verus! {

/// The raw vectors comprising a dense matrix, before validation.
pub struct DenseRaw<P: ValueType> {
    pub num_rows: usize,
    pub num_cols: usize,
    pub col_maj_vals: Vec<P>,
}

/// A validated column-major dense matrix.
///
/// The backing buffer always holds exactly `num_rows * num_cols` values;
/// [`DenseMat::from_raw`] refuses anything else.
pub struct DenseMat<P: ValueType> {
    num_rows: usize,
    num_cols: usize,
    col_maj_vals: Vec<P>,
}

impl<P: ValueType> DenseMat<P> {
    /// The number of rows, as seen by specifications.
    pub closed spec fn rows_spec(self) -> int {
        self.num_rows as int
    }

    /// The number of columns, as seen by specifications.
    pub closed spec fn cols_spec(self) -> int {
        self.num_cols as int
    }

    /// The backing buffer, as seen by specifications.
    pub closed spec fn vals_spec(self) -> Seq<P> {
        self.col_maj_vals@
    }

    /// The dense-matrix invariant: the buffer length matches the dimensions.
    pub open spec fn wf(self) -> bool {
        self.vals_spec().len() == self.rows_spec() * self.cols_spec()
    }

    /// The value at `(row, col)`: column-major, so column `col` occupies the
    /// slice starting at `col * num_rows`.
    pub open spec fn value_spec(self, row: int, col: int) -> P {
        self.vals_spec()[col * self.rows_spec() + row]
    }

    /// Validate raw vectors into a dense matrix.
    ///
    /// Succeeds exactly when the buffer holds `num_rows * num_cols` values;
    /// otherwise reports `Error::DenseMatrixError` and never truncates or
    /// pads.
    pub fn from_raw(raw: DenseRaw<P>) -> (r: Result<DenseMat<P>, Error>)
        ensures
            match r {
                Ok(m) => {
                    &&& raw.col_maj_vals@.len() == raw.num_rows * raw.num_cols
                    &&& m.wf()
                    &&& m.rows_spec() == raw.num_rows
                    &&& m.cols_spec() == raw.num_cols
                    &&& m.vals_spec() == raw.col_maj_vals@
                },
                Err(e) => {
                    &&& raw.col_maj_vals@.len() != raw.num_rows * raw.num_cols
                    &&& e == Error::DenseMatrixError
                },
            },
    {
        let DenseRaw { num_rows, num_cols, col_maj_vals } = raw;
        match num_rows.checked_mul(num_cols) {
            Some(product) => {
                if col_maj_vals.len() != product {
                    return Err(Error::DenseMatrixError);
                }
            }
            None => {
                let len = col_maj_vals.len();
                proof {
                    assert(len < num_rows * num_cols) by (nonlinear_arith)
                        requires
                            num_rows * num_cols > usize::MAX,
                            len <= usize::MAX,
                    ;
                }
                return Err(Error::DenseMatrixError);
            }
        }
        Ok(DenseMat { num_rows, num_cols, col_maj_vals })
    }

    /// Specify a dense matrix from an input vector, validating it exactly
    /// as [`DenseMat::from_raw`] does.
    pub fn from_vectors(num_rows: usize, num_cols: usize, x: Vec<P>) -> (r: Result<
        DenseMat<P>,
        Error,
    >)
        ensures
            match r {
                Ok(m) => {
                    &&& x@.len() == num_rows * num_cols
                    &&& m.wf()
                    &&& m.rows_spec() == num_rows
                    &&& m.cols_spec() == num_cols
                    &&& m.vals_spec() == x@
                },
                Err(e) => {
                    &&& x@.len() != num_rows * num_cols
                    &&& e == Error::DenseMatrixError
                },
            },
    {
        DenseMat::from_raw(DenseRaw { num_rows, num_cols, col_maj_vals: x })
    }

    /// Hand the backing buffer back to the caller.
    ///
    /// No copies are made; the returned raw parts are exactly the matrix's
    /// dimensions and buffer.
    pub fn to_raw(self) -> (r: DenseRaw<P>)
        ensures
            r.num_rows == self.rows_spec(),
            r.num_cols == self.cols_spec(),
            r.col_maj_vals@ == self.vals_spec(),
    {
        let DenseMat { num_rows, num_cols, col_maj_vals } = self;
        DenseRaw { num_rows, num_cols, col_maj_vals }
    }

    /// The number of rows in the matrix.
    pub fn num_rows(&self) -> (r: usize)
        ensures
            r == self.rows_spec(),
    {
        self.num_rows
    }

    /// The number of columns in the matrix.
    pub fn num_cols(&self) -> (r: usize)
        ensures
            r == self.cols_spec(),
    {
        self.num_cols
    }

    /// Read the value at the given row and column.
    pub fn value(&self, row: usize, col: usize) -> (r: P)
        requires
            self.wf(),
            row < self.rows_spec(),
            col < self.cols_spec(),
        ensures
            r == self.value_spec(row as int, col as int),
    {
        let len = self.col_maj_vals.len();
        proof {
            assert(col * (self.num_rows as int) + row < len) by (nonlinear_arith)
                requires
                    row < self.num_rows,
                    col < self.num_cols,
                    len == (self.num_rows as int) * (self.num_cols as int),
            ;
        }
        self.col_maj_vals[col * self.num_rows + row]
    }

    /// Borrow the column-major values.
    pub fn column_major_values(&self) -> (r: &Vec<P>)
        ensures
            r@ == self.vals_spec(),
    {
        &self.col_maj_vals
    }
}

} // verus!
