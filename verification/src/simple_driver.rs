//! The solve pipeline around the simple driver.
//!
//! Three workflow variants solve `A·X = B` through one external solver
//! call, differing in what they supply as pre-existing knowledge:
//! [`SimpleSystem`] is a fresh solve under a column-ordering policy;
//! [`SamePattern`] reuses a previously computed column permutation for a
//! system with the same sparsity pattern; [`SimilarValues`] additionally
//! reuses the row permutation when the numerical magnitudes are similar.
//! Each variant validates its inputs and prepares a [`SolverJob`]; the
//! foreign call is performed outside this crate, and its integer status
//! code comes back through [`classify`] and [`finish_solve`] to yield a
//! typed [`SolveOutcome`].

use vstd::prelude::*;

use crate::comp_col::CompColMat;
use crate::dense::DenseMat;
use crate::error::Error;
use crate::options::ColumnPermPolicy;
use crate::options::SimpleDriverOptions;
use crate::options::colperm_of_policy;
use crate::options::colperm_t;
use crate::options::fact_t;
use crate::options::rowperm_t;
use crate::perm::ColumnPerm;
use crate::perm::RowPerm;
use crate::value_type::ValueType;

verus! {

/// How one solver invocation ended, as read off the status code.
#[derive(Debug, Clone, Copy, PartialEq, Eq, Structural)]
pub enum SolveStatus {
    /// The factorization and the solution were both computed.
    Solved,
    /// The factorization completed, but the upper factor has an exact zero
    /// on the diagonal at this zero-based column; no solution exists.
    SingularFactorization { singular_column: usize },
    /// The solver failed outright.
    Failed { error: Error },
}

/// The classification of the solver's status code `info` for a matrix of
/// `num_cols_a` columns.
///
/// Negative codes are reserved for malformed-argument signalling and are
/// never documented to occur: they classify as `UnknownError`.  Zero is
/// success.  A code of at most `num_cols_a` reports a singular
/// factorization at zero-based column `info - 1`.  Anything larger is an
/// out-of-memory failure, with `info - num_cols_a` bytes allocated at the
/// point of failure.
pub open spec fn classify_spec(info: int, num_cols_a: int) -> SolveStatus {
    if info < 0 {
        SolveStatus::Failed { error: Error::UnknownError }
    } else if info == 0 {
        SolveStatus::Solved
    } else if info <= num_cols_a {
        SolveStatus::SingularFactorization { singular_column: (info - 1) as usize }
    } else {
        SolveStatus::Failed {
            error: Error::OutOfMemory { mem_alloc_at_failure: (info - num_cols_a) as usize },
        }
    }
}

/// Map the solver's status code into a typed outcome.
pub fn classify(info: i32, num_cols_a: usize) -> (r: SolveStatus)
    ensures
        r == classify_spec(info as int, num_cols_a as int),
{
    if info < 0 {
        SolveStatus::Failed { error: Error::UnknownError }
    } else if info == 0 {
        SolveStatus::Solved
    } else if info as usize <= num_cols_a {
        SolveStatus::SingularFactorization { singular_column: info as usize - 1 }
    } else {
        SolveStatus::Failed {
            error: Error::OutOfMemory { mem_alloc_at_failure: info as usize - num_cols_a },
        }
    }
}

/// Classification is total: every status code lands in exactly one of the
/// documented branches, with the boundary code equal to the column count
/// classified as a singular factorization in the final column, and the
/// next code as an out-of-memory failure with one byte recorded.
pub proof fn lemma_classify_total(info: int, n: int)
    requires
        n >= 0,
    ensures
        info < 0 ==> classify_spec(info, n) == (SolveStatus::Failed {
            error: Error::UnknownError,
        }),
        info == 0 ==> classify_spec(info, n) == SolveStatus::Solved,
        0 < info <= n ==> classify_spec(info, n) == (SolveStatus::SingularFactorization {
            singular_column: (info - 1) as usize,
        }),
        info > n ==> classify_spec(info, n) == (SolveStatus::Failed {
            error: Error::OutOfMemory { mem_alloc_at_failure: (info - n) as usize },
        }),
        n > 0 ==> classify_spec(n, n) == (SolveStatus::SingularFactorization {
            singular_column: (n - 1) as usize,
        }),
        classify_spec(n + 1, n) == (SolveStatus::Failed {
            error: Error::OutOfMemory { mem_alloc_at_failure: 1 },
        }),
{
}

/// Everything one solver invocation consumes: the system, the assembled
/// options, and the two permutation buffers, pre-filled from the caller's
/// hints where the workflow supplies them.
pub struct SolverJob<P: ValueType> {
    pub a: CompColMat<P>,
    pub b: DenseMat<P>,
    pub options: SimpleDriverOptions,
    pub perm_c: ColumnPerm,
    pub perm_r: RowPerm,
}

impl<P: ValueType> SolverJob<P> {
    /// A job is sound when its system is well-formed, dimensions agree,
    /// and the permutation buffers match the matrix dimensions.
    pub open spec fn wf(self) -> bool {
        &&& self.a.wf()
        &&& self.b.wf()
        &&& self.a.rows_spec() == self.b.rows_spec()
        &&& self.perm_c.wf()
        &&& self.perm_r.wf()
        &&& self.perm_c.perm_spec().len() == self.a.cols_spec()
        &&& self.perm_r.perm_spec().len() == self.a.rows_spec()
    }
}

/// A fresh solve of `A·X = B`: no pre-existing knowledge beyond a
/// column-ordering policy.
pub struct SimpleSystem<P: ValueType> {
    /// The sparse matrix `A`.
    pub a: CompColMat<P>,
    /// The right-hand-side matrix `B`.
    pub b: DenseMat<P>,
}

impl<P: ValueType> SimpleSystem<P> {
    /// Validate the system and prepare the solver invocation under the
    /// given column-ordering policy.
    ///
    /// Fails with `Error::DenseMatrixError` exactly when the right-hand
    /// side's row count does not match the matrix's; the solver is never
    /// reached with mismatched dimensions.  On success the permutation
    /// buffers are freshly allocated identities sized to the matrix, and
    /// the options request the chosen ordering policy.
    pub fn prepare(self, column_perm_policy: ColumnPermPolicy) -> (r: Result<
        SolverJob<P>,
        Error,
    >)
        requires
            self.a.wf(),
            self.b.wf(),
            self.a.rows_spec() <= i32::MAX,
            self.a.cols_spec() <= i32::MAX,
        ensures
            match r {
                Ok(job) => {
                    &&& self.a.rows_spec() == self.b.rows_spec()
                    &&& job.wf()
                    &&& job.a == self.a
                    &&& job.b == self.b
                    &&& job.options.fact_spec() == fact_t::DOFACT
                    &&& job.options.col_perm_spec() == colperm_of_policy(column_perm_policy)
                    &&& job.options.row_perm_spec() != rowperm_t::MY_PERMR
                    &&& forall|i: int|
                        0 <= i < job.perm_c.perm_spec().len() ==> #[trigger] job.perm_c.perm_spec()[i] == i
                    &&& forall|i: int|
                        0 <= i < job.perm_r.perm_spec().len() ==> #[trigger] job.perm_r.perm_spec()[i] == i
                },
                Err(e) => {
                    &&& self.a.rows_spec() != self.b.rows_spec()
                    &&& e == Error::DenseMatrixError
                },
            },
    {
        let SimpleSystem { a, b } = self;
        if a.num_rows() != b.num_rows() {
            return Err(Error::DenseMatrixError);
        }
        let mut options = SimpleDriverOptions::new();
        options.set_superlu_column_perm(column_perm_policy);
        let perm_c = ColumnPerm::identity(a.num_cols());
        let perm_r = RowPerm::identity(a.num_rows());
        Ok(SolverJob { a, b, options, perm_c, perm_r })
    }
}

/// A solve that reuses the column permutation of an earlier solve whose
/// matrix had the identical sparsity pattern.
pub struct SamePattern<P: ValueType> {
    /// The sparse matrix `A`.
    pub a: CompColMat<P>,
    /// The right-hand-side matrix `B`.
    pub b: DenseMat<P>,
    /// The column permutation computed by the earlier solve.
    pub column_perm: ColumnPerm,
}

impl<P: ValueType> SamePattern<P> {
    /// Validate the system and prepare the solver invocation, telling the
    /// solver to use the supplied column permutation instead of computing
    /// an ordering.
    pub fn prepare(self) -> (r: Result<SolverJob<P>, Error>)
        requires
            self.a.wf(),
            self.b.wf(),
            self.a.rows_spec() <= i32::MAX,
            self.column_perm.wf(),
            self.column_perm.perm_spec().len() == self.a.cols_spec(),
        ensures
            match r {
                Ok(job) => {
                    &&& self.a.rows_spec() == self.b.rows_spec()
                    &&& job.wf()
                    &&& job.a == self.a
                    &&& job.b == self.b
                    &&& job.perm_c == self.column_perm
                    &&& job.options.fact_spec() == fact_t::DOFACT
                    &&& job.options.col_perm_spec() == colperm_t::MY_PERMC
                    &&& job.options.row_perm_spec() != rowperm_t::MY_PERMR
                    &&& forall|i: int|
                        0 <= i < job.perm_r.perm_spec().len() ==> #[trigger] job.perm_r.perm_spec()[i] == i
                },
                Err(e) => {
                    &&& self.a.rows_spec() != self.b.rows_spec()
                    &&& e == Error::DenseMatrixError
                },
            },
    {
        let SamePattern { a, b, column_perm } = self;
        if a.num_rows() != b.num_rows() {
            return Err(Error::DenseMatrixError);
        }
        let mut options = SimpleDriverOptions::new();
        options.set_user_column_perm();
        let perm_r = RowPerm::identity(a.num_rows());
        Ok(SolverJob { a, b, options, perm_c: column_perm, perm_r })
    }
}

/// A solve that reuses both permutations of an earlier solve: the next
/// matrix has the same sparsity pattern and similar numerical magnitudes,
/// so the earlier row pivoting is expected to remain valid.
pub struct SimilarValues<P: ValueType> {
    /// The sparse matrix `A`.
    pub a: CompColMat<P>,
    /// The right-hand-side matrix `B`.
    pub b: DenseMat<P>,
    /// The column permutation computed by the earlier solve.
    pub column_perm: ColumnPerm,
    /// The row permutation computed by the earlier solve.
    pub row_perm: RowPerm,
}

impl<P: ValueType> SimilarValues<P> {
    /// Validate the system and prepare the solver invocation, telling the
    /// solver to skip both the column ordering and the row pivoting.
    pub fn prepare(self) -> (r: Result<SolverJob<P>, Error>)
        requires
            self.a.wf(),
            self.b.wf(),
            self.column_perm.wf(),
            self.column_perm.perm_spec().len() == self.a.cols_spec(),
            self.row_perm.wf(),
            self.row_perm.perm_spec().len() == self.a.rows_spec(),
        ensures
            match r {
                Ok(job) => {
                    &&& self.a.rows_spec() == self.b.rows_spec()
                    &&& job.wf()
                    &&& job.a == self.a
                    &&& job.b == self.b
                    &&& job.perm_c == self.column_perm
                    &&& job.perm_r == self.row_perm
                    &&& job.options.fact_spec() == fact_t::SamePattern_SameRowPerm
                    &&& job.options.col_perm_spec() == colperm_t::MY_PERMC
                    &&& job.options.row_perm_spec() == rowperm_t::MY_PERMR
                },
                Err(e) => {
                    &&& self.a.rows_spec() != self.b.rows_spec()
                    &&& e == Error::DenseMatrixError
                },
            },
    {
        let SimilarValues { a, b, column_perm, row_perm } = self;
        if a.num_rows() != b.num_rows() {
            return Err(Error::DenseMatrixError);
        }
        let mut options = SimpleDriverOptions::new();
        options.set_user_column_perm();
        options.set_user_row_perm();
        options.set_same_pattern_same_row_perm();
        Ok(SolverJob { a, b, options, perm_c: column_perm, perm_r: row_perm })
    }
}

/// The terminal outcome of one solve.
pub enum SolveOutcome<P: ValueType> {
    /// The system was solved; the right-hand-side buffer now holds the
    /// solution, and the permutations are the ones the solver used.
    Solved { x: DenseMat<P>, column_perm: ColumnPerm, row_perm: RowPerm },
    /// The factorization completed but the matrix is singular; no solution
    /// is produced, and the permutations are returned for diagnosis.
    SingularFactorization { singular_column: usize, column_perm: ColumnPerm, row_perm: RowPerm },
    /// The solver failed outright.
    Failed { error: Error },
}

/// Assemble the typed outcome of one solver invocation from what came back
/// across the foreign boundary: the status code, the overwritten
/// right-hand-side buffer, and the repopulated permutation vectors.
pub fn finish_solve<P: ValueType>(
    info: i32,
    num_cols_a: usize,
    x: DenseMat<P>,
    perm_c: ColumnPerm,
    perm_r: RowPerm,
) -> (r: SolveOutcome<P>)
    ensures
        classify_spec(info as int, num_cols_a as int) == SolveStatus::Solved ==> r
            == (SolveOutcome::Solved { x, column_perm: perm_c, row_perm: perm_r }),
        forall|k: usize|
            classify_spec(info as int, num_cols_a as int) == (
            SolveStatus::SingularFactorization { singular_column: k }) ==> r == (
            SolveOutcome::SingularFactorization::<P> {
                singular_column: k,
                column_perm: perm_c,
                row_perm: perm_r,
            }),
        forall|e: Error|
            classify_spec(info as int, num_cols_a as int) == (SolveStatus::Failed { error: e })
                ==> r == (SolveOutcome::Failed::<P> { error: e }),
{
    match classify(info, num_cols_a) {
        SolveStatus::Solved => SolveOutcome::Solved { x, column_perm: perm_c, row_perm: perm_r },
        SolveStatus::SingularFactorization { singular_column } => {
            SolveOutcome::SingularFactorization {
                singular_column,
                column_perm: perm_c,
                row_perm: perm_r,
            }
        }
        SolveStatus::Failed { error } => SolveOutcome::Failed { error },
    }
}

} // verus!
