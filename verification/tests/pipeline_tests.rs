use csuperlu::comp_col::{CompColMat, CompColRaw};
use csuperlu::dense::{DenseMat, DenseRaw};
use csuperlu::error::Error;
use csuperlu::harwell_boeing::{parse_int, parse_offset, MatrixProperty, MatrixStructure, MatrixType, MatrixValueType};
use csuperlu::options::{colperm_t, fact_t, rowperm_t, yes_no_t, ColumnPermPolicy, SimpleDriverOptions};
use csuperlu::perm::{ColumnPerm, RowPerm};
use csuperlu::simple_driver::{classify, finish_solve, SamePattern, SimilarValues, SimpleSystem, SolveOutcome, SolveStatus};
use csuperlu::value_type::ValueType;

/// Double-precision element type for exercising the library.
#[derive(Debug, Clone, Copy, PartialEq)]
struct F64(f64);

impl ValueType for F64 {
    // the spec items are ghost during verification; here they need plain
    // bodies, and they agree with the executable operations
    fn zero_spec() -> F64 {
        F64(0.0)
    }

    fn plus_spec(self, other: F64) -> F64 {
        F64(self.0 + other.0)
    }

    fn times_spec(self, other: F64) -> F64 {
        F64(self.0 * other.0)
    }

    fn zero() -> F64 {
        F64(0.0)
    }

    fn is_zero(&self) -> bool {
        self.0 == 0.0
    }

    fn plus(self, other: F64) -> F64 {
        F64(self.0 + other.0)
    }

    fn times(self, other: F64) -> F64 {
        F64(self.0 * other.0)
    }
}

fn diag2() -> CompColMat<F64> {
    CompColMat::from_raw(CompColRaw {
        num_rows: 2,
        non_zero_vals: vec![F64(1.0), F64(1.0)],
        row_indices: vec![0, 1],
        col_offsets: vec![0, 1, 2],
    })
    .expect("valid matrix")
}

fn rhs2() -> DenseMat<F64> {
    DenseMat::from_raw(DenseRaw { num_rows: 2, num_cols: 1, col_maj_vals: vec![F64(1.0), F64(2.0)] })
        .expect("valid rhs")
}

#[test]
fn classify_success() {
    assert_eq!(classify(0, 4), SolveStatus::Solved);
}

#[test]
fn classify_negative_is_unknown() {
    assert_eq!(classify(-1, 4), SolveStatus::Failed { error: Error::UnknownError });
    assert_eq!(classify(-100, 0), SolveStatus::Failed { error: Error::UnknownError });
}

#[test]
fn classify_singular_range() {
    assert_eq!(classify(1, 4), SolveStatus::SingularFactorization { singular_column: 0 });
    assert_eq!(classify(3, 4), SolveStatus::SingularFactorization { singular_column: 2 });
    // the boundary: info equal to the dimension is still singular, in the
    // final column
    assert_eq!(classify(4, 4), SolveStatus::SingularFactorization { singular_column: 3 });
}

#[test]
fn classify_out_of_memory() {
    // one past the dimension: one byte allocated at failure
    assert_eq!(
        classify(5, 4),
        SolveStatus::Failed { error: Error::OutOfMemory { mem_alloc_at_failure: 1 } }
    );
    assert_eq!(
        classify(1000, 4),
        SolveStatus::Failed { error: Error::OutOfMemory { mem_alloc_at_failure: 996 } }
    );
}

#[test]
fn finish_solve_solved_keeps_buffers() {
    let x = rhs2();
    let pc = ColumnPerm::from_raw(vec![1, 0]).expect("permutation");
    let pr = RowPerm::from_raw(vec![0, 1]).expect("permutation");
    match finish_solve(0, 2, x, pc, pr) {
        SolveOutcome::Solved { x, column_perm, row_perm } => {
            assert_eq!(x.column_major_values(), &vec![F64(1.0), F64(2.0)]);
            assert_eq!(column_perm.values(), &vec![1, 0]);
            assert_eq!(row_perm.values(), &vec![0, 1]);
        }
        _ => panic!("expected a solved outcome"),
    }
}

#[test]
fn finish_solve_singular() {
    let x = rhs2();
    let pc = ColumnPerm::from_raw(vec![0, 1]).expect("permutation");
    let pr = RowPerm::from_raw(vec![1, 0]).expect("permutation");
    match finish_solve(2, 2, x, pc, pr) {
        SolveOutcome::SingularFactorization { singular_column, column_perm, row_perm } => {
            assert_eq!(singular_column, 1);
            assert_eq!(column_perm.values(), &vec![0, 1]);
            assert_eq!(row_perm.values(), &vec![1, 0]);
        }
        _ => panic!("expected a singular factorization"),
    }
}

#[test]
fn finish_solve_failure() {
    let x = rhs2();
    let pc = ColumnPerm::from_raw(vec![0, 1]).expect("permutation");
    let pr = RowPerm::from_raw(vec![0, 1]).expect("permutation");
    match finish_solve(-3, 2, x, pc, pr) {
        SolveOutcome::Failed { error } => assert_eq!(error, Error::UnknownError),
        _ => panic!("expected a failure"),
    }
}

#[test]
fn simple_system_prepare_wires_policy() {
    let job = SimpleSystem { a: diag2(), b: rhs2() }
        .prepare(ColumnPermPolicy::Natural)
        .expect("dimensions match");
    assert_eq!(job.options.fact(), fact_t::DOFACT);
    assert_eq!(job.options.col_perm(), colperm_t::NATURAL);
    assert_ne!(job.options.row_perm(), rowperm_t::MY_PERMR);
    // fresh identity buffers sized to the matrix
    assert_eq!(job.perm_c.values(), &vec![0, 1]);
    assert_eq!(job.perm_r.values(), &vec![0, 1]);
}

#[test]
fn simple_system_prepare_rejects_dimension_mismatch() {
    let b = DenseMat::from_raw(DenseRaw {
        num_rows: 3,
        num_cols: 1,
        col_maj_vals: vec![F64(1.0), F64(2.0), F64(3.0)],
    })
    .expect("valid rhs");
    let r = SimpleSystem { a: diag2(), b }.prepare(ColumnPermPolicy::ColAMD);
    match r {
        Err(e) => assert_eq!(e, Error::DenseMatrixError),
        Ok(_) => panic!("mismatched dimensions must be rejected"),
    }
}

#[test]
fn same_pattern_prepare_reuses_column_perm() {
    let column_perm = ColumnPerm::from_raw(vec![1, 0]).expect("permutation");
    let job = SamePattern { a: diag2(), b: rhs2(), column_perm }
        .prepare()
        .expect("dimensions match");
    // the solver is told to use the caller's ordering, not to recompute one
    assert_eq!(job.options.col_perm(), colperm_t::MY_PERMC);
    assert_eq!(job.options.fact(), fact_t::DOFACT);
    assert_eq!(job.perm_c.values(), &vec![1, 0]);
}

#[test]
fn similar_values_prepare_reuses_both_perms() {
    let column_perm = ColumnPerm::from_raw(vec![1, 0]).expect("permutation");
    let row_perm = RowPerm::from_raw(vec![0, 1]).expect("permutation");
    let job = SimilarValues { a: diag2(), b: rhs2(), column_perm, row_perm }
        .prepare()
        .expect("dimensions match");
    assert_eq!(job.options.col_perm(), colperm_t::MY_PERMC);
    assert_eq!(job.options.row_perm(), rowperm_t::MY_PERMR);
    assert_eq!(job.options.fact(), fact_t::SamePattern_SameRowPerm);
    assert_eq!(job.perm_c.values(), &vec![1, 0]);
    assert_eq!(job.perm_r.values(), &vec![0, 1]);
}

#[test]
fn permutation_validation() {
    assert!(ColumnPerm::from_raw(vec![2, 0, 1]).is_some());
    // out of range
    assert!(ColumnPerm::from_raw(vec![0, 3]).is_none());
    // negative
    assert!(ColumnPerm::from_raw(vec![-1, 0]).is_none());
    // duplicate
    assert!(RowPerm::from_raw(vec![1, 1, 0]).is_none());
    // empty is a bijection on the empty range
    assert!(RowPerm::from_raw(vec![]).is_some());
    let id = ColumnPerm::identity(4);
    assert_eq!(id.values(), &vec![0, 1, 2, 3]);
    assert_eq!(id.len(), 4);
}

#[test]
fn options_defaults_and_setters() {
    let mut o = SimpleDriverOptions::new();
    assert_eq!(o.fact(), fact_t::DOFACT);
    assert_eq!(o.col_perm(), colperm_t::COLAMD);
    assert_eq!(o.symmetric_mode(), yes_no_t::NO);
    assert!(!o.diagonally_dominant());

    o.set_superlu_column_perm(ColumnPermPolicy::MmdAtA);
    assert_eq!(o.col_perm(), colperm_t::MMD_ATA);

    o.set_diagonally_dominant(true);
    assert_eq!(o.symmetric_mode(), yes_no_t::YES);
    assert_eq!(o.col_perm(), colperm_t::MMD_AT_PLUS_A);
    assert!(o.diagonally_dominant());
}

#[test]
fn harwell_boeing_type_codes() {
    assert_eq!(MatrixValueType::from_char('R'), MatrixValueType::Real);
    assert_eq!(MatrixValueType::from_char('C'), MatrixValueType::Complex);
    assert_eq!(MatrixValueType::from_char('P'), MatrixValueType::Pattern);
    assert_eq!(MatrixProperty::from_char('U'), MatrixProperty::Unsymmetric);
    assert_eq!(MatrixProperty::from_char('S'), MatrixProperty::Symmetric);
    assert_eq!(MatrixProperty::from_char('H'), MatrixProperty::Hermitian);
    assert_eq!(MatrixProperty::from_char('Z'), MatrixProperty::SkewSymmetric);
    assert_eq!(MatrixProperty::from_char('R'), MatrixProperty::Rectangular);
    assert_eq!(MatrixStructure::from_char('A'), MatrixStructure::Assembled);
    assert_eq!(MatrixStructure::from_char('E'), MatrixStructure::FiniteElement);

    let t = MatrixType::from_string(String::from("RUA"));
    assert_eq!(t.value_type, MatrixValueType::Real);
    assert_eq!(t.property, MatrixProperty::Unsymmetric);
    assert_eq!(t.structure, MatrixStructure::Assembled);
}

#[test]
fn parse_header_fields() {
    // a fourteen-character fixed-width field
    assert_eq!(parse_int("            42"), 42);
    assert_eq!(parse_int("           -42"), -42);
    assert_eq!(parse_int("42            "), 42);
    assert_eq!(parse_int("            42   trailing"), 42);
    assert_eq!(parse_int("             0"), 0);
    // offsets are one-based in the file and zero-based in the library
    assert_eq!(parse_offset("    5"), 4);
    assert_eq!(parse_offset("1"), 0);
    assert_eq!(parse_offset("  120  "), 119);
}
