use csuperlu::comp_col::{CompColMat, CompColRaw};
use csuperlu::dense::{DenseMat, DenseRaw};
use csuperlu::error::Error;
use csuperlu::sparse_matrix::SparseMat;
use csuperlu::value_type::ValueType;

/// Double-precision element type for exercising the library.
#[derive(Debug, Clone, Copy, PartialEq)]
struct F64(f64);

impl ValueType for F64 {
    // the spec items are ghost during verification; here they need plain
    // bodies, and they agree with the executable operations
    fn zero_spec() -> F64 {
        F64(0.0)
    }

    fn plus_spec(self, other: F64) -> F64 {
        F64(self.0 + other.0)
    }

    fn times_spec(self, other: F64) -> F64 {
        F64(self.0 * other.0)
    }

    fn zero() -> F64 {
        F64(0.0)
    }

    fn is_zero(&self) -> bool {
        self.0 == 0.0
    }

    fn plus(self, other: F64) -> F64 {
        F64(self.0 + other.0)
    }

    fn times(self, other: F64) -> F64 {
        F64(self.0 * other.0)
    }
}

#[test]
fn comp_col_matrix_values() {
    // Matrix dimensions
    let num_rows = 5usize;

    // Matrix elements
    let s: f64 = 19.0;
    let u: f64 = 21.0;
    let p: f64 = 16.0;
    let e: f64 = 5.0;
    let r: f64 = 18.0;
    let l: f64 = 12.0;

    // Vector of doubles of length nnz
    let non_zero_vals = vec![
        F64(s),
        F64(l),
        F64(l),
        F64(u),
        F64(l),
        F64(l),
        F64(u),
        F64(p),
        F64(u),
        F64(e),
        F64(u),
        F64(r),
    ];

    // Vector of ints of length nnz
    let row_indices = vec![0, 1, 4, 1, 2, 4, 0, 2, 0, 3, 3, 4];

    // Vector of ints of length num_columns + 1
    let col_offsets = vec![0, 3, 6, 8, 10, 12];

    // Make the left-hand side matrix
    let a = CompColMat::from_vectors(num_rows, non_zero_vals, row_indices, col_offsets)
        .expect("Failed to create matrix");

    // Check non-zero matrix values
    assert_eq!((a.value(0, 0).0 - s).abs() < 1e-8, true);
    assert_eq!((a.value(0, 2).0 - u).abs() < 1e-8, true);
    assert_eq!((a.value(0, 3).0 - u).abs() < 1e-8, true);
    assert_eq!((a.value(1, 0).0 - l).abs() < 1e-8, true);
    assert_eq!((a.value(1, 1).0 - u).abs() < 1e-8, true);
    assert_eq!((a.value(2, 1).0 - l).abs() < 1e-8, true);
    assert_eq!((a.value(2, 2).0 - p).abs() < 1e-8, true);
    assert_eq!((a.value(3, 3).0 - e).abs() < 1e-8, true);
    assert_eq!((a.value(3, 4).0 - u).abs() < 1e-8, true);
    assert_eq!((a.value(4, 0).0 - l).abs() < 1e-8, true);
    assert_eq!((a.value(4, 1).0 - l).abs() < 1e-8, true);
    assert_eq!((a.value(4, 4).0 - r).abs() < 1e-8, true);

    // Check (identically) zero matrix values
    assert_eq!(a.value(0, 1), F64(0.0));
    assert_eq!(a.value(0, 4), F64(0.0));
    assert_eq!(a.value(1, 2), F64(0.0));
    assert_eq!(a.value(1, 3), F64(0.0));
    assert_eq!(a.value(1, 4), F64(0.0));
    assert_eq!(a.value(2, 0), F64(0.0));
    assert_eq!(a.value(2, 3), F64(0.0));
    assert_eq!(a.value(2, 4), F64(0.0));
    assert_eq!(a.value(3, 0), F64(0.0));
    assert_eq!(a.value(3, 1), F64(0.0));
    assert_eq!(a.value(3, 2), F64(0.0));
    assert_eq!(a.value(4, 2), F64(0.0));
    assert_eq!(a.value(4, 3), F64(0.0));
}

#[test]
fn comp_col_round_trip() {
    let non_zero_vals = vec![F64(1.0), F64(2.0)];
    let row_indices = vec![0, 1];
    let col_offsets = vec![0, 1, 2];
    let a = CompColMat::from_raw(CompColRaw {
        num_rows: 2,
        non_zero_vals,
        row_indices,
        col_offsets,
    })
    .expect("Failed to create matrix");

    assert_eq!(a.num_cols(), 2);
    assert_eq!(a.num_rows(), 2);

    let CompColRaw { num_rows, non_zero_vals, row_indices, col_offsets } = a.to_raw();
    assert_eq!(num_rows, 2);
    assert_eq!(non_zero_vals, vec![F64(1.0), F64(2.0)]);
    assert_eq!(row_indices, vec![0, 1]);
    assert_eq!(col_offsets, vec![0, 1, 2]);

    // from_raw accepts the returned vectors again, with an identical view
    let b = CompColMat::from_raw(CompColRaw {
        num_rows,
        non_zero_vals,
        row_indices,
        col_offsets,
    })
    .expect("Round trip must validate");
    assert_eq!(b.num_rows(), 2);
    assert_eq!(b.num_cols(), 2);
    assert_eq!(b.non_zero_values(), &vec![F64(1.0), F64(2.0)]);
    assert_eq!(b.row_indices(), &vec![0, 1]);
    assert_eq!(b.column_offsets(), &vec![0, 1, 2]);
}

#[test]
fn comp_col_rejects_bad_lengths() {
    // no offsets at all
    let r = CompColMat::<F64>::from_raw(CompColRaw {
        num_rows: 2,
        non_zero_vals: vec![],
        row_indices: vec![],
        col_offsets: vec![],
    });
    assert_eq!(r.err(), Some(Error::CompColError));

    // values and row indices differ in length
    let r = CompColMat::from_raw(CompColRaw {
        num_rows: 2,
        non_zero_vals: vec![F64(1.0), F64(2.0)],
        row_indices: vec![0],
        col_offsets: vec![0, 1, 2],
    });
    assert_eq!(r.err(), Some(Error::CompColError));

    // final offset does not match the number of values
    let r = CompColMat::from_raw(CompColRaw {
        num_rows: 2,
        non_zero_vals: vec![F64(1.0), F64(2.0)],
        row_indices: vec![0, 1],
        col_offsets: vec![0, 1, 3],
    });
    assert_eq!(r.err(), Some(Error::CompColError));

    // row index out of the declared row bound
    let r = CompColMat::from_raw(CompColRaw {
        num_rows: 2,
        non_zero_vals: vec![F64(1.0), F64(2.0)],
        row_indices: vec![1, 2],
        col_offsets: vec![0, 1, 2],
    });
    assert_eq!(r.err(), Some(Error::CompColError));

    // row indices not ascending within a column
    let r = CompColMat::from_raw(CompColRaw {
        num_rows: 3,
        non_zero_vals: vec![F64(1.0), F64(2.0)],
        row_indices: vec![2, 1],
        col_offsets: vec![0, 2, 2],
    });
    assert_eq!(r.err(), Some(Error::CompColError));

    // offsets decreasing
    let r = CompColMat::from_raw(CompColRaw {
        num_rows: 3,
        non_zero_vals: vec![F64(1.0), F64(2.0)],
        row_indices: vec![0, 1],
        col_offsets: vec![0, 2, 1, 2],
    });
    assert_eq!(r.err(), Some(Error::CompColError));
}

#[test]
fn conversion_reproduces_gets() {
    let mut m = SparseMat::<F64>::new(4, 5);
    m.insert(0, 0, F64(2.5));
    m.insert(3, 0, F64(-1.0));
    m.insert(1, 2, F64(4.0));
    m.insert(2, 2, F64(8.0));
    m.insert(0, 4, F64(7.25));
    // column 1 and column 3 stay empty

    let cc = m.to_compressed_column();
    assert_eq!(cc.num_rows(), 4);
    assert_eq!(cc.num_cols(), 5);
    assert_eq!(cc.num_non_zeros(), 5);
    for r in 0..4 {
        for c in 0..5 {
            assert_eq!(cc.value(r, c), m.get(r, c));
        }
    }
}

#[test]
fn conversion_emits_offsets_for_empty_columns() {
    let mut m = SparseMat::<F64>::new(3, 4);
    m.insert(1, 1, F64(5.0));
    m.insert(2, 1, F64(6.0));
    m.insert(0, 3, F64(7.0));

    let cc = m.to_compressed_column();
    // empty columns repeat the running count instead of being skipped
    assert_eq!(cc.column_offsets(), &vec![0, 0, 2, 2, 3]);
    assert_eq!(cc.row_indices(), &vec![1, 2, 0]);
    assert_eq!(cc.non_zero_values(), &vec![F64(5.0), F64(6.0), F64(7.0)]);
}

#[test]
fn conversion_of_empty_matrix() {
    let m = SparseMat::<F64>::new(3, 3);
    let cc = m.to_compressed_column();
    assert_eq!(cc.num_non_zeros(), 0);
    assert_eq!(cc.column_offsets(), &vec![0, 0, 0, 0]);
    for r in 0..3 {
        for c in 0..3 {
            assert_eq!(cc.value(r, c), F64(0.0));
        }
    }
}

#[test]
fn multiply_identity_like() {
    // diag(1, 1) * (1, 2)^t == (1, 2)^t
    let a = CompColMat::from_raw(CompColRaw {
        num_rows: 2,
        non_zero_vals: vec![F64(1.0), F64(1.0)],
        row_indices: vec![0, 1],
        col_offsets: vec![0, 1, 2],
    })
    .expect("valid");
    let b = a.multiply(&vec![F64(1.0), F64(2.0)]);
    assert_eq!(b, vec![F64(1.0), F64(2.0)]);
}

#[test]
fn multiply_exact_values() {
    // [ 2 0 3 ]   [ 1 ]   [ 2 + 9  ]   [ 11 ]
    // [ 0 4 0 ] * [ 2 ] = [ 8      ] = [ 8  ]
    //             [ 3 ]
    let a = CompColMat::from_raw(CompColRaw {
        num_rows: 2,
        non_zero_vals: vec![F64(2.0), F64(4.0), F64(3.0)],
        row_indices: vec![0, 1, 0],
        col_offsets: vec![0, 1, 2, 3],
    })
    .expect("valid");
    let b = a.multiply(&vec![F64(1.0), F64(2.0), F64(3.0)]);
    assert_eq!(b, vec![F64(11.0), F64(8.0)]);
}

#[test]
fn test_dense_matrix() {
    // Make a simple dense matrix
    let num_rows = 3;
    let num_cols = 3;
    // Note the matrix isn't what it looks like!
    let col_maj_vals = vec![F64(1.0), F64(2.0), F64(3.0), F64(4.0), F64(5.0), F64(6.0), F64(7.0), F64(8.0), F64(9.0)];

    // Create the matrix wrapper
    let a = DenseMat::from_vectors(num_rows, num_cols, col_maj_vals)
        .expect("Failed to create matrix");

    // Check the size
    assert_eq!(a.num_cols(), 3);
    assert_eq!(a.num_rows(), 3);

    // Check the values

    // Get the vectors back out
    let DenseRaw { num_rows, num_cols, col_maj_vals } = a.to_raw();

    // Check the vectors are all correct
    assert_eq!(num_rows, 3);
    assert_eq!(num_cols, 3);
    assert_eq!(col_maj_vals, vec![F64(1.0), F64(2.0), F64(3.0), F64(4.0), F64(5.0), F64(6.0), F64(7.0), F64(8.0), F64(9.0)]);
}

#[test]
fn dense_test_drop_leaks() {
    // Make a simple dense matrix
    let num_rows = 3;
    let num_cols = 3;
    // Note the matrix isn't what it looks like!
    let col_maj_vals = vec![F64(1.0), F64(2.0), F64(3.0), F64(4.0), F64(5.0), F64(6.0), F64(7.0), F64(8.0), F64(9.0)];

    let raw = DenseRaw { num_rows, num_cols, col_maj_vals };

    // Create the matrix wrapper
    let _a = DenseMat::from_raw(raw).expect("Failed to create matrix");
}

#[test]
fn dense_rejects_wrong_length() {
    let r = DenseMat::from_raw(DenseRaw {
        num_rows: 2,
        num_cols: 2,
        col_maj_vals: vec![F64(1.0), F64(2.0), F64(3.0)],
    });
    assert_eq!(r.err(), Some(Error::DenseMatrixError));
}

#[test]
fn dense_column_major_value_lookup() {
    let a = DenseMat::from_raw(DenseRaw {
        num_rows: 2,
        num_cols: 3,
        col_maj_vals: vec![F64(1.0), F64(2.0), F64(3.0), F64(4.0), F64(5.0), F64(6.0)],
    })
    .expect("valid");
    assert_eq!(a.value(0, 0), F64(1.0));
    assert_eq!(a.value(1, 0), F64(2.0));
    assert_eq!(a.value(0, 1), F64(3.0));
    assert_eq!(a.value(1, 2), F64(6.0));
    assert_eq!(a.column_major_values(), &vec![F64(1.0), F64(2.0), F64(3.0), F64(4.0), F64(5.0), F64(6.0)]);
}
