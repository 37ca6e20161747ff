use csuperlu::sparse_matrix::SparseMat;
use csuperlu::value_type::ValueType;

/// Double-precision element type for exercising the library.
#[derive(Debug, Clone, Copy, PartialEq)]
struct F64(f64);

impl ValueType for F64 {
    // the spec items are ghost during verification; here they need plain
    // bodies, and they agree with the executable operations
    fn zero_spec() -> F64 {
        F64(0.0)
    }

    fn plus_spec(self, other: F64) -> F64 {
        F64(self.0 + other.0)
    }

    fn times_spec(self, other: F64) -> F64 {
        F64(self.0 * other.0)
    }

    fn zero() -> F64 {
        F64(0.0)
    }

    fn is_zero(&self) -> bool {
        self.0 == 0.0
    }

    fn plus(self, other: F64) -> F64 {
        F64(self.0 + other.0)
    }

    fn times(self, other: F64) -> F64 {
        F64(self.0 * other.0)
    }
}

fn lookup(m: &SparseMat<F64>, row: usize, col: usize) -> Option<F64> {
    m.non_zero_vals()
        .iter()
        .find(|e| e.0 == row && e.1 == col)
        .map(|e| e.2)
}

#[test]
fn empty_matrix() {
    let a = SparseMat::<F64>::empty();
    assert_eq!(a.num_rows(), 0);
    assert_eq!(a.num_cols(), 0);
    assert_eq!(a.non_zero_vals().len(), 0);
    assert_eq!(a.num_non_zeros(), 0);
}

#[test]
fn new_matrix() {
    let a = SparseMat::<F64>::new(5, 8);
    assert_eq!(a.num_rows(), 5);
    assert_eq!(a.num_cols(), 8);
    assert_eq!(a.non_zero_vals().len(), 0);
    assert_eq!(a.num_non_zeros(), 0);
}

#[test]
fn insert_into_fixed_matrix() {
    let mut a = SparseMat::<F64>::new(5, 5);
    a.insert(1, 3, F64(1.5));
    a.insert(4, 2, F64(0.4));
    assert_eq!(a.non_zero_vals().len(), 2);
    assert_eq!(a.num_non_zeros(), 2);
    assert_eq!(a.get(1, 3), F64(1.5));
    assert_eq!(lookup(&a, 1, 3), Some(F64(1.5)));
    assert_eq!(a.get(4, 2), F64(0.4));
    for i in 0..5 {
        for j in 0..5 {
            if !((i == 1 && j == 3) || (i == 4 && j == 2)) {
                assert_eq!(a.get(i, j), F64(0.0));
            }
        }
    }
}

#[test]
fn insert_into_dynamic_matrix() {
    let mut a = SparseMat::<F64>::empty();
    a.insert_unbounded(1, 3, F64(1.5));
    a.insert_unbounded(4, 2, F64(0.4));
    assert_eq!(a.num_rows(), 5);
    assert_eq!(a.num_cols(), 4);
    assert_eq!(a.num_non_zeros(), 2);
    assert_eq!(a.get(1, 3), F64(1.5));
    assert_eq!(lookup(&a, 1, 3), Some(F64(1.5)));
    assert_eq!(a.get(4, 2), F64(0.4));
    // Check up to 5x5 even though it isn't that size
    for i in 0..5 {
        for j in 0..5 {
            if !((i == 1 && j == 3) || (i == 4 && j == 2)) {
                assert_eq!(a.get_unbounded(i, j), F64(0.0));
            }
        }
    }
}

#[test]
fn resize_empty_matrix() {
    let mut a = SparseMat::<F64>::empty();
    a.resize(5, 6);
    assert_eq!(a.num_rows(), 5);
    assert_eq!(a.num_cols(), 6);

    a.resize(3, 4);
    assert_eq!(a.num_rows(), 3);
    assert_eq!(a.num_cols(), 4);

    a.resize(0, 0);
    assert_eq!(a.num_rows(), 0);
    assert_eq!(a.num_cols(), 0);
}

#[test]
fn resize_populated_matrix() {
    let mut a = SparseMat::<F64>::empty();
    a.insert_unbounded(2, 2, F64(0.5));
    a.insert_unbounded(3, 1, F64(1.5));
    a.insert_unbounded(0, 1, F64(1.3));

    a.resize(5, 6);
    assert_eq!(a.num_rows(), 5);
    assert_eq!(a.num_cols(), 6);

    a.resize(4, 3);
    assert_eq!(a.num_rows(), 4);
    assert_eq!(a.num_cols(), 3);
}

#[test]
fn concatenate_columns() {
    let mut a = SparseMat::empty();
    a.insert_unbounded(2, 2, F64(0.5));
    a.insert_unbounded(3, 1, F64(1.5));
    a.insert_unbounded(0, 1, F64(1.3));

    let mut b = SparseMat::empty();
    b.insert_unbounded(2, 5, F64(0.2));
    b.insert_unbounded(1, 1, F64(1.2));
    b.insert_unbounded(3, 1, F64(2.3));
    b.resize_cols(8);

    let mut c = SparseMat::new(4, 2);
    c.insert(0, 0, F64(3.6));
    c.insert(1, 1, F64(11.6));
    c.insert(2, 1, F64(4.2));

    let comb = SparseMat::concat_cols(vec![a, b, c]);
    assert_eq!(comb.get(2, 2), F64(0.5));
    assert_eq!(comb.get(3, 1), F64(1.5));
    assert_eq!(comb.get(0, 1), F64(1.3));
    assert_eq!(comb.get(2, 8), F64(0.2));
    assert_eq!(comb.get(1, 4), F64(1.2));
    assert_eq!(comb.get(3, 4), F64(2.3));
    assert_eq!(comb.get(0, 11), F64(3.6));
    assert_eq!(comb.get(1, 12), F64(11.6));
    assert_eq!(comb.get(2, 12), F64(4.2));
    assert_eq!(comb.num_rows(), 4);
    assert_eq!(comb.num_cols(), 13);
}

#[test]
fn concatenate_rows() {
    let mut a = SparseMat::new(2, 5);
    a.insert(1, 1, F64(0.5));
    a.insert(0, 2, F64(1.5));
    a.insert(0, 4, F64(1.3));

    let mut b = SparseMat::new(4, 5);
    b.insert(0, 3, F64(0.2));
    b.insert(0, 2, F64(1.2));
    b.insert(0, 4, F64(2.3));

    let mut c = SparseMat::new(10, 5);
    c.insert(7, 0, F64(3.6));
    c.insert(4, 1, F64(11.6));
    c.insert(8, 2, F64(4.2));

    let comb = SparseMat::concat_rows(vec![a, b, c]);
    assert_eq!(comb.get(1, 1), F64(0.5));
    assert_eq!(comb.get(0, 2), F64(1.5));
    assert_eq!(comb.get(0, 4), F64(1.3));
    assert_eq!(comb.get(2, 3), F64(0.2));
    assert_eq!(comb.get(2, 2), F64(1.2));
    assert_eq!(comb.get(2, 4), F64(2.3));
    assert_eq!(comb.get(13, 0), F64(3.6));
    assert_eq!(comb.get(10, 1), F64(11.6));
    assert_eq!(comb.get(14, 2), F64(4.2));
    assert_eq!(comb.num_rows(), 16);
    assert_eq!(comb.num_cols(), 5);
}

#[test]
fn transpose_matrix() {
    let mut a = SparseMat::new(4, 2);
    a.insert(3, 0, F64(3.6));
    a.insert(1, 1, F64(11.6));
    a.insert(2, 1, F64(4.2));

    let b = a.transpose();
    assert_eq!(b.get(0, 3), F64(3.6));
    assert_eq!(b.get(1, 1), F64(11.6));
    assert_eq!(b.get(1, 2), F64(4.2));
    assert_eq!(b.num_non_zeros(), 3);
    assert_eq!(b.num_rows(), 2);
    assert_eq!(b.num_cols(), 4);
}

#[test]
fn zero_insert_removes_key() {
    let mut a = SparseMat::<F64>::new(3, 3);
    a.insert(1, 2, F64(7.5));
    assert_eq!(a.get(1, 2), F64(7.5));
    assert_eq!(a.num_non_zeros(), 1);
    a.insert(1, 2, F64(0.0));
    assert_eq!(a.get(1, 2), F64(0.0));
    assert_eq!(a.num_non_zeros(), 0);
    assert_eq!(lookup(&a, 1, 2), None);
}

#[test]
fn zero_insert_on_absent_key() {
    let mut a = SparseMat::<F64>::new(3, 3);
    a.insert(0, 0, F64(0.0));
    assert_eq!(a.get(0, 0), F64(0.0));
    assert_eq!(a.num_non_zeros(), 0);
    assert_eq!(lookup(&a, 0, 0), None);
}

#[test]
fn overwrite_keeps_one_entry() {
    let mut a = SparseMat::<F64>::new(3, 3);
    a.insert(2, 1, F64(4.0));
    a.insert(2, 1, F64(5.0));
    assert_eq!(a.get(2, 1), F64(5.0));
    assert_eq!(a.num_non_zeros(), 1);
}

#[test]
fn transpose_twice_is_identity() {
    let mut a = SparseMat::<F64>::new(4, 3);
    a.insert(0, 2, F64(1.25));
    a.insert(3, 1, F64(-2.5));
    let b = a.transpose().transpose();
    assert_eq!(b.num_rows(), 4);
    assert_eq!(b.num_cols(), 3);
    for i in 0..4 {
        for j in 0..3 {
            assert_eq!(a.get(i, j), b.get(i, j));
        }
    }
}

#[test]
fn concatenate_both_dimensions() {
    let mut a = SparseMat::<F64>::new(2, 2);
    a.insert(0, 0, F64(1.0));
    a.insert(1, 1, F64(2.0));

    let mut b = SparseMat::<F64>::new(2, 3);
    b.insert(0, 0, F64(1.0));
    b.insert(1, 1, F64(2.0));

    let mut c = SparseMat::<F64>::new(3, 2);
    c.insert(0, 0, F64(1.0));
    c.insert(1, 1, F64(2.0));

    let mut d = SparseMat::<F64>::new(3, 3);
    d.insert(0, 0, F64(1.0));
    d.insert(1, 1, F64(2.0));
    d.insert(2, 2, F64(3.0));

    let comb = SparseMat::concat(vec![vec![a, b], vec![c, d]]);
    assert_eq!(comb.get(0, 0), F64(1.0));
    assert_eq!(comb.get(1, 1), F64(2.0));
    assert_eq!(comb.get(0, 2), F64(1.0));
    assert_eq!(comb.get(1, 3), F64(2.0));
    assert_eq!(comb.get(2, 0), F64(1.0));
    assert_eq!(comb.get(3, 1), F64(2.0));
    assert_eq!(comb.get(2, 2), F64(1.0));
    assert_eq!(comb.get(3, 3), F64(2.0));
    assert_eq!(comb.get(4, 4), F64(3.0));
    assert_eq!(comb.num_cols(), 5);
    assert_eq!(comb.num_rows(), 5);
}
