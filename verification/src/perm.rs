//! Permutation vectors.
//!
//! A permutation vector of length `n` holds each of `0 .. n` exactly once.
//! The solver consumes a column permutation (to control fill-in) and a row
//! permutation (chosen during pivoting); either may be supplied by the
//! caller as a hint when reusing the structure of an earlier solve.

use vstd::prelude::*;

verus! {

/// Whether `s` is a bijection on `[0, s.len())`: every element in range,
/// no element repeated.
pub open spec fn is_permutation(s: Seq<i32>) -> bool {
    &&& forall|i: int| 0 <= i < s.len() ==> 0 <= #[trigger] s[i] < s.len()
    &&& forall|i: int, j: int| #![trigger s[i], s[j]] 0 <= i < j < s.len() ==> s[i] != s[j]
}

/// Check that a vector is a permutation of `[0, len)`.
fn check_permutation(v: &Vec<i32>) -> (r: bool)
    ensures
        r == is_permutation(v@),
{
    let n = v.len();
    let mut seen: Vec<bool> = Vec::new();
    let mut k: usize = 0;
    while k < n
        invariant
            k <= n,
            seen@.len() == k,
            forall|j: int| 0 <= j < k ==> !(#[trigger] seen@[j]),
        decreases n - k,
    {
        seen.push(false);
        k = k + 1;
    }
    let mut i: usize = 0;
    while i < n
        invariant
            i <= n,
            n == v@.len(),
            seen@.len() == n,
            forall|j: int| 0 <= j < i ==> 0 <= #[trigger] v@[j] < n,
            forall|x: int|
                0 <= x < n ==> (#[trigger] seen@[x] <==> exists|j: int|
                    0 <= j < i && v@[j] == x),
            forall|a: int, b: int| #![trigger v@[a], v@[b]] 0 <= a < b < i ==> v@[a] != v@[b],
        decreases n - i,
    {
        let x = v[i];
        if x < 0 || x as usize >= n {
            assert(!is_permutation(v@)) by {
                assert(!(0 <= v@[i as int] < n));
            }
            return false;
        }
        if seen[x as usize] {
            proof {
                let j = choose|j: int| 0 <= j < i && v@[j] == x as int;
                assert(v@[j] == v@[i as int]);
                assert(!is_permutation(v@));
            }
            return false;
        }
        proof {
            assert forall|a: int, b: int| #![trigger v@[a], v@[b]]
                0 <= a < b < i + 1 implies v@[a] != v@[b] by {
                if b == i as int && v@[a] == v@[b] {
                    assert(0 <= a < i && v@[a] == x as int);
                    assert(seen@[x as int]);
                }
            }
        }
        seen.set(x as usize, true);
        proof {
            assert forall|y: int|
                0 <= y < n implies (#[trigger] seen@[y] <==> exists|j: int|
                    0 <= j < i + 1 && v@[j] == y) by {
                if y == x as int {
                    assert(v@[i as int] == y);
                } else {
                    if seen@[y] {
                        let j = choose|j: int| 0 <= j < i && v@[j] == y;
                        assert(0 <= j < i + 1 && v@[j] == y);
                    }
                    if exists|j: int| 0 <= j < i + 1 && v@[j] == y {
                        let j = choose|j: int| 0 <= j < i + 1 && v@[j] == y;
                        assert(j < i);
                    }
                }
            }
        }
        i = i + 1;
    }
    proof {
        assert forall|a: int, b: int| #![trigger v@[a], v@[b]]
            0 <= a < b < n implies v@[a] != v@[b] by {
            if v@[a] == v@[b] {
                let x = v@[a] as int;
                assert(seen@[x]);
            }
        }
    }
    true
}

/// A column permutation: a bijection on `[0, n)` reindexing the columns.
#[derive(Debug)]
pub struct ColumnPerm {
    column_perm: Vec<i32>,
}

impl ColumnPerm {
    /// The permutation entries, as seen by specifications.
    pub closed spec fn perm_spec(self) -> Seq<i32> {
        self.column_perm@
    }

    /// The permutation-vector invariant.
    pub open spec fn wf(self) -> bool {
        is_permutation(self.perm_spec())
    }

    /// Wrap a raw vector, verifying that each index appears exactly once.
    pub fn from_raw(column_perm: Vec<i32>) -> (r: Option<ColumnPerm>)
        ensures
            match r {
                Some(p) => is_permutation(column_perm@) && p.perm_spec() == column_perm@
                    && p.wf(),
                None => !is_permutation(column_perm@),
            },
    {
        if check_permutation(&column_perm) {
            Some(ColumnPerm { column_perm })
        } else {
            None
        }
    }

    /// The identity permutation on `[0, n)`.
    pub fn identity(n: usize) -> (r: ColumnPerm)
        requires
            n <= i32::MAX,
        ensures
            r.wf(),
            r.perm_spec().len() == n,
            forall|i: int| 0 <= i < n ==> #[trigger] r.perm_spec()[i] == i,
    {
        ColumnPerm { column_perm: identity_vec(n) }
    }

    /// The length of the permutation vector.
    pub fn len(&self) -> (r: usize)
        ensures
            r == self.perm_spec().len(),
    {
        self.column_perm.len()
    }

    /// Borrow the permutation entries.
    pub fn values(&self) -> (r: &Vec<i32>)
        ensures
            r@ == self.perm_spec(),
    {
        &self.column_perm
    }

    /// Hand the raw vector back to the caller.
    pub fn to_raw(self) -> (r: Vec<i32>)
        requires
            self.wf(),
        ensures
            r@ == self.perm_spec(),
            is_permutation(r@),
    {
        self.column_perm
    }
}

/// A row permutation: a bijection on `[0, n)` reindexing the rows, chosen
/// by partial pivoting or supplied by the caller.
#[derive(Debug)]
pub struct RowPerm {
    row_perm: Vec<i32>,
}

impl RowPerm {
    /// The permutation entries, as seen by specifications.
    pub closed spec fn perm_spec(self) -> Seq<i32> {
        self.row_perm@
    }

    /// The permutation-vector invariant.
    pub open spec fn wf(self) -> bool {
        is_permutation(self.perm_spec())
    }

    /// Wrap a raw vector, verifying that each index appears exactly once.
    pub fn from_raw(row_perm: Vec<i32>) -> (r: Option<RowPerm>)
        ensures
            match r {
                Some(p) => is_permutation(row_perm@) && p.perm_spec() == row_perm@ && p.wf(),
                None => !is_permutation(row_perm@),
            },
    {
        if check_permutation(&row_perm) {
            Some(RowPerm { row_perm })
        } else {
            None
        }
    }

    /// The identity permutation on `[0, n)`.
    pub fn identity(n: usize) -> (r: RowPerm)
        requires
            n <= i32::MAX,
        ensures
            r.wf(),
            r.perm_spec().len() == n,
            forall|i: int| 0 <= i < n ==> #[trigger] r.perm_spec()[i] == i,
    {
        RowPerm { row_perm: identity_vec(n) }
    }

    /// The length of the permutation vector.
    pub fn len(&self) -> (r: usize)
        ensures
            r == self.perm_spec().len(),
    {
        self.row_perm.len()
    }

    /// Borrow the permutation entries.
    pub fn values(&self) -> (r: &Vec<i32>)
        ensures
            r@ == self.perm_spec(),
    {
        &self.row_perm
    }

    /// Hand the raw vector back to the caller.
    pub fn to_raw(self) -> (r: Vec<i32>)
        requires
            self.wf(),
        ensures
            r@ == self.perm_spec(),
            is_permutation(r@),
    {
        self.row_perm
    }
}

/// Build the vector `[0, 1, .., n - 1]`.
fn identity_vec(n: usize) -> (r: Vec<i32>)
    requires
        n <= i32::MAX,
    ensures
        r@.len() == n,
        forall|i: int| 0 <= i < n ==> #[trigger] r@[i] == i,
        is_permutation(r@),
{
    let mut v: Vec<i32> = Vec::new();
    let mut i: usize = 0;
    while i < n
        invariant
            i <= n <= i32::MAX,
            v@.len() == i,
            forall|j: int| 0 <= j < i ==> #[trigger] v@[j] == j,
        decreases n - i,
    {
        v.push(i as i32);
        i = i + 1;
    }
    v
}

} // verus!
