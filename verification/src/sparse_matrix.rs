//! Triplet-built sparse matrices.
//!
//! A [`SparseMat`] is a mutable dictionary-of-keys sparse matrix used during
//! construction: a mapping from `(row, col)` keys to non-zero values, plus a
//! bounding dimension.  Inserting the additive identity removes the entry, so
//! an explicit zero is never stored.  Once assembled, a matrix is converted
//! into the compressed-column form the solver consumes.

use vstd::prelude::*;

use crate::value_type::ValueType;

verus! {

/// The `(row, col)` key of one stored triplet, as mathematical integers.
pub open spec fn key_of<P>(e: (usize, usize, P)) -> (int, int) {
    (e.0 as int, e.1 as int)
}

/// The mapping from keys to values that a sequence of triplets denotes;
/// later triplets win, though a well-formed matrix never stores a key twice.
pub open spec fn entries_map<P>(s: Seq<(usize, usize, P)>) -> Map<(int, int), P>
    decreases s.len(),
{
    if s.len() == 0 {
        Map::empty()
    } else {
        entries_map(s.drop_last()).insert(key_of(s.last()), s.last().2)
    }
}

/// No two triplets in `s` share a key.
pub open spec fn unique_keys<P>(s: Seq<(usize, usize, P)>) -> bool {
    forall|i: int, j: int|
        0 <= i < j < s.len() ==> #[trigger] key_of(s[i]) != #[trigger] key_of(s[j])
}

/// Every key present in the denoted map is the key of some triplet.
proof fn lemma_map_key_from_entry<P>(s: Seq<(usize, usize, P)>, k: (int, int))
    requires
        entries_map(s).dom().contains(k),
    ensures
        exists|i: int| 0 <= i < s.len() && #[trigger] key_of(s[i]) == k,
    decreases s.len(),
{
    if s.len() > 0 {
        if k == key_of(s.last()) {
            assert(key_of(s[s.len() - 1]) == k);
        } else {
            lemma_map_key_from_entry(s.drop_last(), k);
            let i = choose|i: int|
                0 <= i < s.drop_last().len() && #[trigger] key_of(s.drop_last()[i]) == k;
            assert(key_of(s[i]) == k);
        }
    }
}

/// The key of every triplet is present in the denoted map.
proof fn lemma_entry_key_in_map<P>(s: Seq<(usize, usize, P)>, i: int)
    requires
        0 <= i < s.len(),
    ensures
        entries_map(s).dom().contains(key_of(s[i])),
    decreases s.len(),
{
    if i < s.len() - 1 {
        lemma_entry_key_in_map(s.drop_last(), i);
    }
}

/// A key carried by no triplet is absent from the denoted map.
proof fn lemma_map_absent<P>(s: Seq<(usize, usize, P)>, k: (int, int))
    requires
        forall|i: int| 0 <= i < s.len() ==> #[trigger] key_of(s[i]) != k,
    ensures
        !entries_map(s).dom().contains(k),
    decreases s.len(),
{
    if s.len() > 0 {
        lemma_map_absent(s.drop_last(), k);
    }
}

/// With unique keys, the denoted map sends each triplet's key to its value.
proof fn lemma_map_value<P>(s: Seq<(usize, usize, P)>, i: int)
    requires
        unique_keys(s),
        0 <= i < s.len(),
    ensures
        entries_map(s)[key_of(s[i])] == s[i].2,
    decreases s.len(),
{
    if i == s.len() - 1 {
    } else {
        lemma_map_value(s.drop_last(), i);
        assert(key_of(s[i]) != key_of(s[s.len() - 1]));
    }
}

/// With unique keys, the denoted map has exactly one key per triplet.
proof fn lemma_map_len<P>(s: Seq<(usize, usize, P)>)
    requires
        unique_keys(s),
    ensures
        entries_map(s).dom().finite(),
        entries_map(s).dom().len() == s.len(),
    decreases s.len(),
{
    if s.len() > 0 {
        lemma_map_len(s.drop_last());
        assert(forall|i: int|
            0 <= i < s.drop_last().len() ==> #[trigger] key_of(s.drop_last()[i])
                != key_of(s.last()));
        lemma_map_absent(s.drop_last(), key_of(s.last()));
    }
}

/// Removing the triplet at index `i` removes exactly its key from the map.
proof fn lemma_map_remove<P>(s: Seq<(usize, usize, P)>, i: int)
    requires
        unique_keys(s),
        0 <= i < s.len(),
    ensures
        entries_map(s.remove(i)) == entries_map(s).remove(key_of(s[i])),
    decreases s.len(),
{
    if i == s.len() - 1 {
        assert(s.remove(i) =~= s.drop_last());
        assert(forall|j: int|
            0 <= j < s.drop_last().len() ==> #[trigger] key_of(s.drop_last()[j])
                != key_of(s.last()));
        lemma_map_absent(s.drop_last(), key_of(s.last()));
        assert(entries_map(s.drop_last()) =~= entries_map(s).remove(key_of(s[i])));
    } else {
        assert(s.remove(i).drop_last() =~= s.drop_last().remove(i));
        assert(s.remove(i).last() == s.last());
        lemma_map_remove(s.drop_last(), i);
        assert(entries_map(s.remove(i)) == entries_map(s.drop_last().remove(i)).insert(
            key_of(s.last()),
            s.last().2,
        ));
        assert(key_of(s[i]) != key_of(s.last()));
        assert(entries_map(s.drop_last()).remove(key_of(s[i])).insert(key_of(s.last()), s.last().2)
            =~= entries_map(s).remove(key_of(s[i])));
    }
}

/// Options controlling the textual rendering of a matrix's structure.
#[derive(Debug, Default)]
pub struct PrintOptions {
    pub row_divisions: Vec<usize>,
    pub col_divisions: Vec<usize>,
}

/// A sparse matrix under construction, held as unique `(row, col, value)`
/// triplets inside a bounding `num_rows` by `num_cols` box.
pub struct SparseMat<P: ValueType> {
    num_rows: usize,
    num_cols: usize,
    entries: Vec<(usize, usize, P)>,
}

impl<P: ValueType> SparseMat<P> {
    /// The number of rows, as seen by specifications.
    pub closed spec fn rows_spec(self) -> int {
        self.num_rows as int
    }

    /// The number of columns, as seen by specifications.
    pub closed spec fn cols_spec(self) -> int {
        self.num_cols as int
    }

    /// The stored triplets, as seen by specifications.
    pub closed spec fn entries_spec(self) -> Seq<(usize, usize, P)> {
        self.entries@
    }

    /// The key-to-value mapping this matrix denotes.
    pub open spec fn map_spec(self) -> Map<(int, int), P> {
        entries_map(self.entries_spec())
    }

    /// The matrix invariant: keys are unique, in bounds, and no stored value
    /// is the additive identity.
    pub open spec fn wf(self) -> bool {
        &&& unique_keys(self.entries_spec())
        &&& forall|i: int|
            0 <= i < self.entries_spec().len() ==> {
                &&& (#[trigger] self.entries_spec()[i]).0 < self.rows_spec()
                &&& self.entries_spec()[i].1 < self.cols_spec()
                &&& self.entries_spec()[i].2 != P::zero_spec()
            }
    }

    /// The value this matrix holds at `(row, col)`: the stored value, or the
    /// additive identity where no triplet carries that key.
    pub open spec fn get_spec(self, row: int, col: int) -> P {
        if self.map_spec().dom().contains((row, col)) {
            self.map_spec()[(row, col)]
        } else {
            P::zero_spec()
        }
    }

    /// Create an empty sparse matrix with zero rows and columns.
    pub fn empty() -> (r: SparseMat<P>)
        ensures
            r.wf(),
            r.rows_spec() == 0,
            r.cols_spec() == 0,
            r.map_spec() == Map::<(int, int), P>::empty(),
    {
        SparseMat { num_rows: 0, num_cols: 0, entries: Vec::new() }
    }

    /// Create an empty sparse matrix of the given size.
    pub fn new(num_rows: usize, num_cols: usize) -> (r: SparseMat<P>)
        ensures
            r.wf(),
            r.rows_spec() == num_rows,
            r.cols_spec() == num_cols,
            r.map_spec() == Map::<(int, int), P>::empty(),
    {
        SparseMat { num_rows, num_cols, entries: Vec::new() }
    }

    /// Find the index of the triplet carrying `(row, col)`, if any.
    fn find(&self, row: usize, col: usize) -> (r: Option<usize>)
        ensures
            match r {
                Some(i) => {
                    &&& i < self.entries_spec().len()
                    &&& key_of(self.entries_spec()[i as int]) == (row as int, col as int)
                },
                None => forall|i: int|
                    0 <= i < self.entries_spec().len() ==> #[trigger] key_of(
                        self.entries_spec()[i],
                    ) != (row as int, col as int),
            },
    {
        let n = self.entries.len();
        let mut i: usize = 0;
        while i < n
            invariant
                n == self.entries_spec().len(),
                i <= n,
                forall|j: int|
                    0 <= j < i ==> #[trigger] key_of(self.entries_spec()[j])
                        != (row as int, col as int),
            decreases n - i,
        {
            let e = self.entries[i];
            if e.0 == row && e.1 == col {
                return Some(i);
            }
            i = i + 1;
        }
        None
    }

    /// Read the value at the given row and column.
    pub fn get(&self, row: usize, col: usize) -> (r: P)
        requires
            self.wf(),
            row < self.rows_spec(),
            col < self.cols_spec(),
        ensures
            r == self.get_spec(row as int, col as int),
    {
        self.get_unbounded(row, col)
    }

    /// Read the value at the given row and column without checking the
    /// matrix bounds; any key outside them simply reads as the identity.
    pub fn get_unbounded(&self, row: usize, col: usize) -> (r: P)
        requires
            self.wf(),
        ensures
            r == self.get_spec(row as int, col as int),
    {
        match self.find(row, col) {
            Some(i) => {
                proof {
                    lemma_entry_key_in_map(self.entries_spec(), i as int);
                    lemma_map_value(self.entries_spec(), i as int);
                }
                self.entries[i].2
            }
            None => {
                proof {
                    lemma_map_absent(self.entries_spec(), (row as int, col as int));
                }
                P::zero()
            }
        }
    }

    /// Remove the triplet carrying `(row, col)`, if one is stored.
    fn remove_key(&mut self, row: usize, col: usize)
        requires
            old(self).wf(),
        ensures
            final(self).wf(),
            final(self).rows_spec() == old(self).rows_spec(),
            final(self).cols_spec() == old(self).cols_spec(),
            final(self).map_spec() == old(self).map_spec().remove((row as int, col as int)),
    {
        let k: Ghost<(int, int)> = Ghost((row as int, col as int));
        match self.find(row, col) {
            Some(i) => {
                proof {
                    lemma_map_remove(self.entries_spec(), i as int);
                }
                self.entries.remove(i);
                proof {
                    let s = old(self).entries_spec();
                    assert forall|a: int, b: int|
                        0 <= a < b < self.entries_spec().len() implies #[trigger] key_of(
                        self.entries_spec()[a],
                    ) != #[trigger] key_of(self.entries_spec()[b]) by {
                        let a0 = if a < i as int { a } else { a + 1 };
                        let b0 = if b < i as int { b } else { b + 1 };
                        assert(self.entries_spec()[a] == s[a0]);
                        assert(self.entries_spec()[b] == s[b0]);
                    }
                    assert forall|j: int| 0 <= j < self.entries_spec().len() implies {
                        &&& (#[trigger] self.entries_spec()[j]).0 < self.rows_spec()
                        &&& self.entries_spec()[j].1 < self.cols_spec()
                        &&& self.entries_spec()[j].2 != P::zero_spec()
                    } by {
                        let j0 = if j < i as int { j } else { j + 1 };
                        assert(self.entries_spec()[j] == s[j0]);
                    }
                }
            }
            None => {
                proof {
                    lemma_map_absent(self.entries_spec(), k@);
                    assert(self.map_spec() =~= self.map_spec().remove(k@));
                }
            }
        }
    }

    /// Store `val` at `(row, col)`: absorb it into the map, or remove the
    /// key entirely when `val` is the additive identity.
    fn store(&mut self, row: usize, col: usize, val: P)
        requires
            old(self).wf(),
            val != P::zero_spec(),
            row < old(self).rows_spec(),
            col < old(self).cols_spec(),
        ensures
            final(self).wf(),
            final(self).rows_spec() == old(self).rows_spec(),
            final(self).cols_spec() == old(self).cols_spec(),
            final(self).map_spec() == old(self).map_spec().insert(
                (row as int, col as int),
                val,
            ),
    {
        let k: Ghost<(int, int)> = Ghost((row as int, col as int));
        self.remove_key(row, col);
        let mid: Ghost<SparseMat<P>> = Ghost(*self);
        self.entries.push((row, col, val));
        proof {
            let s = mid@.entries_spec();
            assert(self.entries_spec().drop_last() =~= s);
            assert(self.map_spec() == entries_map(s).insert(k@, val));
            assert(old(self).map_spec().remove(k@).insert(k@, val) =~= old(
                self,
            ).map_spec().insert(k@, val));
            // the pushed triplet's key was just removed, so uniqueness holds
            assert forall|i: int|
                0 <= i < s.len() implies #[trigger] key_of(s[i]) != k@ by {
                lemma_entry_key_in_map(s, i);
            }
            assert forall|a: int, b: int|
                0 <= a < b < self.entries_spec().len() implies #[trigger] key_of(
                self.entries_spec()[a],
            ) != #[trigger] key_of(self.entries_spec()[b]) by {
                if b == s.len() {
                    assert(self.entries_spec()[a] == s[a]);
                } else {
                    assert(self.entries_spec()[a] == s[a]);
                    assert(self.entries_spec()[b] == s[b]);
                }
            }
        }
    }

    /// Input a triplet into the sparse matrix, checking the row and column
    /// against the matrix size.  Storing the additive identity removes the
    /// key instead; an explicit zero is never kept.
    pub fn insert(&mut self, row: usize, col: usize, val: P)
        requires
            old(self).wf(),
            row < old(self).rows_spec(),
            col < old(self).cols_spec(),
        ensures
            final(self).wf(),
            final(self).rows_spec() == old(self).rows_spec(),
            final(self).cols_spec() == old(self).cols_spec(),
            val == P::zero_spec() ==> final(self).map_spec() == old(self).map_spec().remove(
                (row as int, col as int),
            ),
            val != P::zero_spec() ==> final(self).map_spec() == old(self).map_spec().insert(
                (row as int, col as int),
                val,
            ),
    {
        if val.is_zero() {
            self.remove_key(row, col);
        } else {
            self.store(row, col, val);
        }
    }

    /// Input a triplet into the sparse matrix, allowing the matrix to grow
    /// so that the new key fits.  Storing the additive identity removes the
    /// key and leaves the dimensions unchanged.
    pub fn insert_unbounded(&mut self, row: usize, col: usize, val: P)
        requires
            old(self).wf(),
            row < usize::MAX,
            col < usize::MAX,
        ensures
            final(self).wf(),
            val == P::zero_spec() ==> {
                &&& final(self).map_spec() == old(self).map_spec().remove(
                    (row as int, col as int),
                )
                &&& final(self).rows_spec() == old(self).rows_spec()
                &&& final(self).cols_spec() == old(self).cols_spec()
            },
            val != P::zero_spec() ==> {
                &&& final(self).map_spec() == old(self).map_spec().insert(
                    (row as int, col as int),
                    val,
                )
                &&& final(self).rows_spec() == vstd::math::max(
                    old(self).rows_spec(),
                    row + 1,
                )
                &&& final(self).cols_spec() == vstd::math::max(
                    old(self).cols_spec(),
                    col + 1,
                )
            },
    {
        if val.is_zero() {
            self.remove_key(row, col);
        } else {
            if row >= self.num_rows {
                self.num_rows = row + 1;
            }
            if col >= self.num_cols {
                self.num_cols = col + 1;
            }
            self.store(row, col, val);
        }
    }

    /// Resize (shrinking or expanding) as long as the contents are
    /// preserved: every stored key must fit inside the new bounding box.
    pub fn resize(&mut self, num_rows: usize, num_cols: usize)
        requires
            old(self).wf(),
            forall|k: (int, int)| #[trigger]
                old(self).map_spec().dom().contains(k) ==> k.0 < num_rows && k.1 < num_cols,
        ensures
            final(self).wf(),
            final(self).rows_spec() == num_rows,
            final(self).cols_spec() == num_cols,
            final(self).map_spec() == old(self).map_spec(),
    {
        self.resize_rows(num_rows);
        self.resize_cols(num_cols);
    }

    /// Resize the row count; every stored key must fit under the new count.
    pub fn resize_rows(&mut self, num_rows: usize)
        requires
            old(self).wf(),
            forall|k: (int, int)| #[trigger]
                old(self).map_spec().dom().contains(k) ==> k.0 < num_rows,
        ensures
            final(self).wf(),
            final(self).rows_spec() == num_rows,
            final(self).cols_spec() == old(self).cols_spec(),
            final(self).map_spec() == old(self).map_spec(),
            final(self).entries_spec() == old(self).entries_spec(),
    {
        proof {
            let s = old(self).entries_spec();
            assert forall|i: int|
                0 <= i < s.len() implies (#[trigger] s[i]).0 < num_rows by {
                lemma_entry_key_in_map(s, i);
                assert(old(self).map_spec().dom().contains(key_of(s[i])));
            }
        }
        self.num_rows = num_rows;
    }

    /// Resize the column count; every stored key must fit under the new
    /// count.
    pub fn resize_cols(&mut self, num_cols: usize)
        requires
            old(self).wf(),
            forall|k: (int, int)| #[trigger]
                old(self).map_spec().dom().contains(k) ==> k.1 < num_cols,
        ensures
            final(self).wf(),
            final(self).rows_spec() == old(self).rows_spec(),
            final(self).cols_spec() == num_cols,
            final(self).map_spec() == old(self).map_spec(),
            final(self).entries_spec() == old(self).entries_spec(),
    {
        proof {
            let s = old(self).entries_spec();
            assert forall|i: int|
                0 <= i < s.len() implies (#[trigger] s[i]).1 < num_cols by {
                lemma_entry_key_in_map(s, i);
                assert(old(self).map_spec().dom().contains(key_of(s[i])));
            }
        }
        self.num_cols = num_cols;
    }

    /// Get the number of rows in the matrix.
    pub fn num_rows(&self) -> (r: usize)
        ensures
            r == self.rows_spec(),
    {
        self.num_rows
    }

    /// Get the number of columns in the matrix.
    pub fn num_cols(&self) -> (r: usize)
        ensures
            r == self.cols_spec(),
    {
        self.num_cols
    }

    /// Get the number of non-zero values in the matrix.
    pub fn num_non_zeros(&self) -> (r: usize)
        requires
            self.wf(),
        ensures
            r == self.map_spec().dom().len(),
    {
        proof {
            lemma_map_len(self.entries_spec());
        }
        self.entries.len()
    }

    /// Return the stored triplets, sorted by nothing in particular.
    pub fn non_zero_vals(&self) -> (r: &Vec<(usize, usize, P)>)
        ensures
            r@ == self.entries_spec(),
    {
        &self.entries
    }

    /// Return a new matrix with swapped dimensions and swapped key
    /// coordinates.
    pub fn transpose(&self) -> (r: SparseMat<P>)
        requires
            self.wf(),
        ensures
            r.wf(),
            r.rows_spec() == self.cols_spec(),
            r.cols_spec() == self.rows_spec(),
            r.map_spec() == transpose_map(self.map_spec()),
    {
        let mut entries: Vec<(usize, usize, P)> = Vec::new();
        let n = self.entries.len();
        let mut i: usize = 0;
        while i < n
            invariant
                n == self.entries_spec().len(),
                i <= n,
                entries@.len() == i,
                forall|j: int|
                    0 <= j < i ==> #[trigger] entries@[j] == (
                        self.entries_spec()[j].1,
                        self.entries_spec()[j].0,
                        self.entries_spec()[j].2,
                    ),
            decreases n - i,
        {
            let e = self.entries[i];
            entries.push((e.1, e.0, e.2));
            i = i + 1;
        }
        let r = SparseMat { num_rows: self.num_cols, num_cols: self.num_rows, entries };
        proof {
            lemma_transpose_entries(self.entries_spec(), r.entries_spec());
            assert forall|a: int, b: int|
                0 <= a < b < r.entries_spec().len() implies #[trigger] key_of(
                r.entries_spec()[a],
            ) != #[trigger] key_of(r.entries_spec()[b]) by {
                assert(key_of(self.entries_spec()[a]) != key_of(self.entries_spec()[b]));
            }
            assert forall|j: int| 0 <= j < r.entries_spec().len() implies {
                &&& (#[trigger] r.entries_spec()[j]).0 < r.rows_spec()
                &&& r.entries_spec()[j].1 < r.cols_spec()
                &&& r.entries_spec()[j].2 != P::zero_spec()
            } by {
                assert(self.entries_spec()[j].0 < self.rows_spec());
                assert(self.entries_spec()[j].1 < self.cols_spec());
            }
        }
        r
    }

    /// Copy every triplet of `m`, moved down by `row_off` and right by
    /// `col_off`, into this matrix.  The shifted block must fit inside
    /// this matrix's bounding box and must not touch any stored key.
    fn append_shifted(&mut self, m: &SparseMat<P>, row_off: usize, col_off: usize)
        requires
            old(self).wf(),
            m.wf(),
            row_off + m.rows_spec() <= old(self).rows_spec(),
            col_off + m.cols_spec() <= old(self).cols_spec(),
            forall|k: (int, int)| #[trigger]
                m.map_spec().dom().contains(k) ==> !old(self).map_spec().dom().contains(
                    (k.0 + row_off, k.1 + col_off),
                ),
        ensures
            final(self).wf(),
            final(self).rows_spec() == old(self).rows_spec(),
            final(self).cols_spec() == old(self).cols_spec(),
            final(self).map_spec() == old(self).map_spec().union_prefer_right(
                shift_map(m.map_spec(), row_off as int, col_off as int),
            ),
    {
        let base = self.entries.len();
        let n = m.entries.len();
        let mut j: usize = 0;
        while j < n
            invariant
                old(self).wf(),
                m.wf(),
                row_off + m.rows_spec() <= old(self).rows_spec(),
                col_off + m.cols_spec() <= old(self).cols_spec(),
                n == m.entries_spec().len(),
                base == old(self).entries_spec().len(),
                j <= n,
                self.num_rows == old(self).num_rows,
                self.num_cols == old(self).num_cols,
                self.entries_spec().len() == base + j,
                forall|l: int|
                    0 <= l < base ==> #[trigger] self.entries_spec()[l] == old(
                        self,
                    ).entries_spec()[l],
                forall|l: int|
                    0 <= l < j ==> {
                        &&& (#[trigger] self.entries_spec()[base + l]).0 == m.entries_spec()[
                            l
                        ].0 + row_off
                        &&& self.entries_spec()[base + l].1 == m.entries_spec()[l].1 + col_off
                        &&& self.entries_spec()[base + l].2 == m.entries_spec()[l].2
                    },
            decreases n - j,
        {
            let e = m.entries[j];
            proof {
                assert(m.entries_spec()[j as int].0 < m.rows_spec());
                assert(m.entries_spec()[j as int].1 < m.cols_spec());
            }
            self.entries.push((e.0 + row_off, e.1 + col_off, e.2));
            j = j + 1;
        }
        proof {
            lemma_entries_map_append_shifted(
                old(self).entries_spec(),
                m.entries_spec(),
                self.entries_spec(),
                row_off as int,
                col_off as int,
            );
            let s = self.entries_spec();
            let os = old(self).entries_spec();
            let ms = m.entries_spec();
            assert forall|a: int, b: int|
                0 <= a < b < s.len() implies #[trigger] key_of(s[a]) != #[trigger] key_of(
                s[b],
            ) by {
                if b < base {
                    assert(key_of(os[a]) != key_of(os[b]));
                } else if a >= base {
                    let la = a - base;
                    let lb = b - base;
                    assert(s[base + la].0 == ms[la].0 + row_off);
                    assert(s[base + lb].0 == ms[lb].0 + row_off);
                    assert(key_of(ms[la]) != key_of(ms[lb]));
                } else {
                    let lb = b - base;
                    assert(s[base + lb].0 == ms[lb].0 + row_off);
                    lemma_entry_key_in_map(os, a);
                    lemma_entry_key_in_map(ms, lb);
                    assert(m.map_spec().dom().contains(key_of(ms[lb])));
                    assert(!old(self).map_spec().dom().contains(
                        (key_of(ms[lb]).0 + row_off, key_of(ms[lb]).1 + col_off),
                    ));
                }
            }
            assert forall|l: int| 0 <= l < s.len() implies {
                &&& (#[trigger] s[l]).0 < self.rows_spec()
                &&& s[l].1 < self.cols_spec()
                &&& s[l].2 != P::zero_spec()
            } by {
                if l < base {
                } else {
                    let ll = l - base;
                    assert(s[base + ll].0 == ms[ll].0 + row_off);
                    assert(ms[ll].0 < m.rows_spec());
                    assert(ms[ll].1 < m.cols_spec());
                }
            }
        }
    }

    /// Concatenate a list of sparse matrices column-wise (horizontally).
    ///
    /// All matrices must have the same number of rows; each one's keys
    /// land shifted right past all of its predecessors' columns.
    pub fn concat_cols(matrices: Vec<SparseMat<P>>) -> (r: SparseMat<P>)
        requires
            matrices@.len() >= 1,
            forall|i: int| 0 <= i < matrices@.len() ==> (#[trigger] matrices@[i]).wf(),
            forall|i: int|
                0 <= i < matrices@.len() ==> (#[trigger] matrices@[i]).rows_spec()
                    == matrices@[0].rows_spec(),
            cols_sum(matrices@) <= usize::MAX,
        ensures
            r.wf(),
            r.rows_spec() == matrices@[0].rows_spec(),
            r.cols_spec() == cols_sum(matrices@),
            r.map_spec() == hcat_maps(matrices@),
    {
        let n = matrices.len();
        let mut total: usize = 0;
        let mut i: usize = 0;
        while i < n
            invariant
                i <= n,
                n == matrices@.len(),
                forall|l: int| 0 <= l < n ==> (#[trigger] matrices@[l]).wf(),
                cols_sum(matrices@) <= usize::MAX,
                total == cols_sum(matrices@.take(i as int)),
            decreases n - i,
        {
            proof {
                lemma_cols_sum_prefix(matrices@, i as int + 1);
                assert(matrices@.take(i as int + 1).drop_last() =~= matrices@.take(i as int));
            }
            total = total + matrices[i].num_cols();
            i = i + 1;
        }
        proof {
            assert(matrices@.take(n as int) =~= matrices@);
        }
        let mut combined = SparseMat::new(matrices[0].num_rows(), total);
        let mut off: usize = 0;
        let mut i: usize = 0;
        while i < n
            invariant
                i <= n,
                n == matrices@.len(),
                n >= 1,
                forall|l: int| 0 <= l < n ==> (#[trigger] matrices@[l]).wf(),
                forall|l: int|
                    0 <= l < n ==> (#[trigger] matrices@[l]).rows_spec()
                        == matrices@[0].rows_spec(),
                total == cols_sum(matrices@),
                total <= usize::MAX,
                off == cols_sum(matrices@.take(i as int)),
                combined.wf(),
                combined.rows_spec() == matrices@[0].rows_spec(),
                combined.cols_spec() == total,
                combined.map_spec() == hcat_maps(matrices@.take(i as int)),
                forall|k: (int, int)| #[trigger]
                    combined.map_spec().dom().contains(k) ==> 0 <= k.1 < off,
            decreases n - i,
        {
            let m = &matrices[i];
            proof {
                lemma_cols_sum_prefix(matrices@, i as int + 1);
                assert(matrices@.take(i as int + 1).drop_last() =~= matrices@.take(i as int));
                lemma_dom_bounds(*m);
            }
            combined.append_shifted(m, 0, off);
            proof {
                assert(combined.map_spec() == hcat_maps(matrices@.take(i as int + 1)));
                assert forall|k: (int, int)| #[trigger]
                    combined.map_spec().dom().contains(k) implies 0 <= k.1 < off
                    + m.cols_spec() by {
                    if shift_map(m.map_spec(), 0, off as int).dom().contains(k) {
                        assert(m.map_spec().dom().contains((k.0, k.1 - off)));
                    }
                }
            }
            off = off + m.num_cols();
            i = i + 1;
        }
        proof {
            assert(matrices@.take(n as int) =~= matrices@);
        }
        combined
    }

    /// Concatenate a list of sparse matrices row-wise (vertically).
    ///
    /// All matrices must have the same number of columns; each one's keys
    /// land shifted down past all of its predecessors' rows.
    pub fn concat_rows(matrices: Vec<SparseMat<P>>) -> (r: SparseMat<P>)
        requires
            matrices@.len() >= 1,
            forall|i: int| 0 <= i < matrices@.len() ==> (#[trigger] matrices@[i]).wf(),
            forall|i: int|
                0 <= i < matrices@.len() ==> (#[trigger] matrices@[i]).cols_spec()
                    == matrices@[0].cols_spec(),
            rows_sum(matrices@) <= usize::MAX,
        ensures
            r.wf(),
            r.rows_spec() == rows_sum(matrices@),
            r.cols_spec() == matrices@[0].cols_spec(),
            r.map_spec() == vcat_maps(matrices@),
    {
        let n = matrices.len();
        let mut total: usize = 0;
        let mut i: usize = 0;
        while i < n
            invariant
                i <= n,
                n == matrices@.len(),
                forall|l: int| 0 <= l < n ==> (#[trigger] matrices@[l]).wf(),
                rows_sum(matrices@) <= usize::MAX,
                total == rows_sum(matrices@.take(i as int)),
            decreases n - i,
        {
            proof {
                lemma_rows_sum_prefix(matrices@, i as int + 1);
                assert(matrices@.take(i as int + 1).drop_last() =~= matrices@.take(i as int));
            }
            total = total + matrices[i].num_rows();
            i = i + 1;
        }
        proof {
            assert(matrices@.take(n as int) =~= matrices@);
        }
        let mut combined = SparseMat::new(total, matrices[0].num_cols());
        let mut off: usize = 0;
        let mut i: usize = 0;
        while i < n
            invariant
                i <= n,
                n == matrices@.len(),
                n >= 1,
                forall|l: int| 0 <= l < n ==> (#[trigger] matrices@[l]).wf(),
                forall|l: int|
                    0 <= l < n ==> (#[trigger] matrices@[l]).cols_spec()
                        == matrices@[0].cols_spec(),
                total == rows_sum(matrices@),
                total <= usize::MAX,
                off == rows_sum(matrices@.take(i as int)),
                combined.wf(),
                combined.rows_spec() == total,
                combined.cols_spec() == matrices@[0].cols_spec(),
                combined.map_spec() == vcat_maps(matrices@.take(i as int)),
                forall|k: (int, int)| #[trigger]
                    combined.map_spec().dom().contains(k) ==> 0 <= k.0 < off,
            decreases n - i,
        {
            let m = &matrices[i];
            proof {
                lemma_rows_sum_prefix(matrices@, i as int + 1);
                assert(matrices@.take(i as int + 1).drop_last() =~= matrices@.take(i as int));
                lemma_dom_bounds(*m);
            }
            combined.append_shifted(m, off, 0);
            proof {
                assert(combined.map_spec() == vcat_maps(matrices@.take(i as int + 1)));
                assert forall|k: (int, int)| #[trigger]
                    combined.map_spec().dom().contains(k) implies 0 <= k.0 < off
                    + m.rows_spec() by {
                    if shift_map(m.map_spec(), off as int, 0).dom().contains(k) {
                        assert(m.map_spec().dom().contains((k.0 - off, k.1)));
                    }
                }
            }
            off = off + m.num_rows();
            i = i + 1;
        }
        proof {
            assert(matrices@.take(n as int) =~= matrices@);
        }
        combined
    }
}

impl<P: ValueType> SparseMat<P> {
    /// Concatenate a grid of sparse matrices: each inner list is laid side
    /// by side, and the resulting rows are stacked vertically.
    ///
    /// Within each row of the grid the matrices must share a row count,
    /// and every row of the grid must add up to the same total width.
    pub fn concat(matrices: Vec<Vec<SparseMat<P>>>) -> (r: SparseMat<P>)
        requires
            matrices@.len() >= 1,
            forall|i: int| 0 <= i < matrices@.len() ==> (#[trigger] matrices@[i])@.len() >= 1,
            forall|i: int, j: int|
                0 <= i < matrices@.len() && 0 <= j < matrices@[i]@.len() ==> (
                #[trigger] matrices@[i]@[j]).wf(),
            forall|i: int, j: int|
                0 <= i < matrices@.len() && 0 <= j < matrices@[i]@.len() ==> (
                #[trigger] matrices@[i]@[j]).rows_spec() == matrices@[i]@[0].rows_spec(),
            forall|i: int|
                0 <= i < matrices@.len() ==> cols_sum(#[trigger] matrices@[i]@) == cols_sum(
                    matrices@[0]@,
                ),
            cols_sum(matrices@[0]@) <= usize::MAX,
            grid_rows_sum(matrices@) <= usize::MAX,
        ensures
            r.wf(),
            r.rows_spec() == grid_rows_sum(matrices@),
            r.cols_spec() == cols_sum(matrices@[0]@),
            r.map_spec() == grid_map(matrices@),
    {
        let ghost mss = matrices@;
        let mut matrices = matrices;
        let mut combined_rows: Vec<SparseMat<P>> = Vec::new();
        let n = matrices.len();
        let mut i: usize = 0;
        while i < n
            invariant
                i <= n,
                n == mss.len(),
                matrices@ =~= mss.skip(i as int),
                combined_rows@.len() == i,
                forall|l: int| 0 <= l < mss.len() ==> (#[trigger] mss[l])@.len() >= 1,
                forall|l: int, j: int|
                    0 <= l < mss.len() && 0 <= j < mss[l]@.len() ==> (
                    #[trigger] mss[l]@[j]).wf(),
                forall|l: int, j: int|
                    0 <= l < mss.len() && 0 <= j < mss[l]@.len() ==> (
                    #[trigger] mss[l]@[j]).rows_spec() == mss[l]@[0].rows_spec(),
                forall|l: int|
                    0 <= l < mss.len() ==> cols_sum(#[trigger] mss[l]@) == cols_sum(mss[0]@),
                cols_sum(mss[0]@) <= usize::MAX,
                forall|l: int|
                    0 <= l < i ==> (#[trigger] combined_rows@[l]).wf(),
                forall|l: int|
                    0 <= l < i ==> (#[trigger] combined_rows@[l]).map_spec() == hcat_maps(
                        mss[l]@,
                    ),
                forall|l: int|
                    0 <= l < i ==> (#[trigger] combined_rows@[l]).rows_spec()
                        == mss[l]@[0].rows_spec(),
                forall|l: int|
                    0 <= l < i ==> (#[trigger] combined_rows@[l]).cols_spec() == cols_sum(
                        mss[0]@,
                    ),
            decreases n - i,
        {
            let row = matrices.remove(0);
            proof {
                assert(row@ == mss[i as int]@);
                assert(matrices@ =~= mss.skip(i as int + 1));
            }
            let a = SparseMat::concat_cols(row);
            combined_rows.push(a);
            i = i + 1;
        }
        proof {
            lemma_vcat_of_hcats(combined_rows@, mss);
        }
        SparseMat::concat_rows(combined_rows)
    }
}

/// The map denoted by an old sequence of triplets followed by a shifted
/// copy of another is the union of the two denoted maps, the second one
/// shifted.
proof fn lemma_entries_map_append_shifted<P>(
    s: Seq<(usize, usize, P)>,
    t: Seq<(usize, usize, P)>,
    u: Seq<(usize, usize, P)>,
    row_off: int,
    col_off: int,
)
    requires
        u.len() == s.len() + t.len(),
        forall|l: int| 0 <= l < s.len() ==> #[trigger] u[l] == s[l],
        forall|l: int|
            0 <= l < t.len() ==> {
                &&& (#[trigger] u[s.len() + l]).0 == t[l].0 + row_off
                &&& u[s.len() + l].1 == t[l].1 + col_off
                &&& u[s.len() + l].2 == t[l].2
            },
    ensures
        entries_map(u) == entries_map(s).union_prefer_right(
            shift_map(entries_map(t), row_off, col_off),
        ),
    decreases t.len(),
{
    if t.len() == 0 {
        assert(u =~= s);
        assert(entries_map(u) =~= entries_map(s).union_prefer_right(
            shift_map(entries_map(t), row_off, col_off),
        ));
    } else {
        lemma_entries_map_append_shifted(s, t.drop_last(), u.drop_last(), row_off, col_off);
        assert(u.last().0 == t.last().0 + row_off);
        assert(u.last().1 == t.last().1 + col_off);
        assert(entries_map(u) =~= entries_map(s).union_prefer_right(
            shift_map(entries_map(t), row_off, col_off),
        ));
    }
}

/// Swapping every triplet's coordinates transposes the denoted map.
proof fn lemma_transpose_entries<P>(s: Seq<(usize, usize, P)>, t: Seq<(usize, usize, P)>)
    requires
        t.len() == s.len(),
        forall|j: int| 0 <= j < s.len() ==> #[trigger] t[j] == (s[j].1, s[j].0, s[j].2),
    ensures
        entries_map(t) == transpose_map(entries_map(s)),
    decreases s.len(),
{
    if s.len() == 0 {
        assert(entries_map(t) =~= transpose_map(entries_map(s)));
    } else {
        lemma_transpose_entries(s.drop_last(), t.drop_last());
        assert(t.last() == (s.last().1, s.last().0, s.last().2));
        assert(entries_map(t) =~= transpose_map(entries_map(s)));
    }
}

/// The mapping with every key's row and column swapped.
pub open spec fn transpose_map<P>(m: Map<(int, int), P>) -> Map<(int, int), P> {
    Map::new(|k: (int, int)| m.dom().contains((k.1, k.0)), |k: (int, int)| m[(k.1, k.0)])
}

/// The mapping with every key moved down by `row_off` and right by
/// `col_off`.
pub open spec fn shift_map<P>(m: Map<(int, int), P>, row_off: int, col_off: int) -> Map<
    (int, int),
    P,
> {
    Map::new(
        |k: (int, int)| m.dom().contains((k.0 - row_off, k.1 - col_off)),
        |k: (int, int)| m[(k.0 - row_off, k.1 - col_off)],
    )
}

/// The total column count of a sequence of matrices laid side by side.
pub open spec fn cols_sum<P: ValueType>(ms: Seq<SparseMat<P>>) -> int
    decreases ms.len(),
{
    if ms.len() == 0 {
        0
    } else {
        cols_sum(ms.drop_last()) + ms.last().cols_spec()
    }
}

/// The total row count of a sequence of matrices stacked vertically.
pub open spec fn rows_sum<P: ValueType>(ms: Seq<SparseMat<P>>) -> int
    decreases ms.len(),
{
    if ms.len() == 0 {
        0
    } else {
        rows_sum(ms.drop_last()) + ms.last().rows_spec()
    }
}

/// The mapping of a sequence of matrices laid side by side, each shifted
/// right past all of its predecessors' columns.
pub open spec fn hcat_maps<P: ValueType>(ms: Seq<SparseMat<P>>) -> Map<(int, int), P>
    decreases ms.len(),
{
    if ms.len() == 0 {
        Map::empty()
    } else {
        hcat_maps(ms.drop_last()).union_prefer_right(
            shift_map(ms.last().map_spec(), 0, cols_sum(ms.drop_last())),
        )
    }
}

/// The mapping of a sequence of matrices stacked vertically, each shifted
/// down past all of its predecessors' rows.
pub open spec fn vcat_maps<P: ValueType>(ms: Seq<SparseMat<P>>) -> Map<(int, int), P>
    decreases ms.len(),
{
    if ms.len() == 0 {
        Map::empty()
    } else {
        vcat_maps(ms.drop_last()).union_prefer_right(
            shift_map(ms.last().map_spec(), rows_sum(ms.drop_last()), 0),
        )
    }
}

/// The total row count of a grid of matrices: each row of the grid is as
/// tall as its first block.
pub open spec fn grid_rows_sum<P: ValueType>(mss: Seq<Vec<SparseMat<P>>>) -> int
    decreases mss.len(),
{
    if mss.len() == 0 {
        0
    } else {
        grid_rows_sum(mss.drop_last()) + mss.last()@[0].rows_spec()
    }
}

/// The mapping of a grid of matrices: every row of the grid laid side by
/// side, and the rows stacked vertically.
pub open spec fn grid_map<P: ValueType>(mss: Seq<Vec<SparseMat<P>>>) -> Map<(int, int), P>
    decreases mss.len(),
{
    if mss.len() == 0 {
        Map::empty()
    } else {
        grid_map(mss.drop_last()).union_prefer_right(
            shift_map(hcat_maps(mss.last()@), grid_rows_sum(mss.drop_last()), 0),
        )
    }
}

/// Stacking the per-row concatenations vertically realizes the grid
/// layout, provided each stacked matrix denotes its row's side-by-side
/// mapping and is as tall as the row's first block.
proof fn lemma_vcat_of_hcats<P: ValueType>(
    rows_mats: Seq<SparseMat<P>>,
    mss: Seq<Vec<SparseMat<P>>>,
)
    requires
        rows_mats.len() == mss.len(),
        forall|i: int|
            0 <= i < mss.len() ==> (#[trigger] rows_mats[i]).map_spec() == hcat_maps(mss[i]@),
        forall|i: int|
            0 <= i < mss.len() ==> (#[trigger] rows_mats[i]).rows_spec() == mss[i]@[0].rows_spec(),
    ensures
        vcat_maps(rows_mats) == grid_map(mss),
        rows_sum(rows_mats) == grid_rows_sum(mss),
    decreases mss.len(),
{
    if mss.len() > 0 {
        lemma_vcat_of_hcats(rows_mats.drop_last(), mss.drop_last());
        assert(rows_mats.last().map_spec() == hcat_maps(mss.last()@));
        assert(rows_mats.last().rows_spec() == mss.last()@[0].rows_spec());
        assert(vcat_maps(rows_mats) =~= grid_map(mss));
    }
}

/// A prefix of the side-by-side layout is never wider than the whole.
proof fn lemma_cols_sum_prefix<P: ValueType>(ms: Seq<SparseMat<P>>, i: int)
    requires
        0 <= i <= ms.len(),
    ensures
        cols_sum(ms.take(i)) <= cols_sum(ms),
        cols_sum(ms.take(i)) >= 0,
    decreases ms.len() - i,
{
    if i == ms.len() {
        assert(ms.take(i) =~= ms);
        lemma_cols_sum_nonneg(ms);
    } else {
        lemma_cols_sum_prefix(ms, i + 1);
        lemma_cols_sum_nonneg(ms.take(i));
        assert(ms.take(i + 1).drop_last() =~= ms.take(i));
        assert(cols_sum(ms.take(i + 1)) == cols_sum(ms.take(i)) + ms[i].cols_spec());
    }
}

proof fn lemma_cols_sum_nonneg<P: ValueType>(ms: Seq<SparseMat<P>>)
    ensures
        cols_sum(ms) >= 0,
    decreases ms.len(),
{
    if ms.len() > 0 {
        lemma_cols_sum_nonneg(ms.drop_last());
    }
}

/// A prefix of the vertical layout is never taller than the whole.
proof fn lemma_rows_sum_prefix<P: ValueType>(ms: Seq<SparseMat<P>>, i: int)
    requires
        0 <= i <= ms.len(),
    ensures
        rows_sum(ms.take(i)) <= rows_sum(ms),
        rows_sum(ms.take(i)) >= 0,
    decreases ms.len() - i,
{
    if i == ms.len() {
        assert(ms.take(i) =~= ms);
        lemma_rows_sum_nonneg(ms);
    } else {
        lemma_rows_sum_prefix(ms, i + 1);
        lemma_rows_sum_nonneg(ms.take(i));
        assert(ms.take(i + 1).drop_last() =~= ms.take(i));
        assert(rows_sum(ms.take(i + 1)) == rows_sum(ms.take(i)) + ms[i].rows_spec());
    }
}

proof fn lemma_rows_sum_nonneg<P: ValueType>(ms: Seq<SparseMat<P>>)
    ensures
        rows_sum(ms) >= 0,
    decreases ms.len(),
{
    if ms.len() > 0 {
        lemma_rows_sum_nonneg(ms.drop_last());
    }
}

/// In a well-formed matrix, the denoted map has finitely many keys.
pub proof fn lemma_dom_finite<P: ValueType>(m: SparseMat<P>)
    requires
        m.wf(),
    ensures
        m.map_spec().dom().finite(),
{
    lemma_map_len(m.entries_spec());
}

/// In a well-formed matrix, every stored key lies inside the bounding box
/// and no stored value is the additive identity.
pub proof fn lemma_dom_bounds<P: ValueType>(m: SparseMat<P>)
    requires
        m.wf(),
    ensures
        forall|k: (int, int)| #[trigger]
            m.map_spec().dom().contains(k) ==> 0 <= k.0 < m.rows_spec() && 0 <= k.1
                < m.cols_spec() && m.map_spec()[k] != P::zero_spec(),
{
    assert forall|k: (int, int)| #[trigger]
        m.map_spec().dom().contains(k) implies 0 <= k.0 < m.rows_spec() && 0 <= k.1
        < m.cols_spec() && m.map_spec()[k] != P::zero_spec() by {
        lemma_map_key_from_entry(m.entries_spec(), k);
        let i = choose|i: int|
            0 <= i < m.entries_spec().len() && #[trigger] key_of(m.entries_spec()[i]) == k;
        lemma_map_value(m.entries_spec(), i);
    }
}

/// Inserting the additive identity at a key leaves the key absent from the
/// backing map, and a query at that key reads the additive identity.
pub proof fn lemma_zero_insert<P: ValueType>(
    before: SparseMat<P>,
    after: SparseMat<P>,
    row: int,
    col: int,
)
    requires
        after.map_spec() == before.map_spec().remove((row, col)),
    ensures
        after.get_spec(row, col) == P::zero_spec(),
        !after.map_spec().dom().contains((row, col)),
{
}

} // verus!
