//! The type vocabulary of the tabular sparse-matrix interchange format.
//!
//! The interchange format's header carries a three-character code naming
//! the kind of matrix a file holds: value type, mathematical property, and
//! structure.  Reading and writing the files themselves is I/O and lives
//! outside this crate; the decoding of the code characters is pure and is
//! specified here exactly.

use vstd::prelude::*;
use vstd::string::StrSliceExecFns;

verus! {

/// Whether `c` is a decimal digit.
pub open spec fn is_digit_char(c: char) -> bool {
    48 <= c as int <= 57
}

/// The numeric value of a sequence of decimal digits.
pub open spec fn digits_value(s: Seq<char>) -> int
    decreases s.len(),
{
    if s.len() == 0 {
        0
    } else {
        digits_value(s.drop_last()) * 10 + (s.last() as int - 48)
    }
}

/// The index of the first character at or after `i` that is not a space.
pub open spec fn skip_spaces(s: Seq<char>, i: int) -> int
    decreases s.len() - i,
{
    if i < 0 || i >= s.len() {
        i
    } else if s[i] == ' ' {
        skip_spaces(s, i + 1)
    } else {
        i
    }
}

/// The end of the field once trailing spaces before `j` are dropped.
pub open spec fn end_trim(s: Seq<char>, j: int) -> int
    decreases j,
{
    if j <= 0 {
        0
    } else if s[j - 1] == ' ' {
        end_trim(s, j - 1)
    } else {
        j
    }
}

/// A well-formed integer field: after stripping leading and trailing
/// spaces something remains, and it is an optional minus sign followed by
/// at least one decimal digit.
pub open spec fn valid_int_field(s: Seq<char>) -> bool {
    let a = skip_spaces(s, 0);
    let b = end_trim(s, s.len() as int);
    &&& a < b
    &&& (s[a] == '-' ==> a + 1 < b)
    &&& forall|i: int|
        (if s[a] == '-' {
            a + 1
        } else {
            a
        }) <= i < b ==> is_digit_char(#[trigger] s[i])
}

/// The integer a well-formed field denotes.
pub open spec fn int_field_value(s: Seq<char>) -> int {
    let a = skip_spaces(s, 0);
    let b = end_trim(s, s.len() as int);
    if s[a] == '-' {
        -digits_value(s.subrange(a + 1, b))
    } else {
        digits_value(s.subrange(a, b))
    }
}

/// Skipping spaces never moves backwards.
proof fn lemma_skip_spaces_ge(s: Seq<char>, i: int)
    requires
        0 <= i,
    ensures
        skip_spaces(s, i) >= i,
    decreases s.len() - i,
{
    if i < s.len() && s[i] == ' ' {
        lemma_skip_spaces_ge(s, i + 1);
    }
}

/// Trimming trailing spaces never moves forwards.
proof fn lemma_end_trim_le(s: Seq<char>, j: int)
    requires
        j >= 0,
    ensures
        0 <= end_trim(s, j) <= j,
    decreases j,
{
    if j > 0 && s[j - 1] == ' ' {
        lemma_end_trim_le(s, j - 1);
    }
}

/// A digit string's value is non-negative.
proof fn lemma_digits_value_nonneg(s: Seq<char>)
    requires
        forall|k: int| 0 <= k < s.len() ==> is_digit_char(#[trigger] s[k]),
    ensures
        digits_value(s) >= 0,
    decreases s.len(),
{
    if s.len() > 0 {
        lemma_digits_value_nonneg(s.drop_last());
    }
}

/// A digit string's value never shrinks as digits are appended.
proof fn lemma_digits_prefix_le(s: Seq<char>, m: int)
    requires
        forall|k: int| 0 <= k < s.len() ==> is_digit_char(#[trigger] s[k]),
        0 <= m <= s.len(),
    ensures
        0 <= digits_value(s.take(m)) <= digits_value(s),
    decreases s.len() - m,
{
    if m == s.len() {
        assert(s.take(m) =~= s);
        lemma_digits_value_nonneg(s);
    } else {
        lemma_digits_prefix_le(s, m + 1);
        assert(s.take(m + 1).drop_last() =~= s.take(m));
        assert(digits_value(s.take(m + 1)) == digits_value(s.take(m)) * 10 + (s[m] as int
            - 48));
        lemma_digits_value_nonneg(s.take(m));
    }
}

/// Parse the integer in the first `n` characters of `buf`, written as
/// spaces, an optional minus sign, decimal digits, and more spaces.
#[verifier::loop_isolation(false)]
fn parse_trimmed(buf: &str, n: usize) -> (r: i32)
    requires
        n <= buf@.len(),
        valid_int_field(buf@.take(n as int)),
        i32::MIN <= int_field_value(buf@.take(n as int)) <= i32::MAX,
    ensures
        r == int_field_value(buf@.take(n as int)),
{
    let ghost field = buf@.take(n as int);
    let ghost sa = skip_spaces(field, 0);
    let ghost sb = end_trim(field, field.len() as int);
    let mut a: usize = 0;
    while a < n && buf.get_char(a) == ' '
        invariant
            a <= n,
            skip_spaces(field, 0) == skip_spaces(field, a as int),
        decreases n - a,
    {
        a = a + 1;
    }
    proof {
        lemma_end_trim_le(field, field.len() as int);
        assert(sa == a as int);
        assert(sa < sb <= n);
    }
    let mut b: usize = n;
    while b > a && buf.get_char(b - 1) == ' '
        invariant
            a <= b <= n,
            end_trim(field, n as int) == end_trim(field, b as int),
        decreases b,
    {
        b = b - 1;
    }
    proof {
        lemma_end_trim_le(field, b as int);
        assert(sb == b as int);
    }
    let negative = buf.get_char(a) == '-';
    let start = if negative {
        a + 1
    } else {
        a
    };
    let ghost digits = field.subrange(start as int, b as int);
    proof {
        assert(forall|k: int| 0 <= k < digits.len() ==> is_digit_char(#[trigger] digits[k]));
        lemma_digits_prefix_le(digits, digits.len() as int);
        if negative {
            assert(digits_value(digits) <= 0x8000_0000);
        } else {
            assert(digits_value(digits) <= 0x7fff_ffff);
        }
    }
    let mut acc: i64 = 0;
    let mut i: usize = start;
    while i < b
        invariant
            start <= i <= b,
            acc == digits_value(digits.take(i - start)),
            0 <= acc <= digits_value(digits),
        decreases b - i,
    {
        let c = buf.get_char(i);
        proof {
            assert(digits[i - start] == field[i as int]);
            assert(is_digit_char(field[i as int]));
            assert(digits.take(i + 1 - start).drop_last() =~= digits.take(i - start));
            lemma_digits_prefix_le(digits, i + 1 - start);
        }
        let d = (c as u32) - 48;
        acc = acc * 10 + (d as i64);
        i = i + 1;
    }
    proof {
        assert(digits.take(b - start) =~= digits);
    }
    if negative {
        (-acc) as i32
    } else {
        acc as i32
    }
}

/// Read the integer in the first fourteen characters of `buf`: a
/// fixed-width header field holding spaces, an optional minus sign, and
/// decimal digits.
pub fn parse_int(buf: &str) -> (r: i32)
    requires
        buf@.len() >= 14,
        valid_int_field(buf@.take(14)),
        i32::MIN <= int_field_value(buf@.take(14)) <= i32::MAX,
    ensures
        r == int_field_value(buf@.take(14)),
{
    parse_trimmed(buf, 14)
}

/// Read a one-based offset field and convert it to a zero-based index by
/// subtracting one.
pub fn parse_offset(buf: &str) -> (r: i32)
    requires
        valid_int_field(buf@),
        i32::MIN < int_field_value(buf@) <= i32::MAX,
    ensures
        r == int_field_value(buf@) - 1,
{
    let n = buf.unicode_len();
    proof {
        assert(buf@.take(n as int) =~= buf@);
    }
    parse_trimmed(buf, n) - 1
}

/// The value type a matrix file declares.
#[derive(Debug, Clone, Copy, PartialEq, Eq, Structural)]
pub enum MatrixValueType {
    Real,
    Complex,
    Pattern,
}

impl MatrixValueType {
    /// The value type a code character denotes.
    pub open spec fn of_char_spec(ch: char) -> MatrixValueType {
        if ch == 'R' {
            MatrixValueType::Real
        } else if ch == 'C' {
            MatrixValueType::Complex
        } else {
            MatrixValueType::Pattern
        }
    }

    /// Decode the value-type character of the header's type code.
    pub fn from_char(ch: char) -> (r: MatrixValueType)
        requires
            ch == 'R' || ch == 'C' || ch == 'P',
        ensures
            r == MatrixValueType::of_char_spec(ch),
    {
        if ch == 'R' {
            MatrixValueType::Real
        } else if ch == 'C' {
            MatrixValueType::Complex
        } else {
            MatrixValueType::Pattern
        }
    }
}

/// The mathematical property a matrix file declares.
#[derive(Debug, Clone, Copy, PartialEq, Eq, Structural)]
pub enum MatrixProperty {
    Unsymmetric,
    Symmetric,
    Hermitian,
    SkewSymmetric,
    Rectangular,
}

impl MatrixProperty {
    /// The property a code character denotes.
    pub open spec fn of_char_spec(ch: char) -> MatrixProperty {
        if ch == 'U' {
            MatrixProperty::Unsymmetric
        } else if ch == 'S' {
            MatrixProperty::Symmetric
        } else if ch == 'H' {
            MatrixProperty::Hermitian
        } else if ch == 'Z' {
            MatrixProperty::SkewSymmetric
        } else {
            MatrixProperty::Rectangular
        }
    }

    /// Decode the property character of the header's type code.
    pub fn from_char(ch: char) -> (r: MatrixProperty)
        requires
            ch == 'U' || ch == 'S' || ch == 'H' || ch == 'Z' || ch == 'R',
        ensures
            r == MatrixProperty::of_char_spec(ch),
    {
        if ch == 'U' {
            MatrixProperty::Unsymmetric
        } else if ch == 'S' {
            MatrixProperty::Symmetric
        } else if ch == 'H' {
            MatrixProperty::Hermitian
        } else if ch == 'Z' {
            MatrixProperty::SkewSymmetric
        } else {
            MatrixProperty::Rectangular
        }
    }
}

/// The structure a matrix file declares.
#[derive(Debug, Clone, Copy, PartialEq, Eq, Structural)]
pub enum MatrixStructure {
    Assembled,
    FiniteElement,
}

impl MatrixStructure {
    /// The structure a code character denotes.
    pub open spec fn of_char_spec(ch: char) -> MatrixStructure {
        if ch == 'A' {
            MatrixStructure::Assembled
        } else {
            MatrixStructure::FiniteElement
        }
    }

    /// Decode the structure character of the header's type code.
    pub fn from_char(ch: char) -> (r: MatrixStructure)
        requires
            ch == 'A' || ch == 'E',
        ensures
            r == MatrixStructure::of_char_spec(ch),
    {
        if ch == 'A' {
            MatrixStructure::Assembled
        } else {
            MatrixStructure::FiniteElement
        }
    }
}

/// The matrix type a file declares, as a decoded three-character code.
#[derive(Debug, Clone, Copy, PartialEq, Eq, Structural)]
pub struct MatrixType {
    pub value_type: MatrixValueType,
    pub property: MatrixProperty,
    pub structure: MatrixStructure,
}

impl MatrixType {
    /// Decode a three-character type code: value type, property,
    /// structure, in that order.
    pub fn from_string(string: String) -> (r: MatrixType)
        requires
            string@.len() == 3,
            string@[0] == 'R' || string@[0] == 'C' || string@[0] == 'P',
            string@[1] == 'U' || string@[1] == 'S' || string@[1] == 'H' || string@[1] == 'Z'
                || string@[1] == 'R',
            string@[2] == 'A' || string@[2] == 'E',
        ensures
            r.value_type == MatrixValueType::of_char_spec(string@[0]),
            r.property == MatrixProperty::of_char_spec(string@[1]),
            r.structure == MatrixStructure::of_char_spec(string@[2]),
    {
        let s = string.as_str();
        let value_type = MatrixValueType::from_char(s.get_char(0));
        let property = MatrixProperty::from_char(s.get_char(1));
        let structure = MatrixStructure::from_char(s.get_char(2));
        MatrixType { value_type, property, structure }
    }
}

} // verus!
