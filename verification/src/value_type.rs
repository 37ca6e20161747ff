//! The closed capability set a matrix element type must provide.
//!
//! Every matrix in this crate is generic over an element type implementing
//! [`ValueType`]: the additive identity, an identity test, and addition and
//! multiplication, each pinned to a per-implementation specification
//! function so that contracts can speak about the results.  The crate
//! itself provides an instance for `i64`; callers may supply instances for
//! other numeric types, such as single or double precision reals and
//! complex numbers.

use vstd::prelude::*;

verus! {

/// Capability set for matrix elements.
///
/// The `*_spec` functions are the mathematical meaning of the operations;
/// each executable operation promises to agree with its specification.
pub trait ValueType: Sized + Copy {
    /// The additive identity, as a specification-level value.
    spec fn zero_spec() -> Self;

    /// The meaning of addition for this type.
    spec fn plus_spec(self, other: Self) -> Self;

    /// The meaning of multiplication for this type.
    spec fn times_spec(self, other: Self) -> Self;

    /// Produce the additive identity.
    fn zero() -> (r: Self)
        ensures
            r == Self::zero_spec(),
    ;

    /// Decide whether this value is the additive identity.
    fn is_zero(&self) -> (r: bool)
        ensures
            r == (*self == Self::zero_spec()),
    ;

    /// Add two values.
    fn plus(self, other: Self) -> (r: Self)
        ensures
            r == self.plus_spec(other),
    ;

    /// Multiply two values.
    fn times(self, other: Self) -> (r: Self)
        ensures
            r == self.times_spec(other),
    ;
}

/// Integer elements, with wrapping arithmetic so that the operations are
/// total.
impl ValueType for i64 {
    open spec fn zero_spec() -> i64 {
        0
    }

    open spec fn plus_spec(self, other: i64) -> i64 {
        vstd::wrapping::i64_specs::wrapping_add(self, other)
    }

    open spec fn times_spec(self, other: i64) -> i64 {
        vstd::wrapping::i64_specs::wrapping_mul(self, other)
    }

    fn zero() -> (r: i64) {
        0
    }

    fn is_zero(&self) -> (r: bool) {
        *self == 0
    }

    fn plus(self, other: i64) -> (r: i64) {
        self.wrapping_add(other)
    }

    fn times(self, other: i64) -> (r: i64) {
        self.wrapping_mul(other)
    }
}

} // verus!
