//! A library for building sparse linear systems and driving a direct
//! sparse-LU solver.
//!
//! A matrix is assembled incrementally as (row, column, value) triplets,
//! converted into the compressed-column form that a direct solver consumes,
//! paired with a dense right-hand side, and handed to the solver together
//! with optional permutation hints.  The solver's integer status code is
//! classified into a typed outcome.  The numeric factorization itself is an
//! external collaborator; this crate owns the data model, the conversion,
//! the validation, and the outcome classification.

pub mod comp_col;
pub mod dense;
pub mod error;
pub mod harwell_boeing;
pub mod options;
pub mod perm;
pub mod simple_driver;
pub mod sparse_matrix;
pub mod value_type;

pub use error::Error;
