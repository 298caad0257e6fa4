//! A generalized sparse linear-algebra engine: operators, monoids and
//! semirings; sparse vectors and matrices; masks over their occupancy; and
//! the operations that combine them under a mask, an accumulator and a
//! descriptor. Every operation carries a contract that states what it
//! stores, as a map from position to value.
use vstd::prelude::*;

pub mod algebra;
pub mod backend;
pub mod complement_mask;
pub mod descriptor;
pub mod error;
pub mod indices;
pub mod mask;
pub mod matrix;
pub mod operations;
pub mod structure_mask;
pub mod triplet;
pub mod types;
pub mod vector;

pub use crate::error::{ApiError, ExecutionError, GblasError};

verus! {

/// What every fallible operation returns.
pub type GblasResult<T> = Result<T, GblasError>;

/// The major version of the interface that the library follows.
pub const GRB_VERSION: usize = 1;

/// The minor version of the interface that the library follows.
pub const GRB_SUB_VERSION: usize = 3;

/// The version of the interface that the library follows, major and minor.
pub fn version() -> (s: String)
    ensures
        s@ == "1.3"@,
{
    "1.3".to_string()
}

} // verus!
