pub mod grid;
pub mod kernels;
pub mod matrix_ops;
pub mod row;
pub mod simple_vec;
pub mod sparse_matrix;
pub mod utils;
pub mod vector_ops;

pub use crate::backend::simple_vec::SimpleVec;
pub use crate::backend::sparse_matrix::SparseMatrix;
