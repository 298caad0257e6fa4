//! The kernels that the operations are made of.
pub mod apply;
pub mod ewise;
pub mod kron;
pub mod load;
pub mod product;
pub mod reduce;
pub mod select;
pub mod write;

pub use crate::backend::kernels::write::{deref_op, lemma_above};
pub(crate) use crate::backend::kernels::write::{mat_flags, region_flags, vec_flags, write_row};
pub use crate::backend::kernels::load::{
    column_row, copy_row, first_column, first_row, load_row, load_rows, member_set, single_column,
    single_row, target,
};
pub use crate::backend::kernels::product::{
    lemma_dot_defined_below, lemma_dot_skip, multiply_rows, reach,
};
pub use crate::backend::kernels::ewise::{
    ewise_and_vec, intersect_rows, lemma_take_within, union_rows,
};
pub use crate::backend::kernels::apply::{
    apply_1st_rows, apply_1st_vec, apply_2nd_rows, apply_2nd_vec, apply_rows, apply_vec,
    lemma_same_keys,
};
pub use crate::backend::kernels::select::{
    extract_rows, extract_vec, fill_rows, fill_vec, lemma_distinct, scatter_rows, scatter_vec,
};
pub use crate::backend::kernels::kron::{
    block_row, kron_of, kron_rows, kron_vec, lemma_join, lemma_lex, lemma_split, reach_col,
};
pub use crate::backend::kernels::reduce::{
    chain_row, chain_rows, fold_row, fold_rows, lemma_chainable_below, lemma_foldable_below,
    lemma_listed_row,
};
