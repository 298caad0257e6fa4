//! The operations: every one writes into its receiver, under an optional
//! mask and an optional accumulator, as a descriptor steers it.
//!
//! An operation first computes a result `T` from its operands. Where the
//! mask admits a position (its report negated if the descriptor says so;
//! every position where no mask is given), the output takes `T` there, or
//! the accumulation of its old value and `T` where an accumulator is given.
//! Elsewhere the output keeps its old value, or loses it if the descriptor
//! asks for replacement.
pub mod mat_ops;
pub mod meaning;
pub mod vec_ops;

pub use crate::operations::mat_ops::MatOps;
pub use crate::operations::meaning::{
    accumulable, appliable, appliable_first, appliable_second, applied, applied_first,
    applied_second, as_col, as_row, assigned, assignment, chainable, chainable_all, chained,
    col_zero, column_of, combinable, complemented, dot, dot_defined, extracted, filled, first_cols,
    first_operand, first_rows, foldable, foldable_all, folded, folded_all, intersect_with,
    kronecker, lemma_plain_product, lemma_transposed_twice, lemma_unmasked, lemma_written_plainly,
    listed_row, listed_values, mat_admitted, mat_assigned, mat_outcome, mat_writable, mat_written,
    misindexed, mismatch, multipliable, named_once, named_within, operand, operand_cols,
    operand_rows, pairable, product_map, reduced, region, repeated, replaces, row_of, row_values,
    row_zero, rows_chained, rows_folded, same_shape, scattered, second_cols, second_operand,
    second_rows, sent, shaped_as_first, shaped_as_second, transposed, transposes_first,
    transposes_second, union_with, vec_admitted, vec_assigned, vec_assignment, vec_extracted,
    vec_filled, vec_kronecker, vec_outcome, vec_region, vec_scattered, vec_sent, vec_writable,
    vec_written, written,
};
pub use crate::operations::vec_ops::VecOps;
