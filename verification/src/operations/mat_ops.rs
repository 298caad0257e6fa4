//! The operations whose output is a matrix.
use vstd::prelude::*;
use crate::algebra::{
    BinaryOperator, Monoid, MonoidOperator, Semiring, SemiringAddition, SemiringMultiplication,
    UnaryOperator,
};
use crate::descriptor::Descriptor;
use crate::error::GblasError;
use crate::indices::Indices;
use crate::mask::{MatMask, VecMask};
use crate::matrix::{Matrix, stored_values};
use crate::operations::meaning::{
    accumulable, appliable, appliable_first, appliable_second, applied, applied_first,
    applied_second, assignment, chainable_all, combinable, extracted, filled, first_cols,
    first_operand, first_rows, foldable, foldable_all, folded, folded_all, intersect_with,
    kronecker, mat_admitted, mat_assigned, mat_outcome, mat_writable, mat_written, misindexed,
    mismatch, multipliable, operand, pairable, product_map, reduced, region, replaces, same_shape,
    scattered, second_cols, second_operand, second_rows, shaped_as_first, shaped_as_second,
    transposed, transposes_first, union_with, written,
};
use crate::types::{clones_exactly, IndexType, NoValue};
use crate::vector::Vector;

verus! {

/// The operations whose output is a matrix.
pub trait MatOps: Matrix where Self::Scalar: Clone {
    /// Generalized matrix product: writes the product of `a` and `b` over
    /// the semiring `op` into the matrix, under the mask, the accumulator
    /// and the descriptor. Either operand is read transposed if the
    /// descriptor says so. The operands conform where the first has the
    /// rows of the output, the second its columns, and the columns of the
    /// first are the rows of the second.
    fn mxm<
        Mk: MatMask<Self>,
        Acc: BinaryOperator<Self::Scalar, Output = Self::Scalar>,
        S: Semiring<Self::Scalar, Output = Self::Scalar>,
        A: Matrix<Scalar = Self::Scalar>,
        B: Matrix<Scalar = Self::Scalar>,
    >(
        &mut self,
        mask: Option<Mk>,
        accum: Option<Acc>,
        op: S,
        a: &A,
        b: &B,
        desc: Option<Descriptor>,
    ) -> (r: Result<NoValue, GblasError>)
        requires
            old(self).wf(),
            a.wf(),
            b.wf(),
            clones_exactly::<Self::Scalar>(),
            mask matches Some(m) ==> m.readable(),
            multipliable(first_operand(a, desc), second_operand(b, desc), op, first_cols(a, desc)),
            mat_writable(
                *old(self),
                product_map(
                    first_operand(a, desc),
                    second_operand(b, desc),
                    op,
                    first_cols(a, desc),
                ),
                mask,
                accum,
                desc,
            ),
        ensures
            !(first_rows(a, desc) == old(self).row_dim()
                && second_cols(b, desc) == old(self).col_dim()
                && first_cols(a, desc) == second_rows(b, desc))
                ==> mismatch(*old(self), *final(self), r),
            first_rows(a, desc) == old(self).row_dim()
                && second_cols(b, desc) == old(self).col_dim()
                && first_cols(a, desc) == second_rows(b, desc) ==> mat_outcome(
                *old(self),
                *final(self),
                r,
                mat_written(
                    *old(self),
                    product_map(
                        first_operand(a, desc),
                        second_operand(b, desc),
                        op,
                        first_cols(a, desc),
                    ),
                    mask,
                    accum,
                    desc,
                ),
            ),
    ;

    /// Element-wise product: writes, where both operands store a value, `op` of
    /// the two, that of `a` first.
    fn e_wise_mult_binary_op<
        Mk: MatMask<Self>,
        Acc: BinaryOperator<Self::Scalar, Output = Self::Scalar>,
        Op: BinaryOperator<Self::Scalar, Output = Self::Scalar>,
        A: Matrix<Scalar = Self::Scalar>,
        B: Matrix<Scalar = Self::Scalar>,
    >(
        &mut self,
        mask: Option<Mk>,
        accum: Option<Acc>,
        op: Op,
        a: &A,
        b: &B,
        desc: Option<Descriptor>,
    ) -> (r: Result<NoValue, GblasError>)
        requires
            old(self).wf(),
            a.wf(),
            b.wf(),
            clones_exactly::<Self::Scalar>(),
            mask matches Some(m) ==> m.readable(),
            combinable(first_operand(a, desc), second_operand(b, desc), op),
            mat_writable(
                *old(self),
                intersect_with(first_operand(a, desc), second_operand(b, desc), op),
                mask,
                accum,
                desc,
            ),
        ensures
            !(shaped_as_first(old(self), a, desc) && shaped_as_second(old(self), b, desc))
                ==> mismatch(*old(self), *final(self), r),
            shaped_as_first(old(self), a, desc) && shaped_as_second(old(self), b, desc)
                ==> mat_outcome(
                    *old(self),
                    *final(self),
                    r,
                    mat_written(
                        *old(self),
                        intersect_with(first_operand(a, desc), second_operand(b, desc), op),
                        mask,
                        accum,
                        desc,
                    ),
                ),
    ;

    /// Element-wise product by the operator of a monoid.
    fn e_wise_mult_monoid<
        Mk: MatMask<Self>,
        Acc: BinaryOperator<Self::Scalar, Output = Self::Scalar>,
        Mo: Monoid<Self::Scalar>,
        A: Matrix<Scalar = Self::Scalar>,
        B: Matrix<Scalar = Self::Scalar>,
    >(
        &mut self,
        mask: Option<Mk>,
        accum: Option<Acc>,
        op: Mo,
        a: &A,
        b: &B,
        desc: Option<Descriptor>,
    ) -> (r: Result<NoValue, GblasError>)
        requires
            old(self).wf(),
            a.wf(),
            b.wf(),
            clones_exactly::<Self::Scalar>(),
            mask matches Some(m) ==> m.readable(),
            combinable(first_operand(a, desc), second_operand(b, desc), MonoidOperator(op)),
            mat_writable(
                *old(self),
                intersect_with(first_operand(a, desc), second_operand(b, desc), MonoidOperator(op)),
                mask,
                accum,
                desc,
            ),
        ensures
            !(shaped_as_first(old(self), a, desc) && shaped_as_second(old(self), b, desc))
                ==> mismatch(*old(self), *final(self), r),
            shaped_as_first(old(self), a, desc) && shaped_as_second(old(self), b, desc)
                ==> mat_outcome(
                    *old(self),
                    *final(self),
                    r,
                    mat_written(
                        *old(self),
                        intersect_with(
                            first_operand(a, desc),
                            second_operand(b, desc),
                            MonoidOperator(op),
                        ),
                        mask,
                        accum,
                        desc,
                    ),
                ),
    ;

    /// Element-wise product by the multiplication of a semiring.
    fn e_wise_mult_semiring<
        Mk: MatMask<Self>,
        Acc: BinaryOperator<Self::Scalar, Output = Self::Scalar>,
        S: Semiring<Self::Scalar, Output = Self::Scalar>,
        A: Matrix<Scalar = Self::Scalar>,
        B: Matrix<Scalar = Self::Scalar>,
    >(
        &mut self,
        mask: Option<Mk>,
        accum: Option<Acc>,
        op: S,
        a: &A,
        b: &B,
        desc: Option<Descriptor>,
    ) -> (r: Result<NoValue, GblasError>)
        requires
            old(self).wf(),
            a.wf(),
            b.wf(),
            clones_exactly::<Self::Scalar>(),
            mask matches Some(m) ==> m.readable(),
            combinable(first_operand(a, desc), second_operand(b, desc), SemiringMultiplication(op)),
            mat_writable(
                *old(self),
                intersect_with(
                    first_operand(a, desc),
                    second_operand(b, desc),
                    SemiringMultiplication(op),
                ),
                mask,
                accum,
                desc,
            ),
        ensures
            !(shaped_as_first(old(self), a, desc) && shaped_as_second(old(self), b, desc))
                ==> mismatch(*old(self), *final(self), r),
            shaped_as_first(old(self), a, desc) && shaped_as_second(old(self), b, desc)
                ==> mat_outcome(
                    *old(self),
                    *final(self),
                    r,
                    mat_written(
                        *old(self),
                        intersect_with(
                            first_operand(a, desc),
                            second_operand(b, desc),
                            SemiringMultiplication(op),
                        ),
                        mask,
                        accum,
                        desc,
                    ),
                ),
    ;

    /// Element-wise sum: writes what either operand stores, and `op` of the
    /// two, that of `a` first, where both store a value.
    fn e_wise_add_binary_op<
        Mk: MatMask<Self>,
        Acc: BinaryOperator<Self::Scalar, Output = Self::Scalar>,
        Op: BinaryOperator<Self::Scalar, Output = Self::Scalar>,
        A: Matrix<Scalar = Self::Scalar>,
        B: Matrix<Scalar = Self::Scalar>,
    >(
        &mut self,
        mask: Option<Mk>,
        accum: Option<Acc>,
        op: Op,
        a: &A,
        b: &B,
        desc: Option<Descriptor>,
    ) -> (r: Result<NoValue, GblasError>)
        requires
            old(self).wf(),
            a.wf(),
            b.wf(),
            clones_exactly::<Self::Scalar>(),
            mask matches Some(m) ==> m.readable(),
            combinable(first_operand(a, desc), second_operand(b, desc), op),
            mat_writable(
                *old(self),
                union_with(first_operand(a, desc), second_operand(b, desc), op),
                mask,
                accum,
                desc,
            ),
        ensures
            !(shaped_as_first(old(self), a, desc) && shaped_as_second(old(self), b, desc))
                ==> mismatch(*old(self), *final(self), r),
            shaped_as_first(old(self), a, desc) && shaped_as_second(old(self), b, desc)
                ==> mat_outcome(
                    *old(self),
                    *final(self),
                    r,
                    mat_written(
                        *old(self),
                        union_with(first_operand(a, desc), second_operand(b, desc), op),
                        mask,
                        accum,
                        desc,
                    ),
                ),
    ;

    /// Element-wise sum by the operator of a monoid.
    fn e_wise_add_monoid<
        Mk: MatMask<Self>,
        Acc: BinaryOperator<Self::Scalar, Output = Self::Scalar>,
        Mo: Monoid<Self::Scalar>,
        A: Matrix<Scalar = Self::Scalar>,
        B: Matrix<Scalar = Self::Scalar>,
    >(
        &mut self,
        mask: Option<Mk>,
        accum: Option<Acc>,
        op: Mo,
        a: &A,
        b: &B,
        desc: Option<Descriptor>,
    ) -> (r: Result<NoValue, GblasError>)
        requires
            old(self).wf(),
            a.wf(),
            b.wf(),
            clones_exactly::<Self::Scalar>(),
            mask matches Some(m) ==> m.readable(),
            combinable(first_operand(a, desc), second_operand(b, desc), MonoidOperator(op)),
            mat_writable(
                *old(self),
                union_with(first_operand(a, desc), second_operand(b, desc), MonoidOperator(op)),
                mask,
                accum,
                desc,
            ),
        ensures
            !(shaped_as_first(old(self), a, desc) && shaped_as_second(old(self), b, desc))
                ==> mismatch(*old(self), *final(self), r),
            shaped_as_first(old(self), a, desc) && shaped_as_second(old(self), b, desc)
                ==> mat_outcome(
                    *old(self),
                    *final(self),
                    r,
                    mat_written(
                        *old(self),
                        union_with(
                            first_operand(a, desc),
                            second_operand(b, desc),
                            MonoidOperator(op),
                        ),
                        mask,
                        accum,
                        desc,
                    ),
                ),
    ;

    /// Element-wise sum by the addition of a semiring.
    fn e_wise_add_semiring<
        Mk: MatMask<Self>,
        Acc: BinaryOperator<Self::Scalar, Output = Self::Scalar>,
        S: Semiring<Self::Scalar, Output = Self::Scalar>,
        A: Matrix<Scalar = Self::Scalar>,
        B: Matrix<Scalar = Self::Scalar>,
    >(
        &mut self,
        mask: Option<Mk>,
        accum: Option<Acc>,
        op: S,
        a: &A,
        b: &B,
        desc: Option<Descriptor>,
    ) -> (r: Result<NoValue, GblasError>)
        requires
            old(self).wf(),
            a.wf(),
            b.wf(),
            clones_exactly::<Self::Scalar>(),
            mask matches Some(m) ==> m.readable(),
            combinable(first_operand(a, desc), second_operand(b, desc), SemiringAddition(op)),
            mat_writable(
                *old(self),
                union_with(first_operand(a, desc), second_operand(b, desc), SemiringAddition(op)),
                mask,
                accum,
                desc,
            ),
        ensures
            !(shaped_as_first(old(self), a, desc) && shaped_as_second(old(self), b, desc))
                ==> mismatch(*old(self), *final(self), r),
            shaped_as_first(old(self), a, desc) && shaped_as_second(old(self), b, desc)
                ==> mat_outcome(
                    *old(self),
                    *final(self),
                    r,
                    mat_written(
                        *old(self),
                        union_with(
                            first_operand(a, desc),
                            second_operand(b, desc),
                            SemiringAddition(op),
                        ),
                        mask,
                        accum,
                        desc,
                    ),
                ),
    ;

    /// Maps every stored value of `a` through the unary operator `Op` and
    /// writes the result.
    fn apply<
        Mk: MatMask<Self>,
        Acc: BinaryOperator<Self::Scalar, Output = Self::Scalar>,
        Op: UnaryOperator<Self::Scalar>,
        A: Matrix<Scalar = Self::Scalar>,
    >(
        &mut self,
        mask: Option<Mk>,
        accum: Option<Acc>,
        op: Op,
        a: &A,
        desc: Option<Descriptor>,
    ) -> (r: Result<NoValue, GblasError>)
        requires
            old(self).wf(),
            a.wf(),
            clones_exactly::<Self::Scalar>(),
            mask matches Some(m) ==> m.readable(),
            appliable::<(IndexType, IndexType),
            Self::Scalar,
            Op>(first_operand(a, desc)),
            accumulable(
                old(self).entries(),
                applied::<(IndexType, IndexType),
                Self::Scalar,
                Op>(first_operand(a, desc)),
                mat_admitted(mask, desc),
                accum,
            ),
        ensures
            !shaped_as_first(old(self), a, desc) ==> mismatch(*old(self), *final(self), r),
            shaped_as_first(old(self), a, desc) ==> mat_outcome(
                *old(self),
                *final(self),
                r,
                written(
                    old(self).entries(),
                    applied::<(IndexType, IndexType),
                    Self::Scalar,
                    Op>(first_operand(a, desc)),
                    mat_admitted(mask, desc),
                    accum,
                    replaces(desc),
                ),
            ),
    ;

    /// Maps every stored value `x` of `a` to `op(value, x)` and writes the
    /// result.
    fn apply_1st<
        Mk: MatMask<Self>,
        Acc: BinaryOperator<Self::Scalar, Output = Self::Scalar>,
        Op: BinaryOperator<Self::Scalar, Output = Self::Scalar>,
        A: Matrix<Scalar = Self::Scalar>,
    >(
        &mut self,
        mask: Option<Mk>,
        accum: Option<Acc>,
        op: Op,
        value: Self::Scalar,
        a: &A,
        desc: Option<Descriptor>,
    ) -> (r: Result<NoValue, GblasError>)
        requires
            old(self).wf(),
            a.wf(),
            clones_exactly::<Self::Scalar>(),
            mask matches Some(m) ==> m.readable(),
            appliable_first(first_operand(a, desc), op, value),
            mat_writable(
                *old(self),
                applied_first(first_operand(a, desc), op, value),
                mask,
                accum,
                desc,
            ),
        ensures
            !shaped_as_first(old(self), a, desc) ==> mismatch(*old(self), *final(self), r),
            shaped_as_first(old(self), a, desc) ==> mat_outcome(
                *old(self),
                *final(self),
                r,
                mat_written(
                    *old(self),
                    applied_first(first_operand(a, desc), op, value),
                    mask,
                    accum,
                    desc,
                ),
            ),
    ;

    /// Maps every stored value `x` of `a` to `op(x, value)` and writes the
    /// result.
    fn apply_2nd<
        Mk: MatMask<Self>,
        Acc: BinaryOperator<Self::Scalar, Output = Self::Scalar>,
        Op: BinaryOperator<Self::Scalar, Output = Self::Scalar>,
        A: Matrix<Scalar = Self::Scalar>,
    >(
        &mut self,
        mask: Option<Mk>,
        accum: Option<Acc>,
        op: Op,
        a: &A,
        value: Self::Scalar,
        desc: Option<Descriptor>,
    ) -> (r: Result<NoValue, GblasError>)
        requires
            old(self).wf(),
            a.wf(),
            clones_exactly::<Self::Scalar>(),
            mask matches Some(m) ==> m.readable(),
            appliable_second(first_operand(a, desc), op, value),
            mat_writable(
                *old(self),
                applied_second(first_operand(a, desc), op, value),
                mask,
                accum,
                desc,
            ),
        ensures
            !shaped_as_first(old(self), a, desc) ==> mismatch(*old(self), *final(self), r),
            shaped_as_first(old(self), a, desc) ==> mat_outcome(
                *old(self),
                *final(self),
                r,
                mat_written(
                    *old(self),
                    applied_second(first_operand(a, desc), op, value),
                    mask,
                    accum,
                    desc,
                ),
            ),
    ;

    /// Selects from `a` the rows and the columns that the index lists name,
    /// and writes the selection. The output must have as many rows and
    /// columns as the lists name positions, and every position named must
    /// lie within `a`.
    fn extract<
        Mk: MatMask<Self>,
        Acc: BinaryOperator<Self::Scalar, Output = Self::Scalar>,
        A: Matrix<Scalar = Self::Scalar>,
    >(
        &mut self,
        mask: Option<Mk>,
        accum: Option<Acc>,
        a: &A,
        row_indices: Indices,
        col_indices: Indices,
        desc: Option<Descriptor>,
    ) -> (r: Result<NoValue, GblasError>)
        requires
            old(self).wf(),
            a.wf(),
            clones_exactly::<Self::Scalar>(),
            mask matches Some(m) ==> m.readable(),
            mat_writable(
                *old(self),
                extracted(
                    first_operand(a, desc),
                    row_indices.resolve(first_rows(a, desc)),
                    col_indices.resolve(first_cols(a, desc)),
                ),
                mask,
                accum,
                desc,
            ),
        ensures
            !(row_indices.resolve(first_rows(a, desc)).len() == old(self).row_dim()
                && col_indices.resolve(first_cols(a, desc)).len() == old(self).col_dim())
                ==> mismatch(*old(self), *final(self), r),
            row_indices.resolve(first_rows(a, desc)).len() == old(self).row_dim()
                && col_indices.resolve(first_cols(a, desc)).len() == old(self).col_dim()
                && !(row_indices.within(first_rows(a, desc))
                    && col_indices.within(first_cols(a, desc)))
                ==> misindexed(*old(self), *final(self), r),
            row_indices.resolve(first_rows(a, desc)).len() == old(self).row_dim()
                && col_indices.resolve(first_cols(a, desc)).len() == old(self).col_dim()
                && row_indices.within(first_rows(a, desc))
                && col_indices.within(first_cols(a, desc)) ==> mat_outcome(
                *old(self),
                *final(self),
                r,
                mat_written(
                    *old(self),
                    extracted(
                        first_operand(a, desc),
                        row_indices.resolve(first_rows(a, desc)),
                        col_indices.resolve(first_cols(a, desc)),
                    ),
                    mask,
                    accum,
                    desc,
                ),
            ),
    ;

    /// Writes `a` to the rows and the columns that the index lists name:
    /// what `a` stores at `(i, j)` goes to the `i`-th row and the `j`-th
    /// column named.
    fn assign<
        Mk: MatMask<Self>,
        Acc: BinaryOperator<Self::Scalar, Output = Self::Scalar>,
        A: Matrix<Scalar = Self::Scalar>,
    >(
        &mut self,
        mask: Option<Mk>,
        accum: Option<Acc>,
        a: &A,
        row_indices: Indices,
        col_indices: Indices,
        desc: Option<Descriptor>,
    ) -> (r: Result<NoValue, GblasError>)
        requires
            old(self).wf(),
            a.wf(),
            clones_exactly::<Self::Scalar>(),
            mask matches Some(m) ==> m.readable(),
            mat_writable(
                *old(self),
                scattered(
                    first_operand(a, desc),
                    row_indices.resolve(old(self).row_dim()),
                    col_indices.resolve(old(self).col_dim()),
                ),
                mask,
                accum,
                desc,
            ),
        ensures
            assignment(
                *old(self),
                *final(self),
                r,
                first_operand(a, desc),
                first_rows(a, desc),
                first_cols(a, desc),
                row_indices.resolve(old(self).row_dim()),
                col_indices.resolve(old(self).col_dim()),
                mat_admitted(mask, desc),
                accum,
                replaces(desc),
            ),
    ;

    /// Writes the one column of `a` to the rows that the index list names,
    /// in column `col_index`.
    fn assign_col<
        Mk: MatMask<Self>,
        Acc: BinaryOperator<Self::Scalar, Output = Self::Scalar>,
        A: Matrix<Scalar = Self::Scalar>,
    >(
        &mut self,
        mask: Option<Mk>,
        accum: Option<Acc>,
        a: &A,
        row_indices: Indices,
        col_index: IndexType,
        desc: Option<Descriptor>,
    ) -> (r: Result<NoValue, GblasError>)
        requires
            old(self).wf(),
            a.wf(),
            clones_exactly::<Self::Scalar>(),
            mask matches Some(m) ==> m.readable(),
            mat_writable(
                *old(self),
                scattered(
                    first_operand(a, desc),
                    row_indices.resolve(old(self).row_dim()),
                    seq![col_index],
                ),
                mask,
                accum,
                desc,
            ),
        ensures
            assignment(
                *old(self),
                *final(self),
                r,
                first_operand(a, desc),
                first_rows(a, desc),
                first_cols(a, desc),
                row_indices.resolve(old(self).row_dim()),
                seq![col_index],
                mat_admitted(mask, desc),
                accum,
                replaces(desc),
            ),
    ;

    /// Writes the one row of `a` to the columns that the index list names,
    /// in row `row_index`.
    fn assign_row<
        Mk: MatMask<Self>,
        Acc: BinaryOperator<Self::Scalar, Output = Self::Scalar>,
        A: Matrix<Scalar = Self::Scalar>,
    >(
        &mut self,
        mask: Option<Mk>,
        accum: Option<Acc>,
        a: &A,
        row_index: IndexType,
        col_indices: Indices,
        desc: Option<Descriptor>,
    ) -> (r: Result<NoValue, GblasError>)
        requires
            old(self).wf(),
            a.wf(),
            clones_exactly::<Self::Scalar>(),
            mask matches Some(m) ==> m.readable(),
            mat_writable(
                *old(self),
                scattered(
                    first_operand(a, desc),
                    seq![row_index],
                    col_indices.resolve(old(self).col_dim()),
                ),
                mask,
                accum,
                desc,
            ),
        ensures
            assignment(
                *old(self),
                *final(self),
                r,
                first_operand(a, desc),
                first_rows(a, desc),
                first_cols(a, desc),
                seq![row_index],
                col_indices.resolve(old(self).col_dim()),
                mat_admitted(mask, desc),
                accum,
                replaces(desc),
            ),
    ;

    /// Writes one value to every position that the index lists name.
    fn assign_value<Mk: MatMask<Self>, Acc: BinaryOperator<Self::Scalar, Output = Self::Scalar>>(
        &mut self,
        mask: Option<Mk>,
        accum: Option<Acc>,
        value: Self::Scalar,
        row_indices: Indices,
        col_indices: Indices,
        desc: Option<Descriptor>,
    ) -> (r: Result<NoValue, GblasError>)
        requires
            old(self).wf(),
            clones_exactly::<Self::Scalar>(),
            mask matches Some(m) ==> m.readable(),
            mat_writable(
                *old(self),
                filled(
                    value,
                    region(
                        row_indices.resolve(old(self).row_dim()),
                        col_indices.resolve(old(self).col_dim()),
                    ),
                ),
                mask,
                accum,
                desc,
            ),
        ensures
            !(row_indices.within(old(self).row_dim())
                && col_indices.within(old(self).col_dim()))
                ==> misindexed(*old(self), *final(self), r),
            row_indices.within(old(self).row_dim()) && col_indices.within(old(self).col_dim())
                ==> mat_outcome(
                    *old(self),
                    *final(self),
                    r,
                    mat_assigned(
                        *old(self),
                        filled(
                            value,
                            region(
                                row_indices.resolve(old(self).row_dim()),
                                col_indices.resolve(old(self).col_dim()),
                            ),
                        ),
                        region(
                            row_indices.resolve(old(self).row_dim()),
                            col_indices.resolve(old(self).col_dim()),
                        ),
                        mask,
                        accum,
                        desc,
                    ),
                ),
    ;

    /// Folds all stored values, in row-major order, into one with the
    /// monoid `op`, and writes it to `val`; with an accumulator, the
    /// accumulation of what `val` held and the folded value.
    fn reduce<
        Acc: BinaryOperator<Self::Scalar,
        Output = Self::Scalar>,
        Mo: Monoid<Self::Scalar>,
    >(
        &self,
        val: &mut Self::Scalar,
        accum: Option<Acc>,
        op: Mo,
        desc: Option<Descriptor>,
    ) -> (r: Result<NoValue, GblasError>)
        requires
            self.wf(),
            clones_exactly::<Self::Scalar>(),
            foldable_all(stored_values(self.entries()), op),
            accum matches Some(f)
                ==> f.defined(*old(val), folded_all(stored_values(self.entries()), op)),
        ensures
            r is Ok,
            *final(val) == reduced(*old(val), folded_all(stored_values(self.entries()), op), accum),
    ;

    /// Kronecker product: writes every stored value of `a` combined with every
    /// stored value of `b` by `op`. The output must have as many rows as
    /// the rows of the operands multiply to, and as many columns as their
    /// columns do.
    fn kronecker_binary_op<
        Mk: MatMask<Self>,
        Acc: BinaryOperator<Self::Scalar, Output = Self::Scalar>,
        Op: BinaryOperator<Self::Scalar, Output = Self::Scalar>,
        A: Matrix<Scalar = Self::Scalar>,
        B: Matrix<Scalar = Self::Scalar>,
    >(
        &mut self,
        mask: Option<Mk>,
        accum: Option<Acc>,
        op: Op,
        a: &A,
        b: &B,
        desc: Option<Descriptor>,
    ) -> (r: Result<NoValue, GblasError>)
        requires
            old(self).wf(),
            a.wf(),
            b.wf(),
            clones_exactly::<Self::Scalar>(),
            mask matches Some(m) ==> m.readable(),
            pairable(first_operand(a, desc), second_operand(b, desc), op),
            mat_writable(
                *old(self),
                kronecker(
                    first_operand(a, desc),
                    second_operand(b, desc),
                    op,
                    second_rows(b, desc),
                    second_cols(b, desc),
                ),
                mask,
                accum,
                desc,
            ),
        ensures
            !(old(self).row_dim() == first_rows(a, desc) * second_rows(b, desc)
                && old(self).col_dim() == first_cols(a, desc) * second_cols(b, desc))
                ==> mismatch(*old(self), *final(self), r),
            old(self).row_dim() == first_rows(a, desc) * second_rows(b, desc)
                && old(self).col_dim() == first_cols(a, desc) * second_cols(b, desc)
                ==> mat_outcome(
                    *old(self),
                    *final(self),
                    r,
                    mat_written(
                        *old(self),
                        kronecker(
                            first_operand(a, desc),
                            second_operand(b, desc),
                            op,
                            second_rows(b, desc),
                            second_cols(b, desc),
                        ),
                        mask,
                        accum,
                        desc,
                    ),
                ),
    ;

    /// Kronecker product by the operator of a monoid.
    fn kronecker_monoid<
        Mk: MatMask<Self>,
        Acc: BinaryOperator<Self::Scalar, Output = Self::Scalar>,
        Mo: Monoid<Self::Scalar>,
        A: Matrix<Scalar = Self::Scalar>,
        B: Matrix<Scalar = Self::Scalar>,
    >(
        &mut self,
        mask: Option<Mk>,
        accum: Option<Acc>,
        op: Mo,
        a: &A,
        b: &B,
        desc: Option<Descriptor>,
    ) -> (r: Result<NoValue, GblasError>)
        requires
            old(self).wf(),
            a.wf(),
            b.wf(),
            clones_exactly::<Self::Scalar>(),
            mask matches Some(m) ==> m.readable(),
            pairable(first_operand(a, desc), second_operand(b, desc), MonoidOperator(op)),
            mat_writable(
                *old(self),
                kronecker(
                    first_operand(a, desc),
                    second_operand(b, desc),
                    MonoidOperator(op),
                    second_rows(b, desc),
                    second_cols(b, desc),
                ),
                mask,
                accum,
                desc,
            ),
        ensures
            !(old(self).row_dim() == first_rows(a, desc) * second_rows(b, desc)
                && old(self).col_dim() == first_cols(a, desc) * second_cols(b, desc))
                ==> mismatch(*old(self), *final(self), r),
            old(self).row_dim() == first_rows(a, desc) * second_rows(b, desc)
                && old(self).col_dim() == first_cols(a, desc) * second_cols(b, desc)
                ==> mat_outcome(
                    *old(self),
                    *final(self),
                    r,
                    mat_written(
                        *old(self),
                        kronecker(
                            first_operand(a, desc),
                            second_operand(b, desc),
                            MonoidOperator(op),
                            second_rows(b, desc),
                            second_cols(b, desc),
                        ),
                        mask,
                        accum,
                        desc,
                    ),
                ),
    ;

    /// Kronecker product by the multiplication of a semiring.
    fn kronecker_semiring<
        Mk: MatMask<Self>,
        Acc: BinaryOperator<Self::Scalar, Output = Self::Scalar>,
        S: Semiring<Self::Scalar, Output = Self::Scalar>,
        A: Matrix<Scalar = Self::Scalar>,
        B: Matrix<Scalar = Self::Scalar>,
    >(
        &mut self,
        mask: Option<Mk>,
        accum: Option<Acc>,
        op: S,
        a: &A,
        b: &B,
        desc: Option<Descriptor>,
    ) -> (r: Result<NoValue, GblasError>)
        requires
            old(self).wf(),
            a.wf(),
            b.wf(),
            clones_exactly::<Self::Scalar>(),
            mask matches Some(m) ==> m.readable(),
            pairable(first_operand(a, desc), second_operand(b, desc), SemiringMultiplication(op)),
            mat_writable(
                *old(self),
                kronecker(
                    first_operand(a, desc),
                    second_operand(b, desc),
                    SemiringMultiplication(op),
                    second_rows(b, desc),
                    second_cols(b, desc),
                ),
                mask,
                accum,
                desc,
            ),
        ensures
            !(old(self).row_dim() == first_rows(a, desc) * second_rows(b, desc)
                && old(self).col_dim() == first_cols(a, desc) * second_cols(b, desc))
                ==> mismatch(*old(self), *final(self), r),
            old(self).row_dim() == first_rows(a, desc) * second_rows(b, desc)
                && old(self).col_dim() == first_cols(a, desc) * second_cols(b, desc)
                ==> mat_outcome(
                    *old(self),
                    *final(self),
                    r,
                    mat_written(
                        *old(self),
                        kronecker(
                            first_operand(a, desc),
                            second_operand(b, desc),
                            SemiringMultiplication(op),
                            second_rows(b, desc),
                            second_cols(b, desc),
                        ),
                        mask,
                        accum,
                        desc,
                    ),
                ),
    ;

    /// Writes `a` with rows and columns swapped. The operand conforms where
    /// it has, as it is read, the columns of the output for rows and its
    /// rows for columns.
    fn transpose<
        Mk: MatMask<Self>,
        Acc: BinaryOperator<Self::Scalar, Output = Self::Scalar>,
        A: Matrix<Scalar = Self::Scalar>,
    >(
        &mut self,
        mask: Option<Mk>,
        accum: Option<Acc>,
        a: &A,
        desc: Option<Descriptor>,
    ) -> (r: Result<NoValue, GblasError>)
        requires
            old(self).wf(),
            a.wf(),
            clones_exactly::<Self::Scalar>(),
            mask matches Some(m) ==> m.readable(),
            mat_writable(*old(self), transposed(first_operand(a, desc)), mask, accum, desc),
        ensures
            !same_shape(old(self), a, !transposes_first(desc))
                ==> mismatch(*old(self), *final(self), r),
            same_shape(old(self), a, !transposes_first(desc)) ==> mat_outcome(
                *old(self),
                *final(self),
                r,
                mat_written(*old(self), transposed(first_operand(a, desc)), mask, accum, desc),
            ),
    ;
}

} // verus!
