//! The operations whose output is a vector.
use vstd::prelude::*;
use crate::algebra::{
    BinaryOperator, Monoid, MonoidOperator, Semiring, SemiringAddition, SemiringMultiplication,
    UnaryOperator,
};
use crate::descriptor::Descriptor;
use crate::error::GblasError;
use crate::indices::Indices;
use crate::mask::{MatMask, VecMask};
use crate::matrix::Matrix;
use crate::operations::meaning::{
    accumulable, appliable, appliable_first, appliable_second, applied, applied_first,
    applied_second, as_col, as_row, chainable, chainable_all, col_zero, column_of, combinable,
    first_cols, first_operand, first_rows, foldable, foldable_all, folded, folded_all,
    intersect_with, listed_values, misindexed, mismatch, multipliable, operand, pairable,
    product_map, reduced, replaces, row_of, row_zero, rows_chained, rows_folded, second_cols,
    second_operand, second_rows, transposed, union_with, vec_admitted, vec_assigned, vec_assignment,
    vec_extracted, vec_filled, vec_kronecker, vec_outcome, vec_region, vec_scattered, vec_writable,
    vec_written, written,
};
use crate::types::{clones_exactly, IndexType, NoValue};
use crate::vector::Vector;

verus! {

/// The operations whose output is a vector.
pub trait VecOps: Vector where Self::Scalar: Clone {
    /// Element-wise product: writes, where both operands store a value, `op` of
    /// the two, that of `u` first.
    fn e_wise_mult_binary_op<
        Mk: VecMask<Self>,
        Acc: BinaryOperator<Self::Scalar, Output = Self::Scalar>,
        Op: BinaryOperator<Self::Scalar, Output = Self::Scalar>,
        U: Vector<Scalar = Self::Scalar>,
        W: Vector<Scalar = Self::Scalar>,
    >(
        &mut self,
        mask: Option<Mk>,
        accum: Option<Acc>,
        op: Op,
        u: &U,
        v: &W,
        desc: Option<Descriptor>,
    ) -> (r: Result<NoValue, GblasError>)
        requires
            old(self).wf(),
            u.wf(),
            v.wf(),
            clones_exactly::<Self::Scalar>(),
            mask matches Some(m) ==> m.readable(),
            combinable(u.entries(), v.entries(), op),
            vec_writable(
                *old(self),
                intersect_with(u.entries(), v.entries(), op),
                mask,
                accum,
                desc,
            ),
        ensures
            !(u.dim() == old(self).dim() && v.dim() == old(self).dim())
                ==> mismatch(*old(self), *final(self), r),
            u.dim() == old(self).dim() && v.dim() == old(self).dim() ==> vec_outcome(
                *old(self),
                *final(self),
                r,
                vec_written(
                    *old(self),
                    intersect_with(u.entries(), v.entries(), op),
                    mask,
                    accum,
                    desc,
                ),
            ),
    ;

    /// Element-wise product by the operator of a monoid.
    fn e_wise_mult_monoid<
        Mk: VecMask<Self>,
        Acc: BinaryOperator<Self::Scalar, Output = Self::Scalar>,
        Mo: Monoid<Self::Scalar>,
        U: Vector<Scalar = Self::Scalar>,
        W: Vector<Scalar = Self::Scalar>,
    >(
        &mut self,
        mask: Option<Mk>,
        accum: Option<Acc>,
        op: Mo,
        u: &U,
        v: &W,
        desc: Option<Descriptor>,
    ) -> (r: Result<NoValue, GblasError>)
        requires
            old(self).wf(),
            u.wf(),
            v.wf(),
            clones_exactly::<Self::Scalar>(),
            mask matches Some(m) ==> m.readable(),
            combinable(u.entries(), v.entries(), MonoidOperator(op)),
            vec_writable(
                *old(self),
                intersect_with(u.entries(), v.entries(), MonoidOperator(op)),
                mask,
                accum,
                desc,
            ),
        ensures
            !(u.dim() == old(self).dim() && v.dim() == old(self).dim())
                ==> mismatch(*old(self), *final(self), r),
            u.dim() == old(self).dim() && v.dim() == old(self).dim() ==> vec_outcome(
                *old(self),
                *final(self),
                r,
                vec_written(
                    *old(self),
                    intersect_with(u.entries(), v.entries(), MonoidOperator(op)),
                    mask,
                    accum,
                    desc,
                ),
            ),
    ;

    /// Element-wise product by the multiplication of a semiring.
    fn e_wise_mult_semiring<
        Mk: VecMask<Self>,
        Acc: BinaryOperator<Self::Scalar, Output = Self::Scalar>,
        S: Semiring<Self::Scalar, Output = Self::Scalar>,
        U: Vector<Scalar = Self::Scalar>,
        W: Vector<Scalar = Self::Scalar>,
    >(
        &mut self,
        mask: Option<Mk>,
        accum: Option<Acc>,
        op: S,
        u: &U,
        v: &W,
        desc: Option<Descriptor>,
    ) -> (r: Result<NoValue, GblasError>)
        requires
            old(self).wf(),
            u.wf(),
            v.wf(),
            clones_exactly::<Self::Scalar>(),
            mask matches Some(m) ==> m.readable(),
            combinable(u.entries(), v.entries(), SemiringMultiplication(op)),
            vec_writable(
                *old(self),
                intersect_with(u.entries(), v.entries(), SemiringMultiplication(op)),
                mask,
                accum,
                desc,
            ),
        ensures
            !(u.dim() == old(self).dim() && v.dim() == old(self).dim())
                ==> mismatch(*old(self), *final(self), r),
            u.dim() == old(self).dim() && v.dim() == old(self).dim() ==> vec_outcome(
                *old(self),
                *final(self),
                r,
                vec_written(
                    *old(self),
                    intersect_with(u.entries(), v.entries(), SemiringMultiplication(op)),
                    mask,
                    accum,
                    desc,
                ),
            ),
    ;

    /// Element-wise sum: writes what either operand stores, and `op` of the
    /// two, that of `u` first, where both store a value.
    fn e_wise_add_binary_op<
        Mk: VecMask<Self>,
        Acc: BinaryOperator<Self::Scalar, Output = Self::Scalar>,
        Op: BinaryOperator<Self::Scalar, Output = Self::Scalar>,
        U: Vector<Scalar = Self::Scalar>,
        W: Vector<Scalar = Self::Scalar>,
    >(
        &mut self,
        mask: Option<Mk>,
        accum: Option<Acc>,
        op: Op,
        u: &U,
        v: &W,
        desc: Option<Descriptor>,
    ) -> (r: Result<NoValue, GblasError>)
        requires
            old(self).wf(),
            u.wf(),
            v.wf(),
            clones_exactly::<Self::Scalar>(),
            mask matches Some(m) ==> m.readable(),
            combinable(u.entries(), v.entries(), op),
            vec_writable(*old(self), union_with(u.entries(), v.entries(), op), mask, accum, desc),
        ensures
            !(u.dim() == old(self).dim() && v.dim() == old(self).dim())
                ==> mismatch(*old(self), *final(self), r),
            u.dim() == old(self).dim() && v.dim() == old(self).dim() ==> vec_outcome(
                *old(self),
                *final(self),
                r,
                vec_written(
                    *old(self),
                    union_with(u.entries(), v.entries(), op),
                    mask,
                    accum,
                    desc,
                ),
            ),
    ;

    /// Element-wise sum by the operator of a monoid.
    fn e_wise_add_monoid<
        Mk: VecMask<Self>,
        Acc: BinaryOperator<Self::Scalar, Output = Self::Scalar>,
        Mo: Monoid<Self::Scalar>,
        U: Vector<Scalar = Self::Scalar>,
        W: Vector<Scalar = Self::Scalar>,
    >(
        &mut self,
        mask: Option<Mk>,
        accum: Option<Acc>,
        op: Mo,
        u: &U,
        v: &W,
        desc: Option<Descriptor>,
    ) -> (r: Result<NoValue, GblasError>)
        requires
            old(self).wf(),
            u.wf(),
            v.wf(),
            clones_exactly::<Self::Scalar>(),
            mask matches Some(m) ==> m.readable(),
            combinable(u.entries(), v.entries(), MonoidOperator(op)),
            vec_writable(
                *old(self),
                union_with(u.entries(), v.entries(), MonoidOperator(op)),
                mask,
                accum,
                desc,
            ),
        ensures
            !(u.dim() == old(self).dim() && v.dim() == old(self).dim())
                ==> mismatch(*old(self), *final(self), r),
            u.dim() == old(self).dim() && v.dim() == old(self).dim() ==> vec_outcome(
                *old(self),
                *final(self),
                r,
                vec_written(
                    *old(self),
                    union_with(u.entries(), v.entries(), MonoidOperator(op)),
                    mask,
                    accum,
                    desc,
                ),
            ),
    ;

    /// Element-wise sum by the addition of a semiring.
    fn e_wise_add_semiring<
        Mk: VecMask<Self>,
        Acc: BinaryOperator<Self::Scalar, Output = Self::Scalar>,
        S: Semiring<Self::Scalar, Output = Self::Scalar>,
        U: Vector<Scalar = Self::Scalar>,
        W: Vector<Scalar = Self::Scalar>,
    >(
        &mut self,
        mask: Option<Mk>,
        accum: Option<Acc>,
        op: S,
        u: &U,
        v: &W,
        desc: Option<Descriptor>,
    ) -> (r: Result<NoValue, GblasError>)
        requires
            old(self).wf(),
            u.wf(),
            v.wf(),
            clones_exactly::<Self::Scalar>(),
            mask matches Some(m) ==> m.readable(),
            combinable(u.entries(), v.entries(), SemiringAddition(op)),
            vec_writable(
                *old(self),
                union_with(u.entries(), v.entries(), SemiringAddition(op)),
                mask,
                accum,
                desc,
            ),
        ensures
            !(u.dim() == old(self).dim() && v.dim() == old(self).dim())
                ==> mismatch(*old(self), *final(self), r),
            u.dim() == old(self).dim() && v.dim() == old(self).dim() ==> vec_outcome(
                *old(self),
                *final(self),
                r,
                vec_written(
                    *old(self),
                    union_with(u.entries(), v.entries(), SemiringAddition(op)),
                    mask,
                    accum,
                    desc,
                ),
            ),
    ;

    /// Maps every stored value of `u` through the unary operator `Op` and
    /// writes the result.
    fn apply<
        Mk: VecMask<Self>,
        Acc: BinaryOperator<Self::Scalar, Output = Self::Scalar>,
        Op: UnaryOperator<Self::Scalar>,
        U: Vector<Scalar = Self::Scalar>,
    >(
        &mut self,
        mask: Option<Mk>,
        accum: Option<Acc>,
        op: Op,
        u: &U,
        desc: Option<Descriptor>,
    ) -> (r: Result<NoValue, GblasError>)
        requires
            old(self).wf(),
            u.wf(),
            clones_exactly::<Self::Scalar>(),
            mask matches Some(m) ==> m.readable(),
            appliable::<IndexType,
            Self::Scalar,
            Op>(u.entries()),
            accumulable(
                old(self).entries(),
                applied::<IndexType,
                Self::Scalar,
                Op>(u.entries()),
                vec_admitted(mask, desc),
                accum,
            ),
        ensures
            u.dim() != old(self).dim() ==> mismatch(*old(self), *final(self), r),
            u.dim() == old(self).dim() ==> vec_outcome(
                *old(self),
                *final(self),
                r,
                written(
                    old(self).entries(),
                    applied::<IndexType,
                    Self::Scalar,
                    Op>(u.entries()),
                    vec_admitted(mask, desc),
                    accum,
                    replaces(desc),
                ),
            ),
    ;

    /// Maps every stored value `x` of `u` to `op(value, x)` and writes the
    /// result.
    fn apply_1st<
        Mk: VecMask<Self>,
        Acc: BinaryOperator<Self::Scalar, Output = Self::Scalar>,
        Op: BinaryOperator<Self::Scalar, Output = Self::Scalar>,
        U: Vector<Scalar = Self::Scalar>,
    >(
        &mut self,
        mask: Option<Mk>,
        accum: Option<Acc>,
        op: Op,
        value: Self::Scalar,
        u: &U,
        desc: Option<Descriptor>,
    ) -> (r: Result<NoValue, GblasError>)
        requires
            old(self).wf(),
            u.wf(),
            clones_exactly::<Self::Scalar>(),
            mask matches Some(m) ==> m.readable(),
            appliable_first(u.entries(), op, value),
            vec_writable(*old(self), applied_first(u.entries(), op, value), mask, accum, desc),
        ensures
            u.dim() != old(self).dim() ==> mismatch(*old(self), *final(self), r),
            u.dim() == old(self).dim() ==> vec_outcome(
                *old(self),
                *final(self),
                r,
                vec_written(*old(self), applied_first(u.entries(), op, value), mask, accum, desc),
            ),
    ;

    /// Maps every stored value `x` of `u` to `op(x, value)` and writes the
    /// result.
    fn apply_2nd<
        Mk: VecMask<Self>,
        Acc: BinaryOperator<Self::Scalar, Output = Self::Scalar>,
        Op: BinaryOperator<Self::Scalar, Output = Self::Scalar>,
        U: Vector<Scalar = Self::Scalar>,
    >(
        &mut self,
        mask: Option<Mk>,
        accum: Option<Acc>,
        op: Op,
        u: &U,
        value: Self::Scalar,
        desc: Option<Descriptor>,
    ) -> (r: Result<NoValue, GblasError>)
        requires
            old(self).wf(),
            u.wf(),
            clones_exactly::<Self::Scalar>(),
            mask matches Some(m) ==> m.readable(),
            appliable_second(u.entries(), op, value),
            vec_writable(*old(self), applied_second(u.entries(), op, value), mask, accum, desc),
        ensures
            u.dim() != old(self).dim() ==> mismatch(*old(self), *final(self), r),
            u.dim() == old(self).dim() ==> vec_outcome(
                *old(self),
                *final(self),
                r,
                vec_written(*old(self), applied_second(u.entries(), op, value), mask, accum, desc),
            ),
    ;

    /// Writes `a` as it is: a vector has one dimension, and transposing it
    /// changes nothing.
    fn transpose<
        Mk: VecMask<Self>,
        Acc: BinaryOperator<Self::Scalar,
        Output = Self::Scalar>,
        U: Vector<Scalar = Self::Scalar>,
    >(
        &mut self,
        mask: Option<Mk>,
        accum: Option<Acc>,
        a: &U,
        desc: Option<Descriptor>,
    ) -> (r: Result<NoValue, GblasError>)
        requires
            old(self).wf(),
            a.wf(),
            clones_exactly::<Self::Scalar>(),
            mask matches Some(m) ==> m.readable(),
            vec_writable(*old(self), a.entries(), mask, accum, desc),
        ensures
            a.dim() != old(self).dim() ==> mismatch(*old(self), *final(self), r),
            a.dim() == old(self).dim() ==> vec_outcome(
                *old(self),
                *final(self),
                r,
                vec_written(*old(self), a.entries(), mask, accum, desc),
            ),
    ;

    /// Generalized product of the vector `u`, as a row, with the matrix `a`
    /// over the semiring `op`. The matrix is read transposed if the
    /// descriptor says so of the second operand. The operands conform where
    /// `u` has the rows of the matrix for dimension and the vector written
    /// to has its columns.
    fn vxm<
        Mk: VecMask<Self>,
        Acc: BinaryOperator<Self::Scalar, Output = Self::Scalar>,
        S: Semiring<Self::Scalar, Output = Self::Scalar>,
        U: Vector<Scalar = Self::Scalar>,
        A: Matrix<Scalar = Self::Scalar>,
    >(
        &mut self,
        mask: Option<Mk>,
        accum: Option<Acc>,
        op: S,
        u: &U,
        a: &A,
        desc: Option<Descriptor>,
    ) -> (r: Result<NoValue, GblasError>)
        requires
            old(self).wf(),
            u.wf(),
            a.wf(),
            clones_exactly::<Self::Scalar>(),
            mask matches Some(m) ==> m.readable(),
            multipliable(as_row(u.entries()), second_operand(a, desc), op, u.dim()),
            vec_writable(
                *old(self),
                row_zero(product_map(as_row(u.entries()), second_operand(a, desc), op, u.dim())),
                mask,
                accum,
                desc,
            ),
        ensures
            !(u.dim() == second_rows(a, desc) && old(self).dim() == second_cols(a, desc))
                ==> mismatch(*old(self), *final(self), r),
            u.dim() == second_rows(a, desc) && old(self).dim() == second_cols(a, desc)
                ==> vec_outcome(
                    *old(self),
                    *final(self),
                    r,
                    vec_written(
                        *old(self),
                        row_zero(
                            product_map(as_row(u.entries()), second_operand(a, desc), op, u.dim()),
                        ),
                        mask,
                        accum,
                        desc,
                    ),
                ),
    ;

    /// Generalized product of the matrix `a` with the vector `u`, as a
    /// column, over the semiring `op`. The matrix is read transposed if the
    /// descriptor says so of the first operand. The operands conform where
    /// `u` has the columns of the matrix for dimension and the vector
    /// written to has its rows.
    fn mxv<
        Mk: VecMask<Self>,
        Acc: BinaryOperator<Self::Scalar, Output = Self::Scalar>,
        S: Semiring<Self::Scalar, Output = Self::Scalar>,
        A: Matrix<Scalar = Self::Scalar>,
        U: Vector<Scalar = Self::Scalar>,
    >(
        &mut self,
        mask: Option<Mk>,
        accum: Option<Acc>,
        op: S,
        a: &A,
        u: &U,
        desc: Option<Descriptor>,
    ) -> (r: Result<NoValue, GblasError>)
        requires
            old(self).wf(),
            u.wf(),
            a.wf(),
            clones_exactly::<Self::Scalar>(),
            mask matches Some(m) ==> m.readable(),
            multipliable(first_operand(a, desc), as_col(u.entries()), op, u.dim()),
            vec_writable(
                *old(self),
                col_zero(product_map(first_operand(a, desc), as_col(u.entries()), op, u.dim())),
                mask,
                accum,
                desc,
            ),
        ensures
            !(u.dim() == first_cols(a, desc) && old(self).dim() == first_rows(a, desc))
                ==> mismatch(*old(self), *final(self), r),
            u.dim() == first_cols(a, desc) && old(self).dim() == first_rows(a, desc)
                ==> vec_outcome(
                    *old(self),
                    *final(self),
                    r,
                    vec_written(
                        *old(self),
                        col_zero(
                            product_map(first_operand(a, desc), as_col(u.entries()), op, u.dim()),
                        ),
                        mask,
                        accum,
                        desc,
                    ),
                ),
    ;

    /// Kronecker product: writes every stored value of `a` combined with every
    /// stored value of `b` by `op`. The vector written to must have the
    /// product of the dimensions of the operands for dimension.
    fn kronecker_binary_op<
        Mk: VecMask<Self>,
        Acc: BinaryOperator<Self::Scalar, Output = Self::Scalar>,
        Op: BinaryOperator<Self::Scalar, Output = Self::Scalar>,
        U: Vector<Scalar = Self::Scalar>,
        W: Vector<Scalar = Self::Scalar>,
    >(
        &mut self,
        mask: Option<Mk>,
        accum: Option<Acc>,
        op: Op,
        a: &U,
        b: &W,
        desc: Option<Descriptor>,
    ) -> (r: Result<NoValue, GblasError>)
        requires
            old(self).wf(),
            a.wf(),
            b.wf(),
            clones_exactly::<Self::Scalar>(),
            mask matches Some(m) ==> m.readable(),
            pairable(a.entries(), b.entries(), op),
            vec_writable(
                *old(self),
                vec_kronecker(a.entries(), b.entries(), op, b.dim()),
                mask,
                accum,
                desc,
            ),
        ensures
            old(self).dim() != a.dim() * b.dim() ==> mismatch(*old(self), *final(self), r),
            old(self).dim() == a.dim() * b.dim() ==> vec_outcome(
                *old(self),
                *final(self),
                r,
                vec_written(
                    *old(self),
                    vec_kronecker(a.entries(), b.entries(), op, b.dim()),
                    mask,
                    accum,
                    desc,
                ),
            ),
    ;

    /// Kronecker product by the operator of a monoid.
    fn kronecker_monoid<
        Mk: VecMask<Self>,
        Acc: BinaryOperator<Self::Scalar, Output = Self::Scalar>,
        Mo: Monoid<Self::Scalar>,
        U: Vector<Scalar = Self::Scalar>,
        W: Vector<Scalar = Self::Scalar>,
    >(
        &mut self,
        mask: Option<Mk>,
        accum: Option<Acc>,
        op: Mo,
        a: &U,
        b: &W,
        desc: Option<Descriptor>,
    ) -> (r: Result<NoValue, GblasError>)
        requires
            old(self).wf(),
            a.wf(),
            b.wf(),
            clones_exactly::<Self::Scalar>(),
            mask matches Some(m) ==> m.readable(),
            pairable(a.entries(), b.entries(), MonoidOperator(op)),
            vec_writable(
                *old(self),
                vec_kronecker(a.entries(), b.entries(), MonoidOperator(op), b.dim()),
                mask,
                accum,
                desc,
            ),
        ensures
            old(self).dim() != a.dim() * b.dim() ==> mismatch(*old(self), *final(self), r),
            old(self).dim() == a.dim() * b.dim() ==> vec_outcome(
                *old(self),
                *final(self),
                r,
                vec_written(
                    *old(self),
                    vec_kronecker(a.entries(), b.entries(), MonoidOperator(op), b.dim()),
                    mask,
                    accum,
                    desc,
                ),
            ),
    ;

    /// Kronecker product by the multiplication of a semiring.
    fn kronecker_semiring<
        Mk: VecMask<Self>,
        Acc: BinaryOperator<Self::Scalar, Output = Self::Scalar>,
        S: Semiring<Self::Scalar, Output = Self::Scalar>,
        U: Vector<Scalar = Self::Scalar>,
        W: Vector<Scalar = Self::Scalar>,
    >(
        &mut self,
        mask: Option<Mk>,
        accum: Option<Acc>,
        op: S,
        a: &U,
        b: &W,
        desc: Option<Descriptor>,
    ) -> (r: Result<NoValue, GblasError>)
        requires
            old(self).wf(),
            a.wf(),
            b.wf(),
            clones_exactly::<Self::Scalar>(),
            mask matches Some(m) ==> m.readable(),
            pairable(a.entries(), b.entries(), SemiringMultiplication(op)),
            vec_writable(
                *old(self),
                vec_kronecker(a.entries(), b.entries(), SemiringMultiplication(op), b.dim()),
                mask,
                accum,
                desc,
            ),
        ensures
            old(self).dim() != a.dim() * b.dim() ==> mismatch(*old(self), *final(self), r),
            old(self).dim() == a.dim() * b.dim() ==> vec_outcome(
                *old(self),
                *final(self),
                r,
                vec_written(
                    *old(self),
                    vec_kronecker(a.entries(), b.entries(), SemiringMultiplication(op), b.dim()),
                    mask,
                    accum,
                    desc,
                ),
            ),
    ;

    /// Selects from `u` the positions that the index list names, and writes
    /// the selection. The vector written to must have as many positions as
    /// the list names, and every position named must lie within `u`.
    fn extract<
        Mk: VecMask<Self>,
        Acc: BinaryOperator<Self::Scalar,
        Output = Self::Scalar>,
        U: Vector<Scalar = Self::Scalar>,
    >(
        &mut self,
        mask: Option<Mk>,
        accum: Option<Acc>,
        u: &U,
        indices: Indices,
        desc: Option<Descriptor>,
    ) -> (r: Result<NoValue, GblasError>)
        requires
            old(self).wf(),
            u.wf(),
            clones_exactly::<Self::Scalar>(),
            mask matches Some(m) ==> m.readable(),
            vec_writable(
                *old(self),
                vec_extracted(u.entries(), indices.resolve(u.dim())),
                mask,
                accum,
                desc,
            ),
        ensures
            indices.resolve(u.dim()).len() != old(self).dim()
                ==> mismatch(*old(self), *final(self), r),
            indices.resolve(u.dim()).len() == old(self).dim() && !indices.within(u.dim())
                ==> misindexed(*old(self), *final(self), r),
            indices.resolve(u.dim()).len() == old(self).dim() && indices.within(u.dim())
                ==> vec_outcome(
                    *old(self),
                    *final(self),
                    r,
                    vec_written(
                        *old(self),
                        vec_extracted(u.entries(), indices.resolve(u.dim())),
                        mask,
                        accum,
                        desc,
                    ),
                ),
    ;

    /// Selects from column `col_index` of `a` the rows that the index list
    /// names, and writes the selection. The matrix is read transposed if
    /// the descriptor says so of the first operand.
    fn extract_col<
        Mk: VecMask<Self>,
        Acc: BinaryOperator<Self::Scalar, Output = Self::Scalar>,
        A: Matrix<Scalar = Self::Scalar>,
    >(
        &mut self,
        mask: Option<Mk>,
        accum: Option<Acc>,
        a: &A,
        row_indices: Indices,
        col_index: IndexType,
        desc: Option<Descriptor>,
    ) -> (r: Result<NoValue, GblasError>)
        requires
            old(self).wf(),
            a.wf(),
            clones_exactly::<Self::Scalar>(),
            mask matches Some(m) ==> m.readable(),
            vec_writable(
                *old(self),
                vec_extracted(
                    column_of(first_operand(a, desc), col_index),
                    row_indices.resolve(first_rows(a, desc)),
                ),
                mask,
                accum,
                desc,
            ),
        ensures
            row_indices.resolve(first_rows(a, desc)).len() != old(self).dim()
                ==> mismatch(*old(self), *final(self), r),
            row_indices.resolve(first_rows(a, desc)).len() == old(self).dim()
                && !(row_indices.within(first_rows(a, desc)) && col_index < first_cols(a, desc))
                ==> misindexed(*old(self), *final(self), r),
            row_indices.resolve(first_rows(a, desc)).len() == old(self).dim()
                && row_indices.within(first_rows(a, desc))
                && col_index < first_cols(a, desc) ==> vec_outcome(
                *old(self),
                *final(self),
                r,
                vec_written(
                    *old(self),
                    vec_extracted(
                        column_of(first_operand(a, desc), col_index),
                        row_indices.resolve(first_rows(a, desc)),
                    ),
                    mask,
                    accum,
                    desc,
                ),
            ),
    ;

    /// Writes `u` to the positions that the index list names: what `u`
    /// stores at `i` goes to the `i`-th position named.
    fn assign<
        Mk: VecMask<Self>,
        Acc: BinaryOperator<Self::Scalar,
        Output = Self::Scalar>,
        U: Vector<Scalar = Self::Scalar>,
    >(
        &mut self,
        mask: Option<Mk>,
        accum: Option<Acc>,
        u: &U,
        indices: Indices,
        desc: Option<Descriptor>,
    ) -> (r: Result<NoValue, GblasError>)
        requires
            old(self).wf(),
            u.wf(),
            clones_exactly::<Self::Scalar>(),
            mask matches Some(m) ==> m.readable(),
            vec_writable(
                *old(self),
                vec_scattered(u.entries(), indices.resolve(old(self).dim())),
                mask,
                accum,
                desc,
            ),
        ensures
            vec_assignment(
                *old(self),
                *final(self),
                r,
                u.entries(),
                u.dim(),
                indices.resolve(old(self).dim()),
                vec_admitted(mask, desc),
                accum,
                replaces(desc),
            ),
    ;

    /// Writes one value to every position that the index list names.
    fn assign_value<Mk: VecMask<Self>, Acc: BinaryOperator<Self::Scalar, Output = Self::Scalar>>(
        &mut self,
        mask: Option<Mk>,
        accum: Option<Acc>,
        value: Self::Scalar,
        indices: Indices,
        desc: Option<Descriptor>,
    ) -> (r: Result<NoValue, GblasError>)
        requires
            old(self).wf(),
            clones_exactly::<Self::Scalar>(),
            mask matches Some(m) ==> m.readable(),
            vec_writable(
                *old(self),
                vec_filled(value, vec_region(indices.resolve(old(self).dim()))),
                mask,
                accum,
                desc,
            ),
        ensures
            !indices.within(old(self).dim()) ==> misindexed(*old(self), *final(self), r),
            indices.within(old(self).dim()) ==> vec_outcome(
                *old(self),
                *final(self),
                r,
                vec_assigned(
                    *old(self),
                    vec_filled(value, vec_region(indices.resolve(old(self).dim()))),
                    vec_region(indices.resolve(old(self).dim())),
                    mask,
                    accum,
                    desc,
                ),
            ),
    ;

    /// Folds all stored values, in increasing order of position, into one
    /// with the monoid `op`, and writes it to `val`; with an accumulator,
    /// the accumulation of what `val` held and the folded value.
    fn reduce<
        Acc: BinaryOperator<Self::Scalar,
        Output = Self::Scalar>,
        Mo: Monoid<Self::Scalar>,
    >(
        &self,
        val: &mut Self::Scalar,
        accum: Option<Acc>,
        op: Mo,
        desc: Option<Descriptor>,
    ) -> (r: Result<NoValue, GblasError>)
        requires
            self.wf(),
            clones_exactly::<Self::Scalar>(),
            foldable_all(listed_values(self.entries()), op),
            accum matches Some(f)
                ==> f.defined(*old(val), folded_all(listed_values(self.entries()), op)),
        ensures
            r is Ok,
            *final(val) == reduced(*old(val), folded_all(listed_values(self.entries()), op), accum),
    ;

    /// Chains the stored values of every row of `a` into one with `op`, in
    /// increasing order of column, and writes the vector of these values:
    /// a row that stores nothing gives nothing. The matrix is read
    /// transposed if the descriptor says so of the first operand.
    fn reduce_binary_op<
        Mk: VecMask<Self>,
        Acc: BinaryOperator<Self::Scalar, Output = Self::Scalar>,
        Op: BinaryOperator<Self::Scalar, Output = Self::Scalar>,
        A: Matrix<Scalar = Self::Scalar>,
    >(
        &mut self,
        mask: Option<Mk>,
        accum: Option<Acc>,
        op: Op,
        a: &A,
        desc: Option<Descriptor>,
    ) -> (r: Result<NoValue, GblasError>)
        requires
            old(self).wf(),
            a.wf(),
            clones_exactly::<Self::Scalar>(),
            mask matches Some(m) ==> m.readable(),
            forall|i: IndexType| #[trigger]
                chainable_all(listed_values(row_of(first_operand(a, desc), i)), op),
            vec_writable(*old(self), rows_chained(first_operand(a, desc), op), mask, accum, desc),
        ensures
            old(self).dim() != first_rows(a, desc) ==> mismatch(*old(self), *final(self), r),
            old(self).dim() == first_rows(a, desc) ==> vec_outcome(
                *old(self),
                *final(self),
                r,
                vec_written(
                    *old(self),
                    rows_chained(first_operand(a, desc), op),
                    mask,
                    accum,
                    desc,
                ),
            ),
    ;

    /// Folds the stored values of every row of `a` into one with the
    /// monoid `op`, in increasing order of column, and writes the vector of
    /// these values: a row that stores nothing gives nothing. The matrix is
    /// read transposed if the descriptor says so of the first operand.
    fn reduce_monoid<
        Mk: VecMask<Self>,
        Acc: BinaryOperator<Self::Scalar, Output = Self::Scalar>,
        Mo: Monoid<Self::Scalar>,
        A: Matrix<Scalar = Self::Scalar>,
    >(
        &mut self,
        mask: Option<Mk>,
        accum: Option<Acc>,
        op: Mo,
        a: &A,
        desc: Option<Descriptor>,
    ) -> (r: Result<NoValue, GblasError>)
        requires
            old(self).wf(),
            a.wf(),
            clones_exactly::<Self::Scalar>(),
            mask matches Some(m) ==> m.readable(),
            forall|i: IndexType| #[trigger]
                foldable_all(listed_values(row_of(first_operand(a, desc), i)), op),
            vec_writable(*old(self), rows_folded(first_operand(a, desc), op), mask, accum, desc),
        ensures
            old(self).dim() != first_rows(a, desc) ==> mismatch(*old(self), *final(self), r),
            old(self).dim() == first_rows(a, desc) ==> vec_outcome(
                *old(self),
                *final(self),
                r,
                vec_written(*old(self), rows_folded(first_operand(a, desc), op), mask, accum, desc),
            ),
    ;
}

} // verus!
