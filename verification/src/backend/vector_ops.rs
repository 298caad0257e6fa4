//! The operations whose output is a sparse vector.
use vstd::prelude::*;
use crate::algebra::{
    BinaryOperator, Monoid, MonoidOperator, Semiring, SemiringAddition, SemiringMultiplication,
    UnaryOperator,
};
use crate::backend::grid::rows_of;
use crate::backend::kernels::{
    apply_1st_vec, apply_2nd_vec, apply_vec, chain_rows, column_row, ewise_and_vec, extract_vec,
    fill_vec, first_column, first_row, fold_row, fold_rows, kron_vec, lemma_distinct,
    lemma_listed_row, load_row, load_rows, member_set, multiply_rows, scatter_vec, single_column,
    single_row,
};
use crate::backend::matrix_ops::{first_transposed, second_transposed};
use crate::backend::row::{row_map, sorted};
use crate::backend::simple_vec::SimpleVec;
use crate::backend::utils::ewise_or_accum_vec;
use crate::descriptor::Descriptor;
use crate::error::{ApiError, GblasError};
use crate::indices::Indices;
use crate::mask::VecMask;
use crate::matrix::Matrix;
use crate::operations::{vec_kronecker, vec_region, vec_sent, VecOps};
use crate::types::{duplicate, IndexType, NoValue};
use crate::vector::Vector;

verus! {

impl<T> VecOps for SimpleVec<T> where T: Clone + PartialEq {
    fn e_wise_mult_binary_op<
        Mk: VecMask<Self>,
        Acc: BinaryOperator<T, Output = T>,
        Op: BinaryOperator<T, Output = T>,
        U: Vector<Scalar = T>,
        W: Vector<Scalar = T>,
    >(
        &mut self,
        mask: Option<Mk>,
        accum: Option<Acc>,
        op: Op,
        u: &U,
        v: &W,
        desc: Option<Descriptor>,
    ) -> (r: Result<NoValue, GblasError>)
    {
        if u.size() != self.size() || v.size() != self.size() {
            return Err(GblasError::ApiError(ApiError::DimensionMismatch));
        }
        let left = load_row(u);
        let right = load_row(v);
        let t = ewise_and_vec(&left, &right, &op);
        self.write(&t, &mask, &accum, desc)
    }

    fn e_wise_mult_monoid<
        Mk: VecMask<Self>,
        Acc: BinaryOperator<T, Output = T>,
        Mo: Monoid<T>,
        U: Vector<Scalar = T>,
        W: Vector<Scalar = T>,
    >(
        &mut self,
        mask: Option<Mk>,
        accum: Option<Acc>,
        op: Mo,
        u: &U,
        v: &W,
        desc: Option<Descriptor>,
    ) -> (r: Result<NoValue, GblasError>)
    {
        if u.size() != self.size() || v.size() != self.size() {
            return Err(GblasError::ApiError(ApiError::DimensionMismatch));
        }
        let left = load_row(u);
        let right = load_row(v);
        let t = ewise_and_vec(&left, &right, &MonoidOperator(op));
        self.write(&t, &mask, &accum, desc)
    }

    fn e_wise_mult_semiring<
        Mk: VecMask<Self>,
        Acc: BinaryOperator<T, Output = T>,
        S: Semiring<T, Output = T>,
        U: Vector<Scalar = T>,
        W: Vector<Scalar = T>,
    >(
        &mut self,
        mask: Option<Mk>,
        accum: Option<Acc>,
        op: S,
        u: &U,
        v: &W,
        desc: Option<Descriptor>,
    ) -> (r: Result<NoValue, GblasError>)
    {
        if u.size() != self.size() || v.size() != self.size() {
            return Err(GblasError::ApiError(ApiError::DimensionMismatch));
        }
        let left = load_row(u);
        let right = load_row(v);
        let t = ewise_and_vec(&left, &right, &SemiringMultiplication(op));
        self.write(&t, &mask, &accum, desc)
    }

    fn e_wise_add_binary_op<
        Mk: VecMask<Self>,
        Acc: BinaryOperator<T, Output = T>,
        Op: BinaryOperator<T, Output = T>,
        U: Vector<Scalar = T>,
        W: Vector<Scalar = T>,
    >(
        &mut self,
        mask: Option<Mk>,
        accum: Option<Acc>,
        op: Op,
        u: &U,
        v: &W,
        desc: Option<Descriptor>,
    ) -> (r: Result<NoValue, GblasError>)
    {
        if u.size() != self.size() || v.size() != self.size() {
            return Err(GblasError::ApiError(ApiError::DimensionMismatch));
        }
        let left = load_row(u);
        let right = load_row(v);
        let mut t: Vec<(IndexType, T)> = Vec::new();
        ewise_or_accum_vec(&mut t, left.as_slice(), right.as_slice(), &op);
        self.write(&t, &mask, &accum, desc)
    }

    fn e_wise_add_monoid<
        Mk: VecMask<Self>,
        Acc: BinaryOperator<T, Output = T>,
        Mo: Monoid<T>,
        U: Vector<Scalar = T>,
        W: Vector<Scalar = T>,
    >(
        &mut self,
        mask: Option<Mk>,
        accum: Option<Acc>,
        op: Mo,
        u: &U,
        v: &W,
        desc: Option<Descriptor>,
    ) -> (r: Result<NoValue, GblasError>)
    {
        if u.size() != self.size() || v.size() != self.size() {
            return Err(GblasError::ApiError(ApiError::DimensionMismatch));
        }
        let left = load_row(u);
        let right = load_row(v);
        let mut t: Vec<(IndexType, T)> = Vec::new();
        ewise_or_accum_vec(&mut t, left.as_slice(), right.as_slice(), &MonoidOperator(op));
        self.write(&t, &mask, &accum, desc)
    }

    fn e_wise_add_semiring<
        Mk: VecMask<Self>,
        Acc: BinaryOperator<T, Output = T>,
        S: Semiring<T, Output = T>,
        U: Vector<Scalar = T>,
        W: Vector<Scalar = T>,
    >(
        &mut self,
        mask: Option<Mk>,
        accum: Option<Acc>,
        op: S,
        u: &U,
        v: &W,
        desc: Option<Descriptor>,
    ) -> (r: Result<NoValue, GblasError>)
    {
        if u.size() != self.size() || v.size() != self.size() {
            return Err(GblasError::ApiError(ApiError::DimensionMismatch));
        }
        let left = load_row(u);
        let right = load_row(v);
        let mut t: Vec<(IndexType, T)> = Vec::new();
        ewise_or_accum_vec(&mut t, left.as_slice(), right.as_slice(), &SemiringAddition(op));
        self.write(&t, &mask, &accum, desc)
    }

    fn apply<
        Mk: VecMask<Self>,
        Acc: BinaryOperator<T, Output = T>,
        Op: UnaryOperator<T>,
        U: Vector<Scalar = T>,
    >(
        &mut self,
        mask: Option<Mk>,
        accum: Option<Acc>,
        op: Op,
        u: &U,
        desc: Option<Descriptor>,
    ) -> (r: Result<NoValue, GblasError>)
    {
        if u.size() != self.size() {
            return Err(GblasError::ApiError(ApiError::DimensionMismatch));
        }
        let source = load_row(u);
        let t = apply_vec::<T, Op>(&source);
        self.write(&t, &mask, &accum, desc)
    }

    fn apply_1st<
        Mk: VecMask<Self>,
        Acc: BinaryOperator<T, Output = T>,
        Op: BinaryOperator<T, Output = T>,
        U: Vector<Scalar = T>,
    >(
        &mut self,
        mask: Option<Mk>,
        accum: Option<Acc>,
        op: Op,
        value: T,
        u: &U,
        desc: Option<Descriptor>,
    ) -> (r: Result<NoValue, GblasError>)
    {
        if u.size() != self.size() {
            return Err(GblasError::ApiError(ApiError::DimensionMismatch));
        }
        let source = load_row(u);
        let t = apply_1st_vec(&op, &value, &source);
        self.write(&t, &mask, &accum, desc)
    }

    fn apply_2nd<
        Mk: VecMask<Self>,
        Acc: BinaryOperator<T, Output = T>,
        Op: BinaryOperator<T, Output = T>,
        U: Vector<Scalar = T>,
    >(
        &mut self,
        mask: Option<Mk>,
        accum: Option<Acc>,
        op: Op,
        u: &U,
        value: T,
        desc: Option<Descriptor>,
    ) -> (r: Result<NoValue, GblasError>)
    {
        if u.size() != self.size() {
            return Err(GblasError::ApiError(ApiError::DimensionMismatch));
        }
        let source = load_row(u);
        let t = apply_2nd_vec(&op, &source, &value);
        self.write(&t, &mask, &accum, desc)
    }

    fn transpose<Mk: VecMask<Self>, Acc: BinaryOperator<T, Output = T>, U: Vector<Scalar = T>>(
        &mut self,
        mask: Option<Mk>,
        accum: Option<Acc>,
        a: &U,
        desc: Option<Descriptor>,
    ) -> (r: Result<NoValue, GblasError>)
    {
        if a.size() != self.size() {
            return Err(GblasError::ApiError(ApiError::DimensionMismatch));
        }
        let t = load_row(a);
        self.write(&t, &mask, &accum, desc)
    }

    fn vxm<
        Mk: VecMask<Self>,
        Acc: BinaryOperator<T, Output = T>,
        S: Semiring<T, Output = T>,
        U: Vector<Scalar = T>,
        A: Matrix<Scalar = T>,
    >(
        &mut self,
        mask: Option<Mk>,
        accum: Option<Acc>,
        op: S,
        u: &U,
        a: &A,
        desc: Option<Descriptor>,
    ) -> (r: Result<NoValue, GblasError>)
    {
        let swap = second_transposed(desc);
        let (rows, cols) = if swap {
            (a.ncols(), a.nrows())
        } else {
            (a.nrows(), a.ncols())
        };
        if u.size() != rows || self.size() != cols {
            return Err(GblasError::ApiError(ApiError::DimensionMismatch));
        }
        let left = single_row(load_row(u));
        let right = load_rows(a, swap);
        let product = multiply_rows(&left, &right, &op, rows, cols);
        let t = first_row(product);
        self.write(&t, &mask, &accum, desc)
    }

    fn mxv<
        Mk: VecMask<Self>,
        Acc: BinaryOperator<T, Output = T>,
        S: Semiring<T, Output = T>,
        A: Matrix<Scalar = T>,
        U: Vector<Scalar = T>,
    >(
        &mut self,
        mask: Option<Mk>,
        accum: Option<Acc>,
        op: S,
        a: &A,
        u: &U,
        desc: Option<Descriptor>,
    ) -> (r: Result<NoValue, GblasError>)
    {
        let swap = first_transposed(desc);
        let (rows, cols) = if swap {
            (a.ncols(), a.nrows())
        } else {
            (a.nrows(), a.ncols())
        };
        if u.size() != cols || self.size() != rows {
            return Err(GblasError::ApiError(ApiError::DimensionMismatch));
        }
        let left = load_rows(a, swap);
        let right = single_column(&load_row(u));
        let product = multiply_rows(&left, &right, &op, cols, 1);
        let t = first_column(&product);
        self.write(&t, &mask, &accum, desc)
    }

    fn kronecker_binary_op<
        Mk: VecMask<Self>,
        Acc: BinaryOperator<T, Output = T>,
        Op: BinaryOperator<T, Output = T>,
        U: Vector<Scalar = T>,
        W: Vector<Scalar = T>,
    >(
        &mut self,
        mask: Option<Mk>,
        accum: Option<Acc>,
        op: Op,
        a: &U,
        b: &W,
        desc: Option<Descriptor>,
    ) -> (r: Result<NoValue, GblasError>)
    {
        let fits = match a.size().checked_mul(b.size()) {
            Some(size) => size == self.size(),
            None => false,
        };
        if !fits {
            return Err(GblasError::ApiError(ApiError::DimensionMismatch));
        }
        proof {
            b.lemma_stored_in_range();
        }
        let left = load_row(a);
        let right = load_row(b);
        let t = kron_vec(&left, &right, &op, a.size(), b.size());
        proof {
            assert(row_map(t@) =~= vec_kronecker(a.entries(), b.entries(), op, b.dim()));
            assert forall|x: int| 0 <= x < t@.len() implies (#[trigger] t@[x]).0 < self.size by {}
        }
        self.write(&t, &mask, &accum, desc)
    }

    fn kronecker_monoid<
        Mk: VecMask<Self>,
        Acc: BinaryOperator<T, Output = T>,
        Mo: Monoid<T>,
        U: Vector<Scalar = T>,
        W: Vector<Scalar = T>,
    >(
        &mut self,
        mask: Option<Mk>,
        accum: Option<Acc>,
        op: Mo,
        a: &U,
        b: &W,
        desc: Option<Descriptor>,
    ) -> (r: Result<NoValue, GblasError>)
    {
        let fits = match a.size().checked_mul(b.size()) {
            Some(size) => size == self.size(),
            None => false,
        };
        if !fits {
            return Err(GblasError::ApiError(ApiError::DimensionMismatch));
        }
        proof {
            b.lemma_stored_in_range();
        }
        let left = load_row(a);
        let right = load_row(b);
        let t = kron_vec(&left, &right, &MonoidOperator(op), a.size(), b.size());
        proof {
            assert(row_map(t@) =~= vec_kronecker(
                a.entries(),
                b.entries(),
                MonoidOperator(op),
                b.dim(),
            ));
            assert forall|x: int| 0 <= x < t@.len() implies (#[trigger] t@[x]).0 < self.size by {}
        }
        self.write(&t, &mask, &accum, desc)
    }

    fn kronecker_semiring<
        Mk: VecMask<Self>,
        Acc: BinaryOperator<T, Output = T>,
        S: Semiring<T, Output = T>,
        U: Vector<Scalar = T>,
        W: Vector<Scalar = T>,
    >(
        &mut self,
        mask: Option<Mk>,
        accum: Option<Acc>,
        op: S,
        a: &U,
        b: &W,
        desc: Option<Descriptor>,
    ) -> (r: Result<NoValue, GblasError>)
    {
        let fits = match a.size().checked_mul(b.size()) {
            Some(size) => size == self.size(),
            None => false,
        };
        if !fits {
            return Err(GblasError::ApiError(ApiError::DimensionMismatch));
        }
        proof {
            b.lemma_stored_in_range();
        }
        let left = load_row(a);
        let right = load_row(b);
        let t = kron_vec(&left, &right, &SemiringMultiplication(op), a.size(), b.size());
        proof {
            assert(row_map(t@) =~= vec_kronecker(
                a.entries(),
                b.entries(),
                SemiringMultiplication(op),
                b.dim(),
            ));
            assert forall|x: int| 0 <= x < t@.len() implies (#[trigger] t@[x]).0 < self.size by {}
        }
        self.write(&t, &mask, &accum, desc)
    }

    fn extract<Mk: VecMask<Self>, Acc: BinaryOperator<T, Output = T>, U: Vector<Scalar = T>>(
        &mut self,
        mask: Option<Mk>,
        accum: Option<Acc>,
        u: &U,
        indices: Indices,
        desc: Option<Descriptor>,
    ) -> (r: Result<NoValue, GblasError>)
    {
        let dim = u.size();
        if indices.count(dim) != self.size() {
            return Err(GblasError::ApiError(ApiError::DimensionMismatch));
        }
        if !indices.check(dim) {
            return Err(GblasError::ApiError(ApiError::InvalidIndex));
        }
        let source = load_row(u);
        let t = extract_vec(&source, &indices, dim);
        self.write(&t, &mask, &accum, desc)
    }

    fn extract_col<
        Mk: VecMask<Self>,
        Acc: BinaryOperator<T, Output = T>,
        A: Matrix<Scalar = T>,
    >(
        &mut self,
        mask: Option<Mk>,
        accum: Option<Acc>,
        a: &A,
        row_indices: Indices,
        col_index: IndexType,
        desc: Option<Descriptor>,
    ) -> (r: Result<NoValue, GblasError>)
    {
        let swap = first_transposed(desc);
        let (rows, cols) = if swap {
            (a.ncols(), a.nrows())
        } else {
            (a.nrows(), a.ncols())
        };
        if row_indices.count(rows) != self.size() {
            return Err(GblasError::ApiError(ApiError::DimensionMismatch));
        }
        if !row_indices.check(rows) || col_index >= cols {
            return Err(GblasError::ApiError(ApiError::InvalidIndex));
        }
        let source = load_rows(a, swap);
        let column = column_row(&source, col_index);
        let t = extract_vec(&column, &row_indices, rows);
        self.write(&t, &mask, &accum, desc)
    }

    fn assign<Mk: VecMask<Self>, Acc: BinaryOperator<T, Output = T>, U: Vector<Scalar = T>>(
        &mut self,
        mask: Option<Mk>,
        accum: Option<Acc>,
        u: &U,
        indices: Indices,
        desc: Option<Descriptor>,
    ) -> (r: Result<NoValue, GblasError>)
    {
        let dim = self.size();
        let ghost names = indices.resolve(dim);
        if indices.count(dim) != u.size() {
            return Err(GblasError::ApiError(ApiError::DimensionMismatch));
        }
        if !indices.check(dim) {
            return Err(GblasError::ApiError(ApiError::InvalidIndex));
        }
        let within = match indices.index_set() {
            Some(s) => s,
            None => {
                return Err(GblasError::ApiError(ApiError::InvalidValue));
            },
        };
        proof {
            lemma_distinct(&indices, dim);
        }
        let source = load_row(u);
        let t = scatter_vec(&source, &indices, dim);
        proof {
            assert forall|k: IndexType| k < dim implies (#[trigger] vec_region(names).contains(k)
                <==> within.holds(k)) by {
                assert(names.contains(k) == within.holds(k));
            }
            assert forall|k: IndexType| row_map(t@).contains_key(k) implies #[trigger] vec_region(
                names,
            ).contains(k) by {
                let i = choose|i: IndexType| #[trigger] vec_sent(u.entries(), names, k, i);
                assert(names[i as int] == k);
            }
        }
        self.write_within(&t, &within, &mask, &accum, desc, Ghost(vec_region(names)))
    }

    fn assign_value<Mk: VecMask<Self>, Acc: BinaryOperator<T, Output = T>>(
        &mut self,
        mask: Option<Mk>,
        accum: Option<Acc>,
        value: T,
        indices: Indices,
        desc: Option<Descriptor>,
    ) -> (r: Result<NoValue, GblasError>)
    {
        let dim = self.size();
        let ghost names = indices.resolve(dim);
        if !indices.check(dim) {
            return Err(GblasError::ApiError(ApiError::InvalidIndex));
        }
        let within = member_set(&indices, dim);
        let t = fill_vec(&value, &indices, dim);
        proof {
            assert forall|k: IndexType| k < dim implies (#[trigger] vec_region(names).contains(k)
                <==> within.holds(k)) by {
                assert(names.contains(k) == within.holds(k));
            }
        }
        self.write_within(&t, &within, &mask, &accum, desc, Ghost(vec_region(names)))
    }

    fn reduce<Acc: BinaryOperator<T, Output = T>, Mo: Monoid<T>>(
        &self,
        val: &mut T,
        accum: Option<Acc>,
        op: Mo,
        desc: Option<Descriptor>,
    ) -> (r: Result<NoValue, GblasError>)
    {
        proof {
            lemma_listed_row(self.data@);
        }
        let got = fold_row(&self.data, &op);
        match accum {
            Some(f) => {
                let before = duplicate(val);
                *val = f.op(before, got);
            },
            None => {
                *val = got;
            },
        }
        Ok(())
    }

    fn reduce_binary_op<
        Mk: VecMask<Self>,
        Acc: BinaryOperator<T, Output = T>,
        Op: BinaryOperator<T, Output = T>,
        A: Matrix<Scalar = T>,
    >(
        &mut self,
        mask: Option<Mk>,
        accum: Option<Acc>,
        op: Op,
        a: &A,
        desc: Option<Descriptor>,
    ) -> (r: Result<NoValue, GblasError>)
    {
        let swap = first_transposed(desc);
        let rows = if swap {
            a.ncols()
        } else {
            a.nrows()
        };
        if self.size() != rows {
            return Err(GblasError::ApiError(ApiError::DimensionMismatch));
        }
        let source = load_rows(a, swap);
        proof {
            assert forall|x: int| 0 <= x < source@.len() implies sorted(
                #[trigger] rows_of(source@)[x],
            ) by {}
        }
        let t = chain_rows(&source, &op);
        self.write(&t, &mask, &accum, desc)
    }

    fn reduce_monoid<
        Mk: VecMask<Self>,
        Acc: BinaryOperator<T, Output = T>,
        Mo: Monoid<T>,
        A: Matrix<Scalar = T>,
    >(
        &mut self,
        mask: Option<Mk>,
        accum: Option<Acc>,
        op: Mo,
        a: &A,
        desc: Option<Descriptor>,
    ) -> (r: Result<NoValue, GblasError>)
    {
        let swap = first_transposed(desc);
        let rows = if swap {
            a.ncols()
        } else {
            a.nrows()
        };
        if self.size() != rows {
            return Err(GblasError::ApiError(ApiError::DimensionMismatch));
        }
        let source = load_rows(a, swap);
        proof {
            assert forall|x: int| 0 <= x < source@.len() implies sorted(
                #[trigger] rows_of(source@)[x],
            ) by {}
        }
        let t = fold_rows(&source, &op);
        self.write(&t, &mask, &accum, desc)
    }
}

} // verus!
