//! The operations whose output is a sparse matrix.
use vstd::prelude::*;
use crate::algebra::{
    BinaryOperator, Monoid, MonoidOperator, Semiring, SemiringAddition, SemiringMultiplication,
    UnaryOperator,
};
use crate::backend::grid::{grid_map, rows_of};
use crate::backend::kernels::{
    apply_1st_rows, apply_2nd_rows, apply_rows, extract_rows, fill_rows, intersect_rows, kron_rows,
    lemma_distinct, lemma_foldable_below, load_rows, member_set, multiply_rows, scatter_rows,
    union_rows,
};
use crate::backend::sparse_matrix::SparseMatrix;
use crate::descriptor::Descriptor;
use crate::error::{ApiError, GblasError};
use crate::indices::Indices;
use crate::mask::MatMask;
use crate::matrix::{lemma_listing_unique, Matrix, stored_values, triples_of, values_of};
use crate::operations::{
    foldable, folded, lemma_transposed_twice, MatOps, operand, region, same_shape, sent, transposed,
    transposes_first, transposes_second,
};
use crate::types::{duplicate, IndexType, NoValue};

verus! {

/// Whether the descriptor asks to read the first operand transposed.
pub fn first_transposed(desc: Option<Descriptor>) -> (swap: bool)
    ensures
        swap == transposes_first(desc),
{
    match desc {
        Some(d) => d.transpose_a,
        None => false,
    }
}

/// Whether the descriptor asks to read the second operand transposed.
pub fn second_transposed(desc: Option<Descriptor>) -> (swap: bool)
    ensures
        swap == transposes_second(desc),
{
    match desc {
        Some(d) => d.transpose_b,
        None => false,
    }
}

impl<T> MatOps for SparseMatrix<T> where T: Clone + PartialEq {
    fn mxm<
        Mk: MatMask<Self>,
        Acc: BinaryOperator<T, Output = T>,
        S: Semiring<T, Output = T>,
        A: Matrix<Scalar = T>,
        B: Matrix<Scalar = T>,
    >(
        &mut self,
        mask: Option<Mk>,
        accum: Option<Acc>,
        op: S,
        a: &A,
        b: &B,
        desc: Option<Descriptor>,
    ) -> (r: Result<NoValue, GblasError>)
    {
        let swap_a = first_transposed(desc);
        let swap_b = second_transposed(desc);
        let (a_rows, a_cols) = if swap_a {
            (a.ncols(), a.nrows())
        } else {
            (a.nrows(), a.ncols())
        };
        let (b_rows, b_cols) = if swap_b {
            (b.ncols(), b.nrows())
        } else {
            (b.nrows(), b.ncols())
        };
        if a_rows != self.nrows() || b_cols != self.ncols() || a_cols != b_rows {
            return Err(GblasError::ApiError(ApiError::DimensionMismatch));
        }
        let left = load_rows(a, swap_a);
        let right = load_rows(b, swap_b);
        let t = multiply_rows(&left, &right, &op, a_cols, b_cols);
        self.write(&t, &mask, &accum, desc)
    }

    fn e_wise_mult_binary_op<
        Mk: MatMask<Self>,
        Acc: BinaryOperator<T, Output = T>,
        Op: BinaryOperator<T, Output = T>,
        A: Matrix<Scalar = T>,
        B: Matrix<Scalar = T>,
    >(
        &mut self,
        mask: Option<Mk>,
        accum: Option<Acc>,
        op: Op,
        a: &A,
        b: &B,
        desc: Option<Descriptor>,
    ) -> (r: Result<NoValue, GblasError>)
    {
        let swap_a = first_transposed(desc);
        let swap_b = second_transposed(desc);
        if !shaped_like(self, a, swap_a) || !shaped_like(self, b, swap_b) {
            return Err(GblasError::ApiError(ApiError::DimensionMismatch));
        }
        let left = load_rows(a, swap_a);
        let right = load_rows(b, swap_b);
        let t = intersect_rows(&left, &right, &op, self.ncols());
        self.write(&t, &mask, &accum, desc)
    }

    fn e_wise_mult_monoid<
        Mk: MatMask<Self>,
        Acc: BinaryOperator<T, Output = T>,
        Mo: Monoid<T>,
        A: Matrix<Scalar = T>,
        B: Matrix<Scalar = T>,
    >(
        &mut self,
        mask: Option<Mk>,
        accum: Option<Acc>,
        op: Mo,
        a: &A,
        b: &B,
        desc: Option<Descriptor>,
    ) -> (r: Result<NoValue, GblasError>)
    {
        let swap_a = first_transposed(desc);
        let swap_b = second_transposed(desc);
        if !shaped_like(self, a, swap_a) || !shaped_like(self, b, swap_b) {
            return Err(GblasError::ApiError(ApiError::DimensionMismatch));
        }
        let left = load_rows(a, swap_a);
        let right = load_rows(b, swap_b);
        let t = intersect_rows(&left, &right, &MonoidOperator(op), self.ncols());
        self.write(&t, &mask, &accum, desc)
    }

    fn e_wise_mult_semiring<
        Mk: MatMask<Self>,
        Acc: BinaryOperator<T, Output = T>,
        S: Semiring<T, Output = T>,
        A: Matrix<Scalar = T>,
        B: Matrix<Scalar = T>,
    >(
        &mut self,
        mask: Option<Mk>,
        accum: Option<Acc>,
        op: S,
        a: &A,
        b: &B,
        desc: Option<Descriptor>,
    ) -> (r: Result<NoValue, GblasError>)
    {
        let swap_a = first_transposed(desc);
        let swap_b = second_transposed(desc);
        if !shaped_like(self, a, swap_a) || !shaped_like(self, b, swap_b) {
            return Err(GblasError::ApiError(ApiError::DimensionMismatch));
        }
        let left = load_rows(a, swap_a);
        let right = load_rows(b, swap_b);
        let t = intersect_rows(&left, &right, &SemiringMultiplication(op), self.ncols());
        self.write(&t, &mask, &accum, desc)
    }

    fn e_wise_add_binary_op<
        Mk: MatMask<Self>,
        Acc: BinaryOperator<T, Output = T>,
        Op: BinaryOperator<T, Output = T>,
        A: Matrix<Scalar = T>,
        B: Matrix<Scalar = T>,
    >(
        &mut self,
        mask: Option<Mk>,
        accum: Option<Acc>,
        op: Op,
        a: &A,
        b: &B,
        desc: Option<Descriptor>,
    ) -> (r: Result<NoValue, GblasError>)
    {
        let swap_a = first_transposed(desc);
        let swap_b = second_transposed(desc);
        if !shaped_like(self, a, swap_a) || !shaped_like(self, b, swap_b) {
            return Err(GblasError::ApiError(ApiError::DimensionMismatch));
        }
        let left = load_rows(a, swap_a);
        let right = load_rows(b, swap_b);
        let t = union_rows(&left, &right, &op, self.ncols());
        self.write(&t, &mask, &accum, desc)
    }

    fn e_wise_add_monoid<
        Mk: MatMask<Self>,
        Acc: BinaryOperator<T, Output = T>,
        Mo: Monoid<T>,
        A: Matrix<Scalar = T>,
        B: Matrix<Scalar = T>,
    >(
        &mut self,
        mask: Option<Mk>,
        accum: Option<Acc>,
        op: Mo,
        a: &A,
        b: &B,
        desc: Option<Descriptor>,
    ) -> (r: Result<NoValue, GblasError>)
    {
        let swap_a = first_transposed(desc);
        let swap_b = second_transposed(desc);
        if !shaped_like(self, a, swap_a) || !shaped_like(self, b, swap_b) {
            return Err(GblasError::ApiError(ApiError::DimensionMismatch));
        }
        let left = load_rows(a, swap_a);
        let right = load_rows(b, swap_b);
        let t = union_rows(&left, &right, &MonoidOperator(op), self.ncols());
        self.write(&t, &mask, &accum, desc)
    }

    fn e_wise_add_semiring<
        Mk: MatMask<Self>,
        Acc: BinaryOperator<T, Output = T>,
        S: Semiring<T, Output = T>,
        A: Matrix<Scalar = T>,
        B: Matrix<Scalar = T>,
    >(
        &mut self,
        mask: Option<Mk>,
        accum: Option<Acc>,
        op: S,
        a: &A,
        b: &B,
        desc: Option<Descriptor>,
    ) -> (r: Result<NoValue, GblasError>)
    {
        let swap_a = first_transposed(desc);
        let swap_b = second_transposed(desc);
        if !shaped_like(self, a, swap_a) || !shaped_like(self, b, swap_b) {
            return Err(GblasError::ApiError(ApiError::DimensionMismatch));
        }
        let left = load_rows(a, swap_a);
        let right = load_rows(b, swap_b);
        let t = union_rows(&left, &right, &SemiringAddition(op), self.ncols());
        self.write(&t, &mask, &accum, desc)
    }

    fn apply<
        Mk: MatMask<Self>,
        Acc: BinaryOperator<T, Output = T>,
        Op: UnaryOperator<T>,
        A: Matrix<Scalar = T>,
    >(
        &mut self,
        mask: Option<Mk>,
        accum: Option<Acc>,
        op: Op,
        a: &A,
        desc: Option<Descriptor>,
    ) -> (r: Result<NoValue, GblasError>)
    {
        let swap_a = first_transposed(desc);
        if !shaped_like(self, a, swap_a) {
            return Err(GblasError::ApiError(ApiError::DimensionMismatch));
        }
        let source = load_rows(a, swap_a);
        let t = apply_rows::<T, Op>(&source, self.ncols());
        self.write(&t, &mask, &accum, desc)
    }

    fn apply_1st<
        Mk: MatMask<Self>,
        Acc: BinaryOperator<T, Output = T>,
        Op: BinaryOperator<T, Output = T>,
        A: Matrix<Scalar = T>,
    >(
        &mut self,
        mask: Option<Mk>,
        accum: Option<Acc>,
        op: Op,
        value: T,
        a: &A,
        desc: Option<Descriptor>,
    ) -> (r: Result<NoValue, GblasError>)
    {
        let swap_a = first_transposed(desc);
        if !shaped_like(self, a, swap_a) {
            return Err(GblasError::ApiError(ApiError::DimensionMismatch));
        }
        let source = load_rows(a, swap_a);
        let t = apply_1st_rows(&op, &value, &source, self.ncols());
        self.write(&t, &mask, &accum, desc)
    }

    fn apply_2nd<
        Mk: MatMask<Self>,
        Acc: BinaryOperator<T, Output = T>,
        Op: BinaryOperator<T, Output = T>,
        A: Matrix<Scalar = T>,
    >(
        &mut self,
        mask: Option<Mk>,
        accum: Option<Acc>,
        op: Op,
        a: &A,
        value: T,
        desc: Option<Descriptor>,
    ) -> (r: Result<NoValue, GblasError>)
    {
        let swap_a = first_transposed(desc);
        if !shaped_like(self, a, swap_a) {
            return Err(GblasError::ApiError(ApiError::DimensionMismatch));
        }
        let source = load_rows(a, swap_a);
        let t = apply_2nd_rows(&op, &value, &source, self.ncols());
        self.write(&t, &mask, &accum, desc)
    }

    fn extract<
        Mk: MatMask<Self>,
        Acc: BinaryOperator<T, Output = T>,
        A: Matrix<Scalar = T>,
    >(
        &mut self,
        mask: Option<Mk>,
        accum: Option<Acc>,
        a: &A,
        row_indices: Indices,
        col_indices: Indices,
        desc: Option<Descriptor>,
    ) -> (r: Result<NoValue, GblasError>)
    {
        let swap_a = first_transposed(desc);
        let (height, width) = if swap_a {
            (a.ncols(), a.nrows())
        } else {
            (a.nrows(), a.ncols())
        };
        if row_indices.count(height) != self.nrows() || col_indices.count(width) != self.ncols() {
            return Err(GblasError::ApiError(ApiError::DimensionMismatch));
        }
        if !row_indices.check(height) || !col_indices.check(width) {
            return Err(GblasError::ApiError(ApiError::InvalidIndex));
        }
        let source = load_rows(a, swap_a);
        let t = extract_rows(&source, &row_indices, &col_indices, height, width);
        self.write(&t, &mask, &accum, desc)
    }

    fn assign<
        Mk: MatMask<Self>,
        Acc: BinaryOperator<T, Output = T>,
        A: Matrix<Scalar = T>,
    >(
        &mut self,
        mask: Option<Mk>,
        accum: Option<Acc>,
        a: &A,
        row_indices: Indices,
        col_indices: Indices,
        desc: Option<Descriptor>,
    ) -> (r: Result<NoValue, GblasError>)
    {
        let swap_a = first_transposed(desc);
        let (a_rows, a_cols) = if swap_a {
            (a.ncols(), a.nrows())
        } else {
            (a.nrows(), a.ncols())
        };
        let height = self.nrows();
        let width = self.ncols();
        let ghost rs = row_indices.resolve(height);
        let ghost cs = col_indices.resolve(width);
        if row_indices.count(height) != a_rows || col_indices.count(width) != a_cols {
            return Err(GblasError::ApiError(ApiError::DimensionMismatch));
        }
        if !row_indices.check(height) || !col_indices.check(width) {
            return Err(GblasError::ApiError(ApiError::InvalidIndex));
        }
        let rows_in = match row_indices.index_set() {
            Some(s) => s,
            None => {
                return Err(GblasError::ApiError(ApiError::InvalidValue));
            },
        };
        let cols_in = match col_indices.index_set() {
            Some(s) => s,
            None => {
                return Err(GblasError::ApiError(ApiError::InvalidValue));
            },
        };
        proof {
            lemma_distinct(&row_indices, height);
            lemma_distinct(&col_indices, width);
        }
        let source = load_rows(a, swap_a);
        let t = scatter_rows(&source, &row_indices, &col_indices, height, width);
        proof {
            assert forall|p: (IndexType, IndexType)| p.0 < height && p.1 < width implies (
            #[trigger] region(rs, cs).contains(p)
                <==> rows_in.holds(p.0) && cols_in.holds(p.1)) by {
                assert(rs.contains(p.0) == rows_in.holds(p.0));
                assert(cs.contains(p.1) == cols_in.holds(p.1));
            }
            assert forall|p: (IndexType, IndexType)|
                grid_map(rows_of(t@)).contains_key(p) implies #[trigger] region(rs, cs).contains(
                p,
            ) by {
                let (i, j) = choose|i: IndexType, j: IndexType| #[trigger]
                    sent(operand(a.entries(), swap_a), rs, cs, p, i, j);
                assert(rs[i as int] == p.0 && cs[j as int] == p.1);
            }
        }
        self.write_within(&t, &rows_in, &cols_in, &mask, &accum, desc, Ghost(region(rs, cs)))
    }

    fn assign_col<
        Mk: MatMask<Self>,
        Acc: BinaryOperator<T, Output = T>,
        A: Matrix<Scalar = T>,
    >(
        &mut self,
        mask: Option<Mk>,
        accum: Option<Acc>,
        a: &A,
        row_indices: Indices,
        col_index: IndexType,
        desc: Option<Descriptor>,
    ) -> (r: Result<NoValue, GblasError>)
    {
        let mut list: Vec<IndexType> = Vec::new();
        list.push(col_index);
        proof {
            assert(list@ =~= seq![col_index]);
        }
        self.assign(mask, accum, a, row_indices, Indices::List(list), desc)
    }

    fn assign_row<
        Mk: MatMask<Self>,
        Acc: BinaryOperator<T, Output = T>,
        A: Matrix<Scalar = T>,
    >(
        &mut self,
        mask: Option<Mk>,
        accum: Option<Acc>,
        a: &A,
        row_index: IndexType,
        col_indices: Indices,
        desc: Option<Descriptor>,
    ) -> (r: Result<NoValue, GblasError>)
    {
        let mut list: Vec<IndexType> = Vec::new();
        list.push(row_index);
        proof {
            assert(list@ =~= seq![row_index]);
        }
        self.assign(mask, accum, a, Indices::List(list), col_indices, desc)
    }

    fn assign_value<Mk: MatMask<Self>, Acc: BinaryOperator<T, Output = T>>(
        &mut self,
        mask: Option<Mk>,
        accum: Option<Acc>,
        value: T,
        row_indices: Indices,
        col_indices: Indices,
        desc: Option<Descriptor>,
    ) -> (r: Result<NoValue, GblasError>)
    {
        let height = self.nrows();
        let width = self.ncols();
        let ghost rs = row_indices.resolve(height);
        let ghost cs = col_indices.resolve(width);
        if !row_indices.check(height) || !col_indices.check(width) {
            return Err(GblasError::ApiError(ApiError::InvalidIndex));
        }
        let rows_in = member_set(&row_indices, height);
        let cols_in = member_set(&col_indices, width);
        let t = fill_rows(&value, &row_indices, &col_indices, height, width);
        proof {
            assert forall|p: (IndexType, IndexType)| p.0 < height && p.1 < width implies (
            #[trigger] region(rs, cs).contains(p)
                <==> rows_in.holds(p.0) && cols_in.holds(p.1)) by {
                assert(rs.contains(p.0) == rows_in.holds(p.0));
                assert(cs.contains(p.1) == cols_in.holds(p.1));
            }
        }
        self.write_within(&t, &rows_in, &cols_in, &mask, &accum, desc, Ghost(region(rs, cs)))
    }

    fn reduce<Acc: BinaryOperator<T, Output = T>, Mo: Monoid<T>>(
        &self,
        val: &mut T,
        accum: Option<Acc>,
        op: Mo,
        desc: Option<Descriptor>,
    ) -> (r: Result<NoValue, GblasError>)
    {
        let (rows, cols, values) = match self.extract_tuples() {
            Ok(t) => t,
            Err(_) => vstd::pervasive::unreached(),
        };
        let ghost vals = values@;
        proof {
            assert(values_of(vals, self.entries()));
            let listed = stored_values(self.entries());
            let (rs, cs) = choose|rs: Seq<usize>, cs: Seq<usize>| #[trigger]
                triples_of(rs, cs, listed, self.entries());
            lemma_listing_unique(rows@, cols@, vals, rs, cs, listed, self.entries());
        }
        let mut acc = op.identity();
        let mut n: usize = 0;
        let count = values.len();
        for value in it: values
            invariant
                it.seq() == vals,
                n == it.index(),
                vals.len() == count,
                foldable(vals, op, vals.len()),
                acc == folded(vals, op, n as nat),
        {
            proof {
                lemma_foldable_below(vals, op, (n + 1) as nat, vals.len());
            }
            acc = op.operate(acc, value);
            n += 1;
        }
        match accum {
            Some(f) => {
                let before = duplicate(val);
                *val = f.op(before, acc);
            },
            None => {
                *val = acc;
            },
        }
        Ok(())
    }

    fn kronecker_binary_op<
        Mk: MatMask<Self>,
        Acc: BinaryOperator<T, Output = T>,
        Op: BinaryOperator<T, Output = T>,
        A: Matrix<Scalar = T>,
        B: Matrix<Scalar = T>,
    >(
        &mut self,
        mask: Option<Mk>,
        accum: Option<Acc>,
        op: Op,
        a: &A,
        b: &B,
        desc: Option<Descriptor>,
    ) -> (r: Result<NoValue, GblasError>)
    {
        let swap_a = first_transposed(desc);
        let swap_b = second_transposed(desc);
        let (a_rows, a_cols) = if swap_a {
            (a.ncols(), a.nrows())
        } else {
            (a.nrows(), a.ncols())
        };
        let (b_rows, b_cols) = if swap_b {
            (b.ncols(), b.nrows())
        } else {
            (b.nrows(), b.ncols())
        };
        let fits = match (a_rows.checked_mul(b_rows), a_cols.checked_mul(b_cols)) {
            (Some(rows), Some(cols)) => rows == self.nrows() && cols == self.ncols(),
            _ => false,
        };
        if !fits {
            return Err(GblasError::ApiError(ApiError::DimensionMismatch));
        }
        proof {
            a.lemma_stored_in_range();
            b.lemma_stored_in_range();
        }
        let left = load_rows(a, swap_a);
        let right = load_rows(b, swap_b);
        proof {
            assert(left@.len() * b_rows <= a_rows * b_rows) by (nonlinear_arith)
                requires
                    left@.len() <= a_rows,
            ;
        }
        let t = kron_rows(&left, &right, &op, a_cols, b_rows, b_cols);
        self.write(&t, &mask, &accum, desc)
    }

    fn kronecker_monoid<
        Mk: MatMask<Self>,
        Acc: BinaryOperator<T, Output = T>,
        Mo: Monoid<T>,
        A: Matrix<Scalar = T>,
        B: Matrix<Scalar = T>,
    >(
        &mut self,
        mask: Option<Mk>,
        accum: Option<Acc>,
        op: Mo,
        a: &A,
        b: &B,
        desc: Option<Descriptor>,
    ) -> (r: Result<NoValue, GblasError>)
    {
        let swap_a = first_transposed(desc);
        let swap_b = second_transposed(desc);
        let (a_rows, a_cols) = if swap_a {
            (a.ncols(), a.nrows())
        } else {
            (a.nrows(), a.ncols())
        };
        let (b_rows, b_cols) = if swap_b {
            (b.ncols(), b.nrows())
        } else {
            (b.nrows(), b.ncols())
        };
        let fits = match (a_rows.checked_mul(b_rows), a_cols.checked_mul(b_cols)) {
            (Some(rows), Some(cols)) => rows == self.nrows() && cols == self.ncols(),
            _ => false,
        };
        if !fits {
            return Err(GblasError::ApiError(ApiError::DimensionMismatch));
        }
        proof {
            a.lemma_stored_in_range();
            b.lemma_stored_in_range();
        }
        let left = load_rows(a, swap_a);
        let right = load_rows(b, swap_b);
        proof {
            assert(left@.len() * b_rows <= a_rows * b_rows) by (nonlinear_arith)
                requires
                    left@.len() <= a_rows,
            ;
        }
        let t = kron_rows(&left, &right, &MonoidOperator(op), a_cols, b_rows, b_cols);
        self.write(&t, &mask, &accum, desc)
    }

    fn kronecker_semiring<
        Mk: MatMask<Self>,
        Acc: BinaryOperator<T, Output = T>,
        S: Semiring<T, Output = T>,
        A: Matrix<Scalar = T>,
        B: Matrix<Scalar = T>,
    >(
        &mut self,
        mask: Option<Mk>,
        accum: Option<Acc>,
        op: S,
        a: &A,
        b: &B,
        desc: Option<Descriptor>,
    ) -> (r: Result<NoValue, GblasError>)
    {
        let swap_a = first_transposed(desc);
        let swap_b = second_transposed(desc);
        let (a_rows, a_cols) = if swap_a {
            (a.ncols(), a.nrows())
        } else {
            (a.nrows(), a.ncols())
        };
        let (b_rows, b_cols) = if swap_b {
            (b.ncols(), b.nrows())
        } else {
            (b.nrows(), b.ncols())
        };
        let fits = match (a_rows.checked_mul(b_rows), a_cols.checked_mul(b_cols)) {
            (Some(rows), Some(cols)) => rows == self.nrows() && cols == self.ncols(),
            _ => false,
        };
        if !fits {
            return Err(GblasError::ApiError(ApiError::DimensionMismatch));
        }
        proof {
            a.lemma_stored_in_range();
            b.lemma_stored_in_range();
        }
        let left = load_rows(a, swap_a);
        let right = load_rows(b, swap_b);
        proof {
            assert(left@.len() * b_rows <= a_rows * b_rows) by (nonlinear_arith)
                requires
                    left@.len() <= a_rows,
            ;
        }
        let t = kron_rows(&left, &right, &SemiringMultiplication(op), a_cols, b_rows, b_cols);
        self.write(&t, &mask, &accum, desc)
    }

    fn transpose<
        Mk: MatMask<Self>,
        Acc: BinaryOperator<T, Output = T>,
        A: Matrix<Scalar = T>,
    >(
        &mut self,
        mask: Option<Mk>,
        accum: Option<Acc>,
        a: &A,
        desc: Option<Descriptor>,
    ) -> (r: Result<NoValue, GblasError>)
    {
        let swap_a = first_transposed(desc);
        if !shaped_like(self, a, !swap_a) {
            return Err(GblasError::ApiError(ApiError::DimensionMismatch));
        }
        proof {
            lemma_transposed_twice(a.entries());
        }
        let t = load_rows(a, !swap_a);
        self.write(&t, &mask, &accum, desc)
    }
}

/// Whether an operand, read transposed if `swap` is set, has the dimensions
/// of the output.
pub fn shaped_like<C: Matrix, A: Matrix>(c: &C, a: &A, swap: bool) -> (same: bool)
    ensures
        same == same_shape(c, a, swap),
{
    if swap {
        a.ncols() == c.nrows() && a.nrows() == c.ncols()
    } else {
        a.nrows() == c.nrows() && a.ncols() == c.ncols()
    }
}

} // verus!
