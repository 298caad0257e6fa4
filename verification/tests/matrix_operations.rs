use gblas::algebra::{
    AbsoluteOp, Addition, MaxSecondSemiring, MinFirstSemiring, MinPlusSemiring, Multiplication,
    PlusMonoid, PlusTimesSemiring, Subtraction,
};
use gblas::backend::SparseMatrix;
use gblas::descriptor::Descriptor;
use gblas::mask::MatMask;
use gblas::indices::Indices;
use gblas::matrix::Matrix;
use gblas::operations::MatOps;
use gblas::structure_mask::MatrixStructureMask;
use gblas::{ApiError, GblasError};

fn matrix(rows: usize, cols: usize, entries: &[(usize, usize, i64)]) -> SparseMatrix<i64> {
    let mut m = SparseMatrix::<i64>::new(rows, cols).unwrap();
    for &(r, c, v) in entries {
        m.set_element(r, c, v).unwrap();
    }
    m
}

fn dense(m: &SparseMatrix<i64>) -> Vec<Vec<Option<i64>>> {
    let mut out = vec![vec![None; m.ncols()]; m.nrows()];
    let (rows, cols, values) = m.extract_tuples().unwrap();
    for k in 0..rows.len() {
        out[rows[k]][cols[k]] = Some(values[k]);
    }
    out
}

fn no_mask() -> Option<MatrixStructureMask<'static, SparseMatrix<i64>>> {
    None
}

fn no_accum() -> Option<Addition<i64>> {
    None
}

// a small generator of repeatable pseudo-random numbers
fn next(state: &mut u64) -> u64 {
    *state = state.wrapping_mul(6364136223846793005).wrapping_add(1442695040888963407);
    *state >> 33
}

fn random_matrix(rows: usize, cols: usize, state: &mut u64) -> SparseMatrix<i64> {
    let mut m = SparseMatrix::<i64>::new(rows, cols).unwrap();
    for r in 0..rows {
        for c in 0..cols {
            if next(state) % 3 == 0 {
                m.set_element(r, c, (next(state) % 19) as i64 - 9).unwrap();
            }
        }
    }
    m
}

#[test]
fn mxm_matches_the_dense_triple_loop() {
    let mut state = 7u64;
    for round in 0..40usize {
        let m = 1 + round % 8;
        let k = 1 + (round / 2) % 8;
        let n = 1 + (round / 3) % 8;
        let a = random_matrix(m, k, &mut state);
        let b = random_matrix(k, n, &mut state);
        let mut c = SparseMatrix::<i64>::new(m, n).unwrap();
        let res = c.mxm(no_mask(), no_accum(), PlusTimesSemiring::new(), &a, &b, None);
        assert_eq!(res, Ok(()));
        let (da, db, dc) = (dense(&a), dense(&b), dense(&c));
        let mut count = 0;
        for i in 0..m {
            for j in 0..n {
                let mut sum: Option<i64> = None;
                for x in 0..k {
                    if let (Some(p), Some(q)) = (da[i][x], db[x][j]) {
                        sum = Some(sum.unwrap_or(0) + p * q);
                    }
                }
                assert_eq!(dc[i][j], sum);
                if sum.is_some() {
                    count += 1;
                }
            }
        }
        assert_eq!(c.nvals(), count);
    }
}

#[test]
fn mxm_small_exact_values() {
    let a = matrix(2, 3, &[(0, 0, 1), (0, 2, 2), (1, 1, 3)]);
    let b = matrix(3, 2, &[(0, 0, 4), (1, 0, 5), (2, 0, 6), (2, 1, 7)]);
    let mut c = SparseMatrix::<i64>::new(2, 2).unwrap();
    c.mxm(no_mask(), no_accum(), PlusTimesSemiring::new(), &a, &b, None).unwrap();
    let (rows, cols, values) = c.extract_tuples().unwrap();
    assert_eq!(rows, vec![0, 0, 1]);
    assert_eq!(cols, vec![0, 1, 0]);
    assert_eq!(values, vec![16, 14, 15]);

    let mut c = SparseMatrix::<i64>::new(2, 2).unwrap();
    c.mxm(no_mask(), no_accum(), MinPlusSemiring::new(), &a, &b, None).unwrap();
    let (_, _, values) = c.extract_tuples().unwrap();
    assert_eq!(values, vec![5, 9, 8]);
}

#[test]
fn mxm_reads_operands_transposed() {
    let a = matrix(3, 2, &[(0, 0, 1), (2, 0, 2), (1, 1, 3)]);
    let b = matrix(2, 3, &[(0, 0, 4), (0, 1, 5), (0, 2, 6), (1, 2, 7)]);
    let desc = Descriptor { transpose_a: true, transpose_b: true, ..Descriptor::new() };
    let mut c = SparseMatrix::<i64>::new(2, 2).unwrap();
    c.mxm(no_mask(), no_accum(), PlusTimesSemiring::new(), &a, &b, Some(desc)).unwrap();
    let (rows, cols, values) = c.extract_tuples().unwrap();
    assert_eq!(rows, vec![0, 0, 1]);
    assert_eq!(cols, vec![0, 1, 0]);
    assert_eq!(values, vec![16, 14, 15]);
}

#[test]
fn mxm_rejects_operands_that_do_not_conform() {
    let e = Err(GblasError::ApiError(ApiError::DimensionMismatch));
    let a = matrix(2, 3, &[(0, 0, 1)]);
    let b = matrix(3, 2, &[(0, 0, 1)]);
    let mut c = matrix(2, 3, &[(1, 1, 9)]);
    assert_eq!(c.mxm(no_mask(), no_accum(), PlusTimesSemiring::new(), &a, &b, None), e);
    let mut c = matrix(3, 2, &[(1, 1, 9)]);
    assert_eq!(c.mxm(no_mask(), no_accum(), PlusTimesSemiring::new(), &a, &b, None), e);
    let mut c = matrix(2, 2, &[(1, 1, 9)]);
    assert_eq!(c.mxm(no_mask(), no_accum(), PlusTimesSemiring::new(), &a, &a, None), e);
    assert_eq!(c.nvals(), 1);
    assert_eq!(c.extract_element(1, 1), Ok(9));
}

#[test]
fn mask_accumulator_and_replace_compose() {
    // the result of the operation is `t`; `c` holds values at some positions
    let t_entries = [(0, 0, 10), (0, 1, 20), (1, 0, 30), (1, 2, 40)];
    let c_entries = [(0, 0, 1), (0, 2, 2), (1, 0, 3), (1, 1, 4), (2, 2, 5)];
    let m_entries = [(0, 0, 0), (0, 2, 0), (1, 2, 0), (2, 0, 0)];
    let t = matrix(3, 3, &t_entries);
    let m = matrix(3, 3, &m_entries);
    let identity = matrix(3, 3, &[(0, 0, 1), (1, 1, 1), (2, 2, 1)]);
    for case in 0..16usize {
        let with_mask = case & 1 != 0;
        let with_accum = case & 2 != 0;
        let complement = case & 4 != 0;
        let replace = case & 8 != 0;
        let desc =
            Descriptor { mask_complement: complement, replace_output: replace, ..Descriptor::new() };
        let mut c = matrix(3, 3, &c_entries);
        let mask = if with_mask { Some(m.structure()) } else { None };
        let accum = if with_accum { Some(Subtraction::new()) } else { None };
        // t == t * identity
        let res = c.mxm(mask, accum, PlusTimesSemiring::new(), &t, &identity, Some(desc));
        assert_eq!(res, Ok(()));
        let (dc, dt, dm, got) = (dense(&matrix(3, 3, &c_entries)), dense(&t), dense(&m), dense(&c));
        for i in 0..3 {
            for j in 0..3 {
                let admitted = !with_mask || (dm[i][j].is_some() != complement);
                let expected = if admitted {
                    match (dc[i][j], dt[i][j]) {
                        (Some(x), Some(y)) if with_accum => Some(x - y),
                        (Some(x), None) if with_accum => Some(x),
                        (_, y) => y,
                    }
                } else if replace {
                    None
                } else {
                    dc[i][j]
                };
                assert_eq!(got[i][j], expected, "case {} at ({}, {})", case, i, j);
            }
        }
    }
}

#[test]
fn element_wise_multiply_is_an_intersection() {
    let a = matrix(2, 3, &[(0, 0, 2), (0, 2, 3), (1, 1, 5)]);
    let b = matrix(2, 3, &[(0, 0, 7), (0, 1, 1), (1, 1, 11), (1, 2, 13)]);
    let mut c = SparseMatrix::<i64>::new(2, 3).unwrap();
    c.e_wise_mult_binary_op(no_mask(), no_accum(), Subtraction::new(), &a, &b, None).unwrap();
    assert_eq!(c.extract_tuples().unwrap(), (vec![0, 1], vec![0, 1], vec![-5, -6]));
    let mut c = SparseMatrix::<i64>::new(2, 3).unwrap();
    c.e_wise_mult_monoid(no_mask(), no_accum(), PlusMonoid::new(), &a, &b, None).unwrap();
    assert_eq!(c.extract_tuples().unwrap(), (vec![0, 1], vec![0, 1], vec![9, 16]));
    let mut c = SparseMatrix::<i64>::new(2, 3).unwrap();
    c.e_wise_mult_semiring(no_mask(), no_accum(), PlusTimesSemiring::new(), &a, &b, None).unwrap();
    assert_eq!(c.extract_tuples().unwrap(), (vec![0, 1], vec![0, 1], vec![14, 55]));
}

#[test]
fn element_wise_add_is_a_union() {
    let a = matrix(2, 3, &[(0, 0, 2), (0, 2, 3), (1, 1, 5)]);
    let b = matrix(2, 3, &[(0, 0, 7), (0, 1, 1), (1, 1, 11), (1, 2, 13)]);
    let mut c = SparseMatrix::<i64>::new(2, 3).unwrap();
    c.e_wise_add_binary_op(no_mask(), no_accum(), Subtraction::new(), &a, &b, None).unwrap();
    assert_eq!(
        c.extract_tuples().unwrap(),
        (vec![0, 0, 0, 1, 1], vec![0, 1, 2, 1, 2], vec![-5, 1, 3, -6, 13])
    );
    let mut c = SparseMatrix::<i64>::new(2, 3).unwrap();
    c.e_wise_add_monoid(no_mask(), no_accum(), PlusMonoid::new(), &a, &b, None).unwrap();
    assert_eq!(
        c.extract_tuples().unwrap(),
        (vec![0, 0, 0, 1, 1], vec![0, 1, 2, 1, 2], vec![9, 1, 3, 16, 13])
    );
    let mut c = SparseMatrix::<i64>::new(2, 3).unwrap();
    c.e_wise_add_semiring(no_mask(), no_accum(), MinPlusSemiring::new(), &a, &b, None).unwrap();
    assert_eq!(
        c.extract_tuples().unwrap(),
        (vec![0, 0, 0, 1, 1], vec![0, 1, 2, 1, 2], vec![2, 1, 3, 5, 13])
    );
    let mut c = SparseMatrix::<i64>::new(3, 2).unwrap();
    assert_eq!(
        c.e_wise_add_binary_op(no_mask(), no_accum(), Addition::new(), &a, &b, None),
        Err(GblasError::ApiError(ApiError::DimensionMismatch))
    );
}

#[test]
fn apply_keeps_the_pattern() {
    let a = matrix(2, 2, &[(0, 1, -4), (1, 0, 6)]);
    let mut c = SparseMatrix::<i64>::new(2, 2).unwrap();
    c.apply(no_mask(), no_accum(), AbsoluteOp, &a, None).unwrap();
    assert_eq!(c.extract_tuples().unwrap(), (vec![0, 1], vec![1, 0], vec![4, 6]));
    let mut c = SparseMatrix::<i64>::new(2, 2).unwrap();
    c.apply_1st(no_mask(), no_accum(), Subtraction::new(), 10, &a, None).unwrap();
    assert_eq!(c.extract_tuples().unwrap(), (vec![0, 1], vec![1, 0], vec![14, 4]));
    let mut c = SparseMatrix::<i64>::new(2, 2).unwrap();
    c.apply_2nd(no_mask(), no_accum(), Subtraction::new(), &a, 10, None).unwrap();
    assert_eq!(c.extract_tuples().unwrap(), (vec![0, 1], vec![1, 0], vec![-14, -4]));
    let mut c = matrix(2, 2, &[(0, 1, 100), (1, 1, 1)]);
    c.apply_1st(no_mask(), Some(Addition::new()), Multiplication::new(), 2, &a, None).unwrap();
    assert_eq!(c.extract_tuples().unwrap(), (vec![0, 1, 1], vec![1, 0, 1], vec![92, 12, 1]));
}

#[test]
fn transpose_swaps_rows_and_columns() {
    let a = matrix(2, 3, &[(0, 1, 1), (0, 2, 2), (1, 0, 3)]);
    let mut c = SparseMatrix::<i64>::new(3, 2).unwrap();
    c.transpose(no_mask(), no_accum(), &a, None).unwrap();
    assert_eq!(c.extract_tuples().unwrap(), (vec![0, 1, 2], vec![1, 0, 0], vec![3, 1, 2]));
    // transposing what is read transposed gives the operand back
    let desc = Descriptor { transpose_a: true, ..Descriptor::new() };
    let mut c = SparseMatrix::<i64>::new(2, 3).unwrap();
    c.transpose(no_mask(), no_accum(), &a, Some(desc)).unwrap();
    assert_eq!(c, a);
    let mut c = SparseMatrix::<i64>::new(2, 3).unwrap();
    assert_eq!(
        c.transpose(no_mask(), no_accum(), &a, None),
        Err(GblasError::ApiError(ApiError::DimensionMismatch))
    );
}

#[test]
fn reduce_folds_all_values() {
    let a = matrix(2, 3, &[(0, 1, 1), (0, 2, 2), (1, 0, 3)]);
    let mut val = 100;
    a.reduce(&mut val, no_accum(), PlusMonoid::new(), None).unwrap();
    assert_eq!(val, 6);
    let mut val = 100;
    a.reduce(&mut val, Some(Subtraction::new()), PlusMonoid::new(), None).unwrap();
    assert_eq!(val, 94);
    let empty = SparseMatrix::<i64>::new(2, 2).unwrap();
    let mut val = 100;
    empty.reduce(&mut val, no_accum(), PlusMonoid::new(), None).unwrap();
    assert_eq!(val, 0);
}

#[test]
fn selector_semirings_propagate_values() {
    let a = matrix(1, 2, &[(0, 0, 5), (0, 1, 7)]);
    let b = matrix(2, 1, &[(0, 0, 100), (1, 0, 200)]);
    let mut c = SparseMatrix::<i64>::new(1, 1).unwrap();
    c.mxm(no_mask(), no_accum(), MinFirstSemiring::new(), &a, &b, None).unwrap();
    assert_eq!(c.extract_element(0, 0), Ok(5));
    c.mxm(no_mask(), no_accum(), MaxSecondSemiring::new(), &a, &b, None).unwrap();
    assert_eq!(c.extract_element(0, 0), Ok(200));
}

#[test]
fn extract_selects_rows_and_columns() {
    let a = matrix(3, 4, &[(0, 0, 1), (0, 3, 2), (1, 1, 3), (2, 0, 4), (2, 2, 5)]);
    let mut c = SparseMatrix::<i64>::new(2, 3).unwrap();
    let rows = Indices::List(vec![2, 0]);
    let cols = Indices::List(vec![3, 0, 0]);
    c.extract(no_mask(), no_accum(), &a, rows, cols, None).unwrap();
    assert_eq!(
        c.extract_tuples().unwrap(),
        (vec![0, 0, 1, 1, 1], vec![1, 2, 0, 1, 2], vec![4, 4, 2, 1, 1])
    );
    let mut c = SparseMatrix::<i64>::new(3, 4).unwrap();
    c.extract(no_mask(), no_accum(), &a, Indices::All, Indices::All, None).unwrap();
    assert_eq!(c, a);
}

#[test]
fn extract_rejects_bad_shapes_and_indices() {
    let a = matrix(3, 4, &[(0, 0, 1)]);
    let mut c = matrix(2, 2, &[(1, 1, 9)]);
    assert_eq!(
        c.extract(no_mask(), no_accum(), &a, Indices::All, Indices::List(vec![0, 1]), None),
        Err(GblasError::ApiError(ApiError::DimensionMismatch))
    );
    assert_eq!(
        c.extract(
            no_mask(),
            no_accum(),
            &a,
            Indices::List(vec![0, 3]),
            Indices::List(vec![0, 1]),
            None
        ),
        Err(GblasError::ApiError(ApiError::InvalidIndex))
    );
    assert_eq!(
        c.extract(
            no_mask(),
            no_accum(),
            &a,
            Indices::List(vec![0, 1]),
            Indices::List(vec![4, 1]),
            None
        ),
        Err(GblasError::ApiError(ApiError::InvalidIndex))
    );
    assert_eq!(c.extract_tuples().unwrap(), (vec![1], vec![1], vec![9]));
}

#[test]
fn assign_writes_to_named_positions_only() {
    let a = matrix(2, 2, &[(0, 0, 10), (1, 1, 20)]);
    let mut c = matrix(4, 4, &[(0, 0, 1), (3, 1, 2), (3, 3, 3), (1, 3, 4), (2, 2, 5)]);
    c.assign(
        no_mask(),
        no_accum(),
        &a,
        Indices::List(vec![3, 1]),
        Indices::List(vec![3, 1]),
        None,
    )
    .unwrap();
    // in the region rows {1, 3} x columns {1, 3}: (3,3) <- 10, (1,1) <- 20, the rest emptied
    assert_eq!(
        c.extract_tuples().unwrap(),
        (vec![0, 1, 2, 3], vec![0, 1, 2, 3], vec![1, 20, 5, 10])
    );
    let mut c = matrix(4, 4, &[(0, 0, 1), (3, 1, 2), (3, 3, 3), (1, 3, 4), (2, 2, 5)]);
    c.assign(
        no_mask(),
        Some(Addition::new()),
        &a,
        Indices::List(vec![3, 1]),
        Indices::List(vec![3, 1]),
        None,
    )
    .unwrap();
    assert_eq!(
        c.extract_tuples().unwrap(),
        (vec![0, 1, 1, 2, 3, 3], vec![0, 1, 3, 2, 1, 3], vec![1, 20, 4, 5, 2, 13])
    );
}

#[test]
fn assign_rejects_bad_shapes_and_lists() {
    let a = matrix(2, 2, &[(0, 0, 10)]);
    let mut c = matrix(4, 4, &[(0, 0, 1)]);
    assert_eq!(
        c.assign(no_mask(), no_accum(), &a, Indices::All, Indices::List(vec![0, 1]), None),
        Err(GblasError::ApiError(ApiError::DimensionMismatch))
    );
    assert_eq!(
        c.assign(
            no_mask(),
            no_accum(),
            &a,
            Indices::List(vec![0, 4]),
            Indices::List(vec![0, 1]),
            None
        ),
        Err(GblasError::ApiError(ApiError::InvalidIndex))
    );
    assert_eq!(
        c.assign(
            no_mask(),
            no_accum(),
            &a,
            Indices::List(vec![1, 1]),
            Indices::List(vec![0, 1]),
            None
        ),
        Err(GblasError::ApiError(ApiError::InvalidValue))
    );
    assert_eq!(c.extract_tuples().unwrap(), (vec![0], vec![0], vec![1]));
}

#[test]
fn assign_row_column_and_value() {
    let column = matrix(2, 1, &[(0, 0, 7), (1, 0, 8)]);
    let mut c = matrix(3, 3, &[(0, 2, 1), (1, 1, 2)]);
    c.assign_col(no_mask(), no_accum(), &column, Indices::List(vec![2, 0]), 2, None).unwrap();
    assert_eq!(c.extract_tuples().unwrap(), (vec![0, 1, 2], vec![2, 1, 2], vec![8, 2, 7]));
    let row = matrix(1, 2, &[(0, 1, 9)]);
    c.assign_row(no_mask(), no_accum(), &row, 1, Indices::List(vec![0, 1]), None).unwrap();
    assert_eq!(c.extract_tuples().unwrap(), (vec![0, 1, 2], vec![2, 1, 2], vec![8, 9, 7]));
    c.assign_value(
        no_mask(),
        Some(Subtraction::new()),
        100,
        Indices::List(vec![0, 0]),
        Indices::All,
        None,
    )
    .unwrap();
    assert_eq!(
        c.extract_tuples().unwrap(),
        (vec![0, 0, 0, 1, 2], vec![0, 1, 2, 1, 2], vec![100, 100, -92, 9, 7])
    );
    assert_eq!(
        c.assign_value(no_mask(), no_accum(), 1, Indices::List(vec![3]), Indices::All, None),
        Err(GblasError::ApiError(ApiError::InvalidIndex))
    );
}

#[test]
fn kronecker_places_blocks() {
    let a = matrix(2, 2, &[(0, 0, 2), (1, 1, 3)]);
    let b = matrix(2, 3, &[(0, 1, 5), (1, 0, 7), (1, 2, 11)]);
    let mut c = SparseMatrix::<i64>::new(4, 6).unwrap();
    c.kronecker_binary_op(no_mask(), no_accum(), Multiplication::new(), &a, &b, None).unwrap();
    let (da, db, dc) = (dense(&a), dense(&b), dense(&c));
    for ia in 0..2 {
        for ja in 0..2 {
            for ib in 0..2 {
                for jb in 0..3 {
                    let expected = match (da[ia][ja], db[ib][jb]) {
                        (Some(x), Some(y)) => Some(x * y),
                        _ => None,
                    };
                    assert_eq!(dc[ia * 2 + ib][ja * 3 + jb], expected);
                }
            }
        }
    }
    assert_eq!(c.nvals(), 6);
    let mut c = SparseMatrix::<i64>::new(4, 6).unwrap();
    c.kronecker_monoid(no_mask(), no_accum(), PlusMonoid::new(), &a, &b, None).unwrap();
    assert_eq!(c.extract_element(0, 1), Ok(7));
    assert_eq!(c.extract_element(3, 5), Ok(14));
    let mut c = SparseMatrix::<i64>::new(4, 6).unwrap();
    c.kronecker_semiring(no_mask(), no_accum(), MinPlusSemiring::new(), &a, &b, None).unwrap();
    assert_eq!(c.extract_element(1, 0), Ok(9));
    let mut c = SparseMatrix::<i64>::new(4, 5).unwrap();
    assert_eq!(
        c.kronecker_binary_op(no_mask(), no_accum(), Multiplication::new(), &a, &b, None),
        Err(GblasError::ApiError(ApiError::DimensionMismatch))
    );
}
