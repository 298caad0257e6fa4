use gblas::algebra::{
    AbsoluteOp, Addition, MinPlusSemiring, Multiplication, PlusMonoid, PlusTimesSemiring,
    Subtraction,
};
use gblas::backend::{SimpleVec, SparseMatrix};
use gblas::descriptor::Descriptor;
use gblas::indices::Indices;
use gblas::mask::VecMask;
use gblas::matrix::Matrix;
use gblas::operations::VecOps;
use gblas::structure_mask::VectorStructureMask;
use gblas::vector::Vector;
use gblas::{ApiError, GblasError};

fn vector(size: usize, entries: &[(usize, i64)]) -> SimpleVec<i64> {
    let mut v = SimpleVec::<i64>::new(size).unwrap();
    for &(i, x) in entries {
        v.set_element(i, x).unwrap();
    }
    v
}

fn matrix(rows: usize, cols: usize, entries: &[(usize, usize, i64)]) -> SparseMatrix<i64> {
    let mut m = SparseMatrix::<i64>::new(rows, cols).unwrap();
    for &(r, c, v) in entries {
        m.set_element(r, c, v).unwrap();
    }
    m
}

fn no_mask() -> Option<VectorStructureMask<'static, SimpleVec<i64>>> {
    None
}

fn no_accum() -> Option<Addition<i64>> {
    None
}

#[test]
fn vxm_and_mxv_multiply() {
    let a = matrix(2, 3, &[(0, 0, 1), (0, 2, 2), (1, 1, 3), (1, 2, 4)]);
    let u = vector(2, &[(0, 10), (1, 100)]);
    let mut w = SimpleVec::<i64>::new(3).unwrap();
    w.vxm(no_mask(), no_accum(), PlusTimesSemiring::new(), &u, &a, None).unwrap();
    assert_eq!(w.data, vec![(0, 10), (1, 300), (2, 420)]);

    let v = vector(3, &[(0, 5), (2, 7)]);
    let mut w = SimpleVec::<i64>::new(2).unwrap();
    w.mxv(no_mask(), no_accum(), PlusTimesSemiring::new(), &a, &v, None).unwrap();
    assert_eq!(w.data, vec![(0, 19), (1, 28)]);

    let mut w = SimpleVec::<i64>::new(2).unwrap();
    w.mxv(no_mask(), no_accum(), MinPlusSemiring::new(), &a, &v, None).unwrap();
    assert_eq!(w.data, vec![(0, 6), (1, 11)]);

    // the matrix read transposed
    let t = Descriptor { transpose_a: true, transpose_b: true, ..Descriptor::new() };
    let mut w = SimpleVec::<i64>::new(2).unwrap();
    w.vxm(no_mask(), no_accum(), PlusTimesSemiring::new(), &v, &a, Some(t)).unwrap();
    assert_eq!(w.data, vec![(0, 19), (1, 28)]);
    let mut w = SimpleVec::<i64>::new(3).unwrap();
    w.mxv(no_mask(), no_accum(), PlusTimesSemiring::new(), &a, &u, Some(t)).unwrap();
    assert_eq!(w.data, vec![(0, 10), (1, 300), (2, 420)]);

    let mut w = SimpleVec::<i64>::new(4).unwrap();
    assert_eq!(
        w.vxm(no_mask(), no_accum(), PlusTimesSemiring::new(), &u, &a, None),
        Err(GblasError::ApiError(ApiError::DimensionMismatch))
    );
    assert_eq!(
        w.mxv(no_mask(), no_accum(), PlusTimesSemiring::new(), &a, &u, None),
        Err(GblasError::ApiError(ApiError::DimensionMismatch))
    );
}

#[test]
fn vector_mask_accumulator_and_replace_compose() {
    let t_entries = [(0, 10), (1, 20), (4, 30)];
    let c_entries = [(0, 1), (2, 2), (4, 3), (5, 4)];
    let m_entries = [(0, 0), (1, 0), (2, 0), (3, 0)];
    let t = vector(6, &t_entries);
    let m = vector(6, &m_entries);
    for case in 0..16usize {
        let with_mask = case & 1 != 0;
        let with_accum = case & 2 != 0;
        let complement = case & 4 != 0;
        let replace = case & 8 != 0;
        let desc =
            Descriptor { mask_complement: complement, replace_output: replace, ..Descriptor::new() };
        let mut c = vector(6, &c_entries);
        let mask = if with_mask { Some(m.structure()) } else { None };
        let accum = if with_accum { Some(Subtraction::new()) } else { None };
        assert_eq!(c.transpose(mask, accum, &t, Some(desc)), Ok(()));
        for i in 0..6usize {
            let old = c_entries.iter().find(|e| e.0 == i).map(|e| e.1);
            let new = t_entries.iter().find(|e| e.0 == i).map(|e| e.1);
            let masked = m_entries.iter().any(|e| e.0 == i);
            let admitted = !with_mask || (masked != complement);
            let expected = if admitted {
                match (old, new) {
                    (Some(x), Some(y)) if with_accum => Some(x - y),
                    (Some(x), None) if with_accum => Some(x),
                    (_, y) => y,
                }
            } else if replace {
                None
            } else {
                old
            };
            assert_eq!(c.extract_element(i).ok().copied(), expected, "case {} at {}", case, i);
        }
    }
}

#[test]
fn vector_element_wise_operations() {
    let u = vector(5, &[(0, 2), (2, 3), (4, 5)]);
    let v = vector(5, &[(0, 7), (1, 1), (4, 11)]);
    let mut w = SimpleVec::<i64>::new(5).unwrap();
    w.e_wise_mult_binary_op(no_mask(), no_accum(), Subtraction::new(), &u, &v, None).unwrap();
    assert_eq!(w.data, vec![(0, -5), (4, -6)]);
    w.e_wise_mult_monoid(no_mask(), no_accum(), PlusMonoid::new(), &u, &v, None).unwrap();
    assert_eq!(w.data, vec![(0, 9), (4, 16)]);
    w.e_wise_mult_semiring(no_mask(), no_accum(), PlusTimesSemiring::new(), &u, &v, None).unwrap();
    assert_eq!(w.data, vec![(0, 14), (4, 55)]);
    w.e_wise_add_binary_op(no_mask(), no_accum(), Subtraction::new(), &u, &v, None).unwrap();
    assert_eq!(w.data, vec![(0, -5), (1, 1), (2, 3), (4, -6)]);
    w.e_wise_add_monoid(no_mask(), no_accum(), PlusMonoid::new(), &u, &v, None).unwrap();
    assert_eq!(w.data, vec![(0, 9), (1, 1), (2, 3), (4, 16)]);
    w.e_wise_add_semiring(no_mask(), no_accum(), MinPlusSemiring::new(), &u, &v, None).unwrap();
    assert_eq!(w.data, vec![(0, 2), (1, 1), (2, 3), (4, 5)]);
    let short = vector(4, &[]);
    assert_eq!(
        w.e_wise_add_binary_op(no_mask(), no_accum(), Addition::new(), &u, &short, None),
        Err(GblasError::ApiError(ApiError::DimensionMismatch))
    );
    assert_eq!(w.data, vec![(0, 2), (1, 1), (2, 3), (4, 5)]);
}

#[test]
fn vector_apply_operations() {
    let u = vector(4, &[(1, -4), (3, 6)]);
    let mut w = SimpleVec::<i64>::new(4).unwrap();
    w.apply(no_mask(), no_accum(), AbsoluteOp, &u, None).unwrap();
    assert_eq!(w.data, vec![(1, 4), (3, 6)]);
    w.apply_1st(no_mask(), no_accum(), Subtraction::new(), 10, &u, None).unwrap();
    assert_eq!(w.data, vec![(1, 14), (3, 4)]);
    w.apply_2nd(no_mask(), no_accum(), Subtraction::new(), &u, 10, None).unwrap();
    assert_eq!(w.data, vec![(1, -14), (3, -4)]);
    w.apply_1st(no_mask(), Some(Addition::new()), Multiplication::new(), 2, &u, None).unwrap();
    assert_eq!(w.data, vec![(1, -22), (3, 8)]);
}

#[test]
fn vector_extract_and_assign() {
    let u = vector(5, &[(0, 1), (2, 3), (4, 5)]);
    let mut w = SimpleVec::<i64>::new(4).unwrap();
    w.extract(no_mask(), no_accum(), &u, Indices::List(vec![4, 1, 0, 4]), None).unwrap();
    assert_eq!(w.data, vec![(0, 5), (2, 1), (3, 5)]);
    assert_eq!(
        w.extract(no_mask(), no_accum(), &u, Indices::List(vec![4, 1, 0]), None),
        Err(GblasError::ApiError(ApiError::DimensionMismatch))
    );
    assert_eq!(
        w.extract(no_mask(), no_accum(), &u, Indices::List(vec![4, 1, 0, 5]), None),
        Err(GblasError::ApiError(ApiError::InvalidIndex))
    );

    let a = matrix(3, 3, &[(0, 1, 7), (2, 1, 9), (2, 2, 1)]);
    let mut w = SimpleVec::<i64>::new(2).unwrap();
    w.extract_col(no_mask(), no_accum(), &a, Indices::List(vec![2, 1]), 1, None).unwrap();
    assert_eq!(w.data, vec![(0, 9)]);
    assert_eq!(
        w.extract_col(no_mask(), no_accum(), &a, Indices::List(vec![2, 1]), 3, None),
        Err(GblasError::ApiError(ApiError::InvalidIndex))
    );

    let small = vector(2, &[(0, 10), (1, 20)]);
    let mut c = vector(5, &[(0, 1), (1, 2), (3, 4)]);
    c.assign(no_mask(), no_accum(), &small, Indices::List(vec![3, 1]), None).unwrap();
    assert_eq!(c.data, vec![(0, 1), (1, 20), (3, 10)]);
    let half = vector(2, &[(1, 20)]);
    c.assign(no_mask(), no_accum(), &half, Indices::List(vec![3, 0]), None).unwrap();
    assert_eq!(c.data, vec![(0, 20), (1, 20)]);
    assert_eq!(
        c.assign(no_mask(), no_accum(), &small, Indices::List(vec![3, 3]), None),
        Err(GblasError::ApiError(ApiError::InvalidValue))
    );
    assert_eq!(
        c.assign(no_mask(), no_accum(), &small, Indices::List(vec![3, 5]), None),
        Err(GblasError::ApiError(ApiError::InvalidIndex))
    );
    assert_eq!(
        c.assign(no_mask(), no_accum(), &small, Indices::List(vec![3]), None),
        Err(GblasError::ApiError(ApiError::DimensionMismatch))
    );
    c.assign_value(no_mask(), Some(Addition::new()), 5, Indices::List(vec![4, 0, 4]), None)
        .unwrap();
    assert_eq!(c.data, vec![(0, 25), (1, 20), (4, 5)]);
    c.assign_value(no_mask(), no_accum(), 0, Indices::All, None).unwrap();
    assert_eq!(c.data, vec![(0, 0), (1, 0), (2, 0), (3, 0), (4, 0)]);
}

#[test]
fn vector_reductions() {
    let u = vector(5, &[(0, 1), (2, 3), (4, 5)]);
    let mut val = 100;
    u.reduce(&mut val, no_accum(), PlusMonoid::new(), None).unwrap();
    assert_eq!(val, 9);
    u.reduce(&mut val, Some(Subtraction::new()), PlusMonoid::new(), None).unwrap();
    assert_eq!(val, 0);

    let a = matrix(3, 3, &[(0, 0, 10), (0, 1, 3), (0, 2, 2), (2, 1, 9)]);
    let mut w = SimpleVec::<i64>::new(3).unwrap();
    w.reduce_binary_op(no_mask(), no_accum(), Subtraction::new(), &a, None).unwrap();
    assert_eq!(w.data, vec![(0, 5), (2, 9)]);
    w.reduce_monoid(no_mask(), no_accum(), PlusMonoid::new(), &a, None).unwrap();
    assert_eq!(w.data, vec![(0, 15), (2, 9)]);
    let t = Descriptor { transpose_a: true, ..Descriptor::new() };
    w.reduce_monoid(no_mask(), no_accum(), PlusMonoid::new(), &a, Some(t)).unwrap();
    assert_eq!(w.data, vec![(0, 10), (1, 12), (2, 2)]);
}

#[test]
fn vector_kronecker_places_blocks() {
    let a = vector(2, &[(1, 3)]);
    let b = vector(3, &[(0, 5), (2, 7)]);
    let mut w = SimpleVec::<i64>::new(6).unwrap();
    w.kronecker_binary_op(no_mask(), no_accum(), Multiplication::new(), &a, &b, None).unwrap();
    assert_eq!(w.data, vec![(3, 15), (5, 21)]);
    w.kronecker_monoid(no_mask(), no_accum(), PlusMonoid::new(), &a, &b, None).unwrap();
    assert_eq!(w.data, vec![(3, 8), (5, 10)]);
    w.kronecker_semiring(no_mask(), no_accum(), MinPlusSemiring::new(), &b, &a, None).unwrap();
    assert_eq!(w.data, vec![(1, 8), (5, 10)]);
    let mut w = SimpleVec::<i64>::new(5).unwrap();
    assert_eq!(
        w.kronecker_binary_op(no_mask(), no_accum(), Multiplication::new(), &a, &b, None),
        Err(GblasError::ApiError(ApiError::DimensionMismatch))
    );
}
