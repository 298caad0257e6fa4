use gblas::algebra::{Addition, MinPlusSemiring, PlusTimesSemiring, Subtraction};
use gblas::backend::utils::{accum_mult_vec, check_vals, ewise_or_accum_vec};
use gblas::{ApiError, GblasError};

#[test]
fn check_vals_compares_dimensions() {
    assert_eq!(check_vals(3, 3), Ok(()));
    assert_eq!(check_vals(3, 4), Err(GblasError::ApiError(ApiError::DimensionMismatch)));
}

#[test]
fn accum_mult_vec_scales_and_merges() {
    let mut c: Vec<(usize, i32)> = vec![(1, 10), (4, 40)];
    let b: Vec<(usize, i32)> = vec![(0, 2), (4, 3), (6, 5)];
    accum_mult_vec(&mut c, &b, &7, &PlusTimesSemiring::new());
    assert_eq!(c, vec![(0, 14), (1, 10), (4, 61), (6, 35)]);
}

#[test]
fn accum_mult_vec_into_empty_row() {
    let mut c: Vec<(usize, i32)> = Vec::new();
    let b: Vec<(usize, i32)> = vec![(2, 2), (3, 3)];
    accum_mult_vec(&mut c, &b, &5, &MinPlusSemiring::new());
    assert_eq!(c, vec![(2, 7), (3, 8)]);
    accum_mult_vec(&mut c, &b, &1, &MinPlusSemiring::new());
    assert_eq!(c, vec![(2, 3), (3, 4)]);
    accum_mult_vec(&mut c, &[], &1, &MinPlusSemiring::new());
    assert_eq!(c, vec![(2, 3), (3, 4)]);
}

#[test]
fn ewise_or_accum_vec_is_a_union_merge() {
    let v1: Vec<(usize, i32)> = vec![(0, 10), (2, 20), (5, 50)];
    let v2: Vec<(usize, i32)> = vec![(1, 1), (2, 2), (5, 5), (9, 9)];
    let mut res: Vec<(usize, i32)> = vec![(7, 7)];
    ewise_or_accum_vec(&mut res, &v1, &v2, &Subtraction::new());
    assert_eq!(res, vec![(0, 10), (1, 1), (2, 18), (5, 45), (9, 9)]);
    ewise_or_accum_vec(&mut res, &v2, &v1, &Subtraction::new());
    assert_eq!(res, vec![(0, 10), (1, 1), (2, -18), (5, -45), (9, 9)]);
}

#[test]
fn ewise_or_accum_vec_with_an_empty_side() {
    let v1: Vec<(usize, i32)> = vec![(3, 30)];
    let mut res: Vec<(usize, i32)> = Vec::new();
    ewise_or_accum_vec(&mut res, &v1, &[], &Addition::new());
    assert_eq!(res, vec![(3, 30)]);
    ewise_or_accum_vec(&mut res, &[], &v1, &Addition::new());
    assert_eq!(res, vec![(3, 30)]);
    ewise_or_accum_vec(&mut res, &[], &[], &Addition::new());
    assert_eq!(res, Vec::new());
}
