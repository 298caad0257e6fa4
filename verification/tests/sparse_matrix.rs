use gblas::algebra::{Addition, Subtraction};
use gblas::backend::SparseMatrix;
use gblas::mask::MatMask;
use gblas::matrix::{Matrix, MatrixExtra};

#[test]
fn test_matrix_new() {
    let mat = SparseMatrix::<f64>::new(3, 3).unwrap();
    assert_eq!(mat.nrows(), 3);
    assert_eq!(mat.ncols(), 3);
    assert_eq!(mat.nvals(), 0);
}

#[test]
fn test_matrix_ops() {
    let mut mat = SparseMatrix::<f64>::new(10, 10).unwrap();
    assert!(mat.set_element(0, 0, 1.0).is_ok());
    assert!(mat.set_element(1, 1, 2.0).is_ok());
    assert!(mat.set_element(1, 2, 3.0).is_ok());
    assert!(mat.set_element(1, 3, 4.0).is_ok());
    assert!(mat.set_element(1, 5, 5.0).is_ok());
    assert!(mat.set_element(1, 5, 6.0).is_ok());
    assert!(mat.set_element(1, 9, 7.0).is_ok());
    assert!(mat.set_element(7, 7, 10.0).is_ok());
    assert!(mat.set_element(2, 9, 7.0).is_ok());
    assert!(mat.set_element(1, 4, 7.0).is_ok());
    assert!(mat.set_element(1, 7, 8.0).is_ok());
    assert!(mat.set_element(4, 2, 9.0).is_ok());
    assert!(mat.set_element(8, 8, 9.0).is_ok());
    assert!(mat.set_element(8, 2, 9.0).is_ok());
    assert!(mat.set_element(8, 3, 9.0).is_ok());
    assert!(mat.set_element(8, 4, 9.0).is_ok());
    assert_eq!(mat.nvals(), 15);
    let elem = mat.extract_element(0, 0);
    assert!(elem.is_ok());
    assert_eq!(elem.unwrap(), 1.0);
    let elem = mat.extract_element(1, 1);
    assert!(elem.is_ok());
    assert_eq!(elem.unwrap(), 2.0);
    let elem = mat.extract_element(1, 2);
    assert!(elem.is_ok());
    assert_eq!(elem.unwrap(), 3.0);
    let elem = mat.extract_element(1, 7);
    assert!(elem.is_ok());
    assert_eq!(elem.unwrap(), 8.0);
    let elem = mat.extract_element(3, 3);
    assert!(elem.is_err());

    let res = mat.resize(7, 7);
    assert!(res.is_ok());
    let elem = mat.extract_element(1, 5);
    assert!(elem.is_ok());
    assert_eq!(elem.unwrap(), 6.0);
    let elem = mat.extract_element(2, 9);
    assert!(elem.is_err());
    let elem = mat.extract_element(8, 8);
    assert!(elem.is_err());

    assert_eq!(mat.nvals(), 7);

    let res = mat.remove_element(1, 5);
    assert!(res.is_ok());
    let elem = mat.extract_element(1, 5);
    assert!(elem.is_err());

    assert!(mat.extract_tuples().is_ok());

    assert!(mat[(0, 0)]);
    assert!(mat[(4, 2)]);
    assert!(!mat[(4, 3)]);
    assert!(!mat[(1, 9)]);
    assert!(!mat[(15, 15)]);
}

#[test]
fn test_masks() {
    let mut mat = SparseMatrix::<f64>::new(10, 10).unwrap();
    mat.set_element(0, 0, 1.0).unwrap();
    mat.set_element(1, 1, 2.0).unwrap();
    mat.set_element(1, 2, 3.0).unwrap();
    mat.set_element(1, 3, 4.0).unwrap();
    mat.set_element(1, 5, 5.0).unwrap();
    mat.set_element(1, 9, 7.0).unwrap();
    mat.set_element(7, 7, 10.0).unwrap();
    mat.set_element(2, 9, 7.0).unwrap();
    mat.set_element(1, 7, 8.0).unwrap();
    mat.set_element(4, 2, 9.0).unwrap();
    mat.set_element(8, 8, 9.0).unwrap();

    let str_mask = mat.structure();
    let comp_mask = mat.complement();

    assert_eq!(mat[(0, 0)], str_mask[(0, 0)]);
    assert_eq!(mat[(1, 1)], !comp_mask[(1, 1)]);
}

#[test]
fn matrix_new_rejects_zero_dimension() {
    let e = Err(gblas::GblasError::ApiError(gblas::ApiError::InvalidValue));
    assert_eq!(SparseMatrix::<i32>::new(0, 3), e);
    assert_eq!(SparseMatrix::<i32>::new(3, 0), e);
    assert_eq!(SparseMatrix::<i32>::new(0, 0), e);
}

#[test]
fn matrix_set_then_extract_round_trip() {
    let mut mat = SparseMatrix::<i64>::new(6, 5).unwrap();
    for r in (0..6usize).rev() {
        for c in (0..5usize).rev() {
            let value = (r * 5 + c) as i64 - 9;
            assert_eq!(mat.set_element(r, c, value), Ok(()));
            assert_eq!(mat.extract_element(r, c), Ok(value));
        }
    }
    assert_eq!(mat.nvals(), 30);
    let (rows, cols, _) = mat.extract_tuples().unwrap();
    for k in 0..30usize {
        assert!(rows[k] < 6 && cols[k] < 5);
    }
}

#[test]
fn matrix_overwrite_scenario() {
    let mut mat = SparseMatrix::<f64>::new(10, 10).unwrap();
    mat.set_element(0, 0, 1.0).unwrap();
    mat.set_element(1, 1, 2.0).unwrap();
    mat.set_element(1, 2, 3.0).unwrap();
    mat.set_element(1, 5, 5.0).unwrap();
    mat.set_element(1, 5, 6.0).unwrap();
    assert_eq!(mat.nvals(), 4);
    assert_eq!(mat.extract_element(1, 5), Ok(6.0));
    assert_eq!(
        mat.extract_element(3, 3),
        Err(gblas::GblasError::ApiError(gblas::ApiError::NoValue))
    );
}

#[test]
fn matrix_shrink_on_resize_drops_the_entry() {
    let mut mat = SparseMatrix::<i32>::new(10, 10).unwrap();
    mat.set_element(2, 3, 1).unwrap();
    mat.set_element(8, 8, 2).unwrap();
    let before = mat.nvals();
    assert_eq!(mat.resize(7, 7), Ok(()));
    assert_eq!(mat.nvals(), before - 1);
    assert_eq!(mat.nrows(), 7);
    assert_eq!(mat.ncols(), 7);
    assert!(!mat[(8, 8)]);
    assert_eq!(
        mat.extract_element(8, 8),
        Err(gblas::GblasError::ApiError(gblas::ApiError::InvalidIndex))
    );
    assert_eq!(mat.extract_element(2, 3), Ok(1));
    // growing back does not bring it back
    assert_eq!(mat.resize(10, 10), Ok(()));
    assert_eq!(
        mat.extract_element(8, 8),
        Err(gblas::GblasError::ApiError(gblas::ApiError::NoValue))
    );
    assert_eq!(mat.nvals(), 1);
}

#[test]
fn matrix_resize_columns_only_and_rows_only() {
    let mut mat = SparseMatrix::<i32>::new(4, 4).unwrap();
    for r in 0..4usize {
        for c in 0..4usize {
            mat.set_element(r, c, (r * 4 + c) as i32).unwrap();
        }
    }
    assert_eq!(mat.resize(4, 2), Ok(()));
    assert_eq!(mat.nvals(), 8);
    assert_eq!(mat.resize(3, 5), Ok(()));
    assert_eq!(mat.nvals(), 6);
    let (rows, cols, values) = mat.extract_tuples().unwrap();
    assert_eq!(rows, vec![0, 0, 1, 1, 2, 2]);
    assert_eq!(cols, vec![0, 1, 0, 1, 0, 1]);
    assert_eq!(values, vec![0, 1, 4, 5, 8, 9]);
    assert_eq!(
        mat.resize(0, 5),
        Err(gblas::GblasError::ApiError(gblas::ApiError::InvalidValue))
    );
    assert_eq!(mat.nrows(), 3);
    assert_eq!(mat.ncols(), 5);
}

#[test]
fn matrix_errors_on_invalid_index() {
    let e = Err(gblas::GblasError::ApiError(gblas::ApiError::InvalidIndex));
    let mut mat = SparseMatrix::<i32>::new(3, 4).unwrap();
    assert_eq!(mat.set_element(3, 0, 1), e);
    assert_eq!(mat.set_element(0, 4, 1), e);
    assert_eq!(mat.nvals(), 0);
    assert_eq!(mat.remove_element(3, 0), e);
    assert_eq!(mat.remove_element(0, 4), e);
    assert_eq!(
        mat.extract_element(3, 0),
        Err(gblas::GblasError::ApiError(gblas::ApiError::InvalidIndex))
    );
    assert_eq!(mat.remove_element(2, 3), Ok(()));
}

#[test]
fn matrix_remove_and_clear() {
    let mut mat = SparseMatrix::<i32>::new(3, 3).unwrap();
    mat.set_element(2, 2, 9).unwrap();
    mat.set_element(0, 1, 4).unwrap();
    assert_eq!(mat.remove_element(0, 0), Ok(()));
    assert_eq!(mat.nvals(), 2);
    assert_eq!(mat.remove_element(0, 1), Ok(()));
    assert_eq!(mat.nvals(), 1);
    assert!(!mat[(0, 1)]);
    assert_eq!(mat.clear(), Ok(()));
    assert_eq!(mat.nvals(), 0);
    assert_eq!(mat.nrows(), 3);
    assert_eq!(mat.ncols(), 3);
    assert!(!mat[(2, 2)]);
}

#[test]
fn matrix_build_resolves_duplicates_by_addition() {
    let mat = SparseMatrix::<f64>::new(4, 4).unwrap();
    let built = mat
        .build(vec![2, 2], vec![2, 2], vec![1.5, 2.25], 2, Addition::new())
        .unwrap();
    assert_eq!(built.nvals(), 1);
    assert_eq!(built.extract_element(2, 2), Ok(3.75));

    let mat = SparseMatrix::<f64>::new(4, 4).unwrap();
    let built = mat
        .build(vec![2, 2], vec![2, 2], vec![2.25, 1.5], 2, Addition::new())
        .unwrap();
    assert_eq!(built.nvals(), 1);
    assert_eq!(built.extract_element(2, 2), Ok(3.75));
}

#[test]
fn matrix_build_in_any_order_of_positions() {
    let mat = SparseMatrix::<i32>::new(3, 3).unwrap();
    let built = mat
        .build(
            vec![2, 0, 2, 1, 0],
            vec![1, 0, 1, 2, 0],
            vec![10, 7, 4, 5, 2],
            5,
            Subtraction::new(),
        )
        .unwrap();
    let (rows, cols, values) = built.extract_tuples().unwrap();
    assert_eq!(rows, vec![0, 1, 2]);
    assert_eq!(cols, vec![0, 2, 1]);
    assert_eq!(values, vec![5, 5, 6]);
}

#[test]
fn matrix_build_errors() {
    let mut mat = SparseMatrix::<i32>::new(3, 3).unwrap();
    mat.set_element(0, 0, 1).unwrap();
    assert_eq!(
        mat.build(vec![1], vec![1], vec![1], 1, Addition::new()),
        Err(gblas::GblasError::ApiError(gblas::ApiError::OutputNotEmpty))
    );
    let mat = SparseMatrix::<i32>::new(3, 3).unwrap();
    assert_eq!(
        mat.build(vec![1, 1], vec![1, 3], vec![1, 2], 2, Addition::new()),
        Err(gblas::GblasError::ExecutionError(gblas::ExecutionError::IndexOutOfBounds))
    );
}

#[test]
fn matrix_mask_semantics() {
    let mut mat = SparseMatrix::<i32>::new(10, 10).unwrap();
    mat.set_element(0, 0, 0).unwrap();
    mat.set_element(4, 2, 7).unwrap();
    let structure = mat.structure();
    let complement = mat.complement();
    assert_eq!((structure.nrows(), structure.ncols()), (10, 10));
    assert_eq!((complement.nrows(), complement.ncols()), (10, 10));
    for r in 0..10usize {
        for c in 0..10usize {
            let stored = (r, c) == (0, 0) || (r, c) == (4, 2);
            assert_eq!(structure[(r, c)], stored);
            assert_eq!(complement[(r, c)], !stored);
        }
    }
    assert!(!structure[(15, 15)]);
    assert!(!complement[(15, 15)]);
    assert!(!complement[(3, 10)]);
    assert!(!complement[(10, 3)]);
    // a view derived from a view reads the matrix, not the view
    let twice = complement.complement();
    assert!(!twice[(0, 0)]);
    assert!(twice[(1, 1)]);
    let back = complement.structure();
    assert!(back[(4, 2)]);
    assert!(!back[(1, 1)]);
}

#[test]
fn matrix_dup_is_a_deep_copy() {
    let mut mat = SparseMatrix::<i32>::new(3, 3).unwrap();
    mat.set_element(1, 2, 5).unwrap();
    let mut copy = mat.dup().unwrap();
    assert_eq!(copy, mat);
    copy.set_element(1, 2, 6).unwrap();
    copy.set_element(0, 0, 1).unwrap();
    assert_eq!(mat.extract_element(1, 2), Ok(5));
    assert_eq!(mat.nvals(), 1);
    assert_eq!(copy.nvals(), 2);
}

#[test]
fn matrix_iter_is_row_major() {
    let mut mat = SparseMatrix::<i32>::new(3, 3).unwrap();
    mat.set_element(2, 0, 20).unwrap();
    mat.set_element(0, 2, 2).unwrap();
    mat.set_element(0, 1, 1).unwrap();
    assert_eq!(mat.iter(), vec![(0, 1, 1), (0, 2, 2), (2, 0, 20)]);
    let mat = SparseMatrix::<i32>::new(2, 3).unwrap();
    assert_eq!(mat.index_iter(), vec![(0, 0), (0, 1), (0, 2), (1, 0), (1, 1), (1, 2)]);
}

#[test]
fn matrix_set_element_dup_combines_or_overwrites() {
    let mut mat = SparseMatrix::<i32>::new(4, 4).unwrap();
    assert_eq!(mat.set_element_dup(3, 1, 10, Some(&Addition::new())), Some(()));
    assert_eq!(mat.set_element_dup(3, 1, 5, Some(&Addition::new())), Some(()));
    assert_eq!(mat.extract_element(3, 1), Ok(15));
    assert_eq!(mat.set_element_dup(3, 1, 4, Option::<&Addition<i32>>::None), Some(()));
    assert_eq!(mat.extract_element(3, 1), Ok(4));
    assert_eq!(mat.set_element_dup(4, 1, 4, Some(&Addition::new())), None);
    assert_eq!(mat.nvals(), 1);
}
