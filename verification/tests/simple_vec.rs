use gblas::algebra::{Addition, First, Subtraction};
use gblas::backend::SimpleVec;
use gblas::mask::VecMask;
use gblas::vector::{Vector, VectorUtils};
use gblas::{ApiError, ExecutionError, GblasError};

#[test]
fn vector_new_rejects_zero_size() {
    let res = SimpleVec::<i32>::new(0);
    assert_eq!(res, Err(GblasError::ApiError(ApiError::InvalidValue)));
}

#[test]
fn vector_new_is_empty() {
    let v = SimpleVec::<i32>::new(4).unwrap();
    assert_eq!(v.size(), 4);
    assert_eq!(v.nvals(), 0);
    assert!(v.data.is_empty());
}

#[test]
fn vector_set_then_extract_round_trip() {
    let mut v = SimpleVec::<i64>::new(10).unwrap();
    for i in 0..10usize {
        assert_eq!(v.set_element(i, (i as i64) * 7 - 3), Ok(()));
        assert_eq!(v.extract_element(i), Ok(&((i as i64) * 7 - 3)));
    }
    assert_eq!(v.nvals(), 10);
}

#[test]
fn vector_set_keeps_order_and_counts_inserts_only() {
    let mut v = SimpleVec::<i32>::new(10).unwrap();
    v.set_element(5, 50).unwrap();
    v.set_element(1, 10).unwrap();
    v.set_element(9, 90).unwrap();
    v.set_element(3, 30).unwrap();
    assert_eq!(v.nvals(), 4);
    v.set_element(5, 55).unwrap();
    assert_eq!(v.nvals(), 4);
    assert_eq!(v.data, vec![(1, 10), (3, 30), (5, 55), (9, 90)]);
}

#[test]
fn vector_set_out_of_range_is_invalid_index() {
    let mut v = SimpleVec::<i32>::new(3).unwrap();
    v.set_element(1, 7).unwrap();
    assert_eq!(v.set_element(3, 1), Err(GblasError::ApiError(ApiError::InvalidIndex)));
    assert_eq!(v.data, vec![(1, 7)]);
    assert_eq!(v.size, 3);
}

#[test]
fn vector_extract_errors() {
    let mut v = SimpleVec::<i32>::new(3).unwrap();
    v.set_element(1, 7).unwrap();
    assert_eq!(v.extract_element(3), Err(GblasError::ApiError(ApiError::InvalidIndex)));
    assert_eq!(v.extract_element(0), Err(GblasError::ApiError(ApiError::NoValue)));
    assert_eq!(v.extract_element(2), Err(GblasError::ApiError(ApiError::NoValue)));
    assert_eq!(v.extract_element(1), Ok(&7));
}

#[test]
fn vector_remove_element() {
    let mut v = SimpleVec::<i32>::new(5).unwrap();
    v.set_element(0, 1).unwrap();
    v.set_element(2, 3).unwrap();
    v.set_element(4, 5).unwrap();
    assert_eq!(v.remove_element(2), Ok(()));
    assert_eq!(v.nvals(), 2);
    assert_eq!(v.extract_element(2), Err(GblasError::ApiError(ApiError::NoValue)));
    // nothing stored there: not an error, nothing changes
    assert_eq!(v.remove_element(3), Ok(()));
    assert_eq!(v.data, vec![(0, 1), (4, 5)]);
    assert_eq!(v.remove_element(5), Err(GblasError::ApiError(ApiError::InvalidIndex)));
    assert_eq!(v.data, vec![(0, 1), (4, 5)]);
}

#[test]
fn vector_resize() {
    let mut v = SimpleVec::<i32>::new(10).unwrap();
    v.set_element(2, 20).unwrap();
    v.set_element(6, 60).unwrap();
    v.set_element(7, 70).unwrap();
    v.set_element(9, 90).unwrap();
    assert_eq!(v.resize(0), Err(GblasError::ApiError(ApiError::InvalidValue)));
    assert_eq!(v.size(), 10);
    assert_eq!(v.nvals(), 4);
    assert_eq!(v.resize(7), Ok(()));
    assert_eq!(v.size(), 7);
    assert_eq!(v.nvals(), 2);
    assert_eq!(v.data, vec![(2, 20), (6, 60)]);
    assert_eq!(v.resize(20), Ok(()));
    assert_eq!(v.size(), 20);
    assert_eq!(v.data, vec![(2, 20), (6, 60)]);
    assert_eq!(v.set_element(15, 1), Ok(()));
}

#[test]
fn vector_clear() {
    let mut v = SimpleVec::<i32>::new(4).unwrap();
    v.set_element(1, 1).unwrap();
    v.set_element(2, 2).unwrap();
    assert_eq!(v.clear(), Ok(()));
    assert_eq!(v.nvals(), 0);
    assert_eq!(v.size(), 4);
}

#[test]
fn vector_build_resolves_duplicates_by_addition() {
    let v = SimpleVec::<f64>::new(5).unwrap();
    let built = v.build(vec![2, 2], vec![1.5, 2.25], 2, Addition::new()).unwrap();
    assert_eq!(built.data, vec![(2, 3.75)]);
    assert_eq!(built.nvals(), 1);

    let v = SimpleVec::<f64>::new(5).unwrap();
    let built = v.build(vec![2, 2], vec![2.25, 1.5], 2, Addition::new()).unwrap();
    assert_eq!(built.data, vec![(2, 3.75)]);
}

#[test]
fn vector_build_combines_stored_value_first() {
    let v = SimpleVec::<i32>::new(8).unwrap();
    let built = v
        .build(vec![4, 1, 4, 7, 1, 4], vec![10, 20, 3, 5, 1, 2], 6, Subtraction::new())
        .unwrap();
    // position 4: (10 - 3) - 2; position 1: 20 - 1
    assert_eq!(built.data, vec![(1, 19), (4, 5), (7, 5)]);

    let v = SimpleVec::<i32>::new(8).unwrap();
    let built = v.build(vec![4, 4, 4], vec![10, 3, 2], 3, First::new()).unwrap();
    assert_eq!(built.data, vec![(4, 10)]);
}

#[test]
fn vector_build_stops_at_the_shorter_list() {
    let v = SimpleVec::<i32>::new(8).unwrap();
    let built = v.build(vec![0, 1, 2], vec![5, 6], 3, Addition::new()).unwrap();
    assert_eq!(built.data, vec![(0, 5), (1, 6)]);

    let v = SimpleVec::<i32>::new(8).unwrap();
    let built = v.build(vec![3], vec![5, 6, 7], 3, Addition::new()).unwrap();
    assert_eq!(built.data, vec![(3, 5)]);
}

#[test]
fn vector_build_errors() {
    let mut v = SimpleVec::<i32>::new(4).unwrap();
    v.set_element(0, 1).unwrap();
    let res = v.build(vec![1], vec![2], 1, Addition::new());
    assert_eq!(res, Err(GblasError::ApiError(ApiError::OutputNotEmpty)));

    let v = SimpleVec::<i32>::new(4).unwrap();
    let res = v.build(vec![1, 4, 2], vec![2, 3, 4], 3, Addition::new());
    assert_eq!(res, Err(GblasError::ExecutionError(ExecutionError::IndexOutOfBounds)));
}

#[test]
fn vector_extract_tuples_in_increasing_order() {
    let mut v = SimpleVec::<i32>::new(10).unwrap();
    v.set_element(8, 80).unwrap();
    v.set_element(0, 5).unwrap();
    v.set_element(3, 30).unwrap();
    let (idxs, vals) = v.extract_tuples().unwrap();
    assert_eq!(idxs, vec![0, 3, 8]);
    assert_eq!(vals, vec![5, 30, 80]);
}

#[test]
fn vector_dup_is_a_deep_copy() {
    let mut v = SimpleVec::<i32>::new(10).unwrap();
    v.set_element(3, 30).unwrap();
    let mut copy = v.dup().unwrap();
    assert_eq!(copy, v);
    copy.set_element(3, 31).unwrap();
    assert_eq!(v.extract_element(3), Ok(&30));
    assert_eq!(copy.extract_element(3), Ok(&31));
}

#[test]
fn vector_iter_lists_stored_pairs() {
    let mut v = SimpleVec::<i32>::new(6).unwrap();
    v.set_element(4, 40).unwrap();
    v.set_element(1, 10).unwrap();
    let pairs = v.iter();
    assert_eq!(pairs, vec![(1, &10), (4, &40)]);
}

#[test]
fn vector_masks() {
    let mut v = SimpleVec::<i32>::new(6).unwrap();
    v.set_element(0, 0).unwrap();
    v.set_element(4, 7).unwrap();
    let structure = v.structure();
    let complement = v.complement();
    assert_eq!(structure.size(), 6);
    assert_eq!(complement.size(), 6);
    for i in 0..6usize {
        assert_eq!(structure[i], i == 0 || i == 4);
        assert_eq!(complement[i], !(i == 0 || i == 4));
        assert_eq!(v[i], i == 0 || i == 4);
    }
    assert!(!structure[6]);
    assert!(!complement[6]);
    assert!(!structure[15]);
    assert!(!complement[15]);
    // a view derived from a view reads the vector, not the view
    let twice = complement.complement();
    assert!(!twice[0]);
    assert!(twice[1]);
    let back = complement.structure();
    assert!(back[0]);
    assert!(!back[1]);
}

#[test]
fn vector_set_element_dup_combines_or_overwrites() {
    let mut v = SimpleVec::<i32>::new(4).unwrap();
    assert_eq!(v.set_element_dup(1, 10, Some(&Addition::new())), Some(()));
    assert_eq!(v.set_element_dup(1, 5, Some(&Addition::new())), Some(()));
    assert_eq!(v.data, vec![(1, 15)]);
    assert_eq!(v.set_element_dup(1, 4, Option::<&Addition<i32>>::None), Some(()));
    assert_eq!(v.data, vec![(1, 4)]);
    assert_eq!(v.set_element_dup(4, 4, Some(&Addition::new())), None);
    assert_eq!(v.data, vec![(1, 4)]);
}
