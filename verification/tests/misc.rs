use gblas::algebra::Numeric;
use gblas::descriptor::Descriptor;
use gblas::indices::{IndexSet, Indices};
use gblas::{version, ApiError, ExecutionError, GblasError, GRB_SUB_VERSION, GRB_VERSION};

#[test]
fn version_is_major_dot_minor() {
    assert_eq!(version(), format!("{}.{}", GRB_VERSION, GRB_SUB_VERSION));
    assert_eq!(version(), "1.3");
}

#[test]
fn errors_convert_and_name_themselves() {
    assert_eq!(GblasError::from(ApiError::NoValue), GblasError::ApiError(ApiError::NoValue));
    assert_eq!(
        GblasError::from(ExecutionError::Panic),
        GblasError::ExecutionError(ExecutionError::Panic)
    );
    assert_eq!(ApiError::UninitializedObject.name(), "UninitializedObject");
    assert_eq!(ApiError::NullPointer.name(), "NullPointer");
    assert_eq!(ApiError::InvalidValue.name(), "InvalidValue");
    assert_eq!(ApiError::InvalidIndex.name(), "InvalidIndex");
    assert_eq!(ApiError::DomainMismatch.name(), "DomainMismatch");
    assert_eq!(ApiError::DimensionMismatch.name(), "DimensionMismatch");
    assert_eq!(ApiError::OutputNotEmpty.name(), "OutputNotEmpty");
    assert_eq!(ApiError::NoValue.name(), "NoValue");
    assert_eq!(ExecutionError::OutOfMemory.name(), "OutOfMemory");
    assert_eq!(ExecutionError::InsufficientSpace.name(), "InsufficientSpace");
    assert_eq!(ExecutionError::InvalidObject.name(), "InvalidObject");
    assert_eq!(ExecutionError::IndexOutOfBounds.name(), "IndexOutOfBounds");
    assert_eq!(ExecutionError::Panic.name(), "Panic");
}

#[test]
fn descriptor_starts_with_every_flag_off() {
    let d = Descriptor::new();
    assert!(!d.mask_complement);
    assert!(!d.mask_structural_only);
    assert!(!d.replace_output);
    assert!(!d.transpose_a);
    assert!(!d.transpose_b);
    assert_eq!(Descriptor::default(), d);
}

#[test]
fn indices_name_positions() {
    let all = Indices::All;
    assert_eq!(all.count(4), 4);
    assert_eq!(all.get(3, 4), 3);
    assert!(all.check(4));
    let list = Indices::List(vec![3, 0, 3]);
    assert_eq!(list.count(4), 3);
    assert_eq!(list.get(0, 4), 3);
    assert_eq!(list.get(1, 4), 0);
    assert!(list.check(4));
    assert!(!list.check(3));
}

#[test]
fn index_sets_hold_what_lists_name() {
    let list = Indices::List(vec![3, 0, 7]);
    let set = list.index_set().unwrap();
    assert!(set.contains(0));
    assert!(set.contains(3));
    assert!(set.contains(7));
    assert!(!set.contains(1));
    assert!(!set.contains(8));
    assert!(Indices::List(vec![3, 0, 3]).index_set().is_none());
    let all = Indices::All.index_set().unwrap();
    assert!(all.contains(0));
    assert!(all.contains(1000));
    let set = IndexSet::of(&vec![2, 2, 5]);
    assert!(set.contains(2));
    assert!(set.contains(5));
    assert!(!set.contains(3));
    assert!(IndexSet::all().contains(9));
}

#[test]
fn numeric_domains_know_their_identities_and_bounds() {
    assert_eq!(<i8 as Numeric>::zero(), 0);
    assert_eq!(<i8 as Numeric>::one(), 1);
    assert_eq!(<i8 as Numeric>::lowest(), -128);
    assert_eq!(<i8 as Numeric>::highest(), 127);
    assert_eq!(<u16 as Numeric>::lowest(), 0);
    assert_eq!(<u16 as Numeric>::highest(), 65535);
    assert_eq!(<i64 as Numeric>::highest(), i64::MAX);
    assert_eq!(<u64 as Numeric>::highest(), u64::MAX);
    assert_eq!(Numeric::abs(-5i32), 5);
    assert_eq!(Numeric::abs(5i32), 5);
    assert_eq!(Numeric::abs(5u32), 5);
}
