use vstd::prelude::*;

verus! {

/// Ordinal of a vector position, or of a matrix row or column.
pub type IndexType = usize;

/// What a successful operation returns when it has nothing to hand back.
pub type NoValue = ();

/// Cloning a value of `T` gives a value equal to it. This holds of the
/// primitive domains and of every type whose `Clone` copies its fields.
pub open spec fn clones_exactly<T: Clone>() -> bool {
    forall|a: T, b: T| #[trigger] cloned(a, b) ==> a == b
}

/// Clones of the primitive domains are exact.
pub proof fn lemma_primitives_clone_exactly()
    ensures
        clones_exactly::<bool>(),
        clones_exactly::<u8>(),
        clones_exactly::<u16>(),
        clones_exactly::<u32>(),
        clones_exactly::<u64>(),
        clones_exactly::<usize>(),
        clones_exactly::<i8>(),
        clones_exactly::<i16>(),
        clones_exactly::<i32>(),
        clones_exactly::<i64>(),
        clones_exactly::<isize>(),
{
}

/// A clone of `value`, which is equal to it where clones are exact.
pub fn duplicate<T: Clone>(value: &T) -> (r: T)
    requires
        clones_exactly::<T>(),
    ensures
        r == *value,
{
    let r = value.clone();
    assert(cloned(*value, r));
    r
}

} // verus!
