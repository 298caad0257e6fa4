use vstd::prelude::*;
use crate::algebra::BinaryOperator;
use crate::error::{api_err, exec_err, refused, ApiError, ExecutionError, GblasError};
use crate::triplet::{mergeable, merged, triplet_count};
use crate::types::{IndexType, NoValue};

verus! {

/// A sparse vector: a dimension and the values stored at some of the
/// positions below it.
pub trait Vector: Clone + PartialEq + Sized {
    type Scalar;

    /// The invariant of the representation. Every constructor establishes
    /// it and every operation keeps it.
    spec fn wf(&self) -> bool;

    /// The declared dimension.
    spec fn dim(&self) -> usize;

    /// The stored values by position.
    spec fn entries(&self) -> Map<usize, Self::Scalar>;

    /// A well-formed vector has a positive dimension and stores finitely
    /// many values, each at a position below the dimension.
    proof fn lemma_stored_in_range(&self)
        requires
            self.wf(),
        ensures
            self.dim() > 0,
            self.entries().dom().finite(),
            self.entries().dom().len() <= self.dim(),
            forall|k: usize| self.entries().contains_key(k) ==> k < self.dim(),
    ;

    /// An empty vector of dimension `size`, which is not to be zero.
    fn new(size: IndexType) -> (r: Result<Self, GblasError>)
        ensures
            size == 0 ==> r == api_err::<Self>(ApiError::InvalidValue),
            size > 0 ==> (r matches Ok(v) && {
                &&& v.wf()
                &&& v.dim() == size
                &&& v.entries() == Map::<usize, Self::Scalar>::empty()
            }),
    ;

    /// A deep copy: the same dimension, and at every stored position a
    /// clone of the value.
    fn dup(&self) -> (r: Result<Self, GblasError>) where Self::Scalar: Clone
        requires
            self.wf(),
        ensures
            r matches Ok(v) && {
                &&& v.wf()
                &&& v.dim() == self.dim()
                &&& v.entries().dom() == self.entries().dom()
                &&& forall|k: usize| #[trigger]
                    self.entries().contains_key(k) ==> cloned(self.entries()[k], v.entries()[k])
            },
    ;

    /// Changes the dimension to `size`, which is not to be zero. What is
    /// stored at `size` or beyond is dropped.
    fn resize(&mut self, size: IndexType) -> (r: Result<NoValue, GblasError>)
        requires
            old(self).wf(),
        ensures
            size == 0 ==> refused(*old(self), *final(self), r, ApiError::InvalidValue),
            size > 0 ==> {
                &&& r is Ok
                &&& final(self).wf()
                &&& final(self).dim() == size
                &&& final(self).entries() == old(self).entries().restrict(
                    Set::new(|k: usize| k < size),
                )
            },
    ;

    /// Removes every stored value. The dimension stays.
    fn clear(&mut self) -> (r: Result<NoValue, GblasError>)
        requires
            old(self).wf(),
        ensures
            r is Ok,
            final(self).wf(),
            final(self).dim() == old(self).dim(),
            final(self).entries() == Map::<usize, Self::Scalar>::empty(),
    ;

    /// The dimension.
    fn size(&self) -> (n: IndexType)
        ensures
            n == self.dim(),
    ;

    /// The number of stored values.
    fn nvals(&self) -> (n: IndexType)
        requires
            self.wf(),
        ensures
            n == self.entries().dom().len(),
    ;

    /// Loads the triplets `(indices[i], values[i])` into an empty vector,
    /// in the order of `i` and up to the end of the shorter list. Values
    /// that meet at one position are combined by `dup`, which is to be
    /// defined on every pair that it meets before the first position that
    /// lies outside the vector. A vector that stores a value is refused,
    /// and so is a position outside the vector.
    fn build<Op: BinaryOperator<Self::Scalar, Output = Self::Scalar>>(
        self,
        indices: Vec<IndexType>,
        values: Vec<Self::Scalar>,
        n: IndexType,
        dup: Op,
    ) -> (r: Result<Self, GblasError>)
        requires
            self.wf(),
            forall|i: nat|
                i < triplet_count(indices@.len() as int, values@.len() as int) && (forall|j: int|
                    0 <= j <= i ==> indices@[j] < self.dim()) ==> #[trigger] mergeable(
                    Map::<usize, Self::Scalar>::empty(),
                    indices@,
                    values@,
                    dup,
                    i,
                ),
        ensures
            self.entries().dom().len() > 0 ==> r == api_err::<Self>(ApiError::OutputNotEmpty),
            self.entries().dom().len() == 0 && (exists|i: int|
                0 <= i < triplet_count(indices@.len() as int, values@.len() as int) && indices@[i]
                    >= self.dim()) ==> r == exec_err::<Self>(ExecutionError::IndexOutOfBounds),
            self.entries().dom().len() == 0 && (forall|i: int|
                0 <= i < triplet_count(indices@.len() as int, values@.len() as int) ==> indices@[i]
                    < self.dim()) ==> (r matches Ok(v) && {
                &&& v.wf()
                &&& v.dim() == self.dim()
                &&& v.entries() == merged(
                    Map::<usize, Self::Scalar>::empty(),
                    indices@,
                    values@,
                    dup,
                    triplet_count(indices@.len() as int, values@.len() as int),
                )
            }),
    ;

    /// Stores `val` at `index`, in place of what is stored there if
    /// anything is.
    fn set_element(&mut self, index: IndexType, val: Self::Scalar) -> (r: Result<
        NoValue,
        GblasError,
    >)
        requires
            old(self).wf(),
        ensures
            index >= old(self).dim()
                ==> refused(*old(self), *final(self), r, ApiError::InvalidIndex),
            index < old(self).dim() ==> {
                &&& r is Ok
                &&& final(self).wf()
                &&& final(self).dim() == old(self).dim()
                &&& final(self).entries() == old(self).entries().insert(index, val)
            },
    ;

    /// Removes what is stored at `index`, if anything is.
    fn remove_element(&mut self, index: IndexType) -> (r: Result<NoValue, GblasError>)
        requires
            old(self).wf(),
        ensures
            index >= old(self).dim()
                ==> refused(*old(self), *final(self), r, ApiError::InvalidIndex),
            index < old(self).dim() ==> {
                &&& r is Ok
                &&& final(self).wf()
                &&& final(self).dim() == old(self).dim()
                &&& final(self).entries() == old(self).entries().remove(index)
            },
    ;

    /// What is stored at `index`.
    fn extract_element(&self, index: IndexType) -> (r: Result<&Self::Scalar, GblasError>)
        requires
            self.wf(),
        ensures
            index >= self.dim() ==> r == api_err::<&Self::Scalar>(ApiError::InvalidIndex),
            index < self.dim() && !self.entries().contains_key(index) ==> r == api_err::<
                &Self::Scalar,
            >(ApiError::NoValue),
            index < self.dim() && self.entries().contains_key(index) ==> (r matches Ok(v) && *v
                == self.entries()[index]),
    ;

    /// All stored positions with their values, in increasing order of
    /// position.
    fn extract_tuples(self) -> (r: Result<(Vec<IndexType>, Vec<Self::Scalar>), GblasError>)
        requires
            self.wf(),
        ensures
            r matches Ok(t) && tuples_of(t.0@, t.1@, self.entries()),
    ;
}

/// `idxs` and `vals` list what `m` stores, in strictly increasing order of
/// position.
pub open spec fn tuples_of<T>(idxs: Seq<usize>, vals: Seq<T>, m: Map<usize, T>) -> bool {
    &&& idxs.len() == vals.len()
    &&& forall|i: int, j: int| 0 <= i < j < idxs.len() ==> idxs[i] < idxs[j]
    &&& forall|i: int|
        0 <= i < idxs.len() ==> m.contains_key(#[trigger] idxs[i]) && m[idxs[i]] == vals[i]
    &&& forall|k: usize| m.contains_key(k) ==> exists|i: int| 0 <= i < idxs.len() && idxs[i] == k
}

/// Round trip: in the vector that a successful `set_element(index, val)`
/// leaves, `index` lies below the dimension and `val` is stored there, which
/// is where `extract_element(index)` yields `val`.
pub proof fn lemma_set_then_extract<V: Vector>(
    before: V,
    after: V,
    index: IndexType,
    val: V::Scalar,
)
    requires
        before.wf(),
        index < before.dim(),
        after.dim() == before.dim(),
        after.entries() == before.entries().insert(index, val),
    ensures
        index < after.dim(),
        after.entries().contains_key(index),
        after.entries()[index] == val,
{
}

/// `pairs` lists what `m` stores, in strictly increasing order of
/// position.
pub open spec fn pairs_of<T>(pairs: Seq<(usize, &T)>, m: Map<usize, T>) -> bool {
    &&& forall|i: int, j: int| 0 <= i < j < pairs.len() ==> pairs[i].0 < pairs[j].0
    &&& forall|i: int|
        0 <= i < pairs.len() ==> m.contains_key((#[trigger] pairs[i]).0) && m[pairs[i].0]
            == *pairs[i].1
    &&& forall|k: usize|
        m.contains_key(k) ==> exists|i: int| 0 <= i < pairs.len() && (#[trigger] pairs[i]).0 == k
}

/// Traversal of a vector.
pub trait VectorUtils: Vector {
    /// All stored positions with their values, in increasing order of
    /// position, found by asking for every position below the dimension.
    fn iter(&self) -> (r: Vec<(IndexType, &Self::Scalar)>)
        requires
            self.wf(),
        ensures
            pairs_of(r@, self.entries()),
    {
        let size = self.size();
        let mut out: Vec<(IndexType, &Self::Scalar)> = Vec::new();
        let mut i: usize = 0;
        while i < size
            invariant
                i <= size,
                size == self.dim(),
                self.wf(),
                forall|a: int, b: int| 0 <= a < b < out@.len() ==> out@[a].0 < out@[b].0,
                forall|a: int|
                    0 <= a < out@.len() ==> (#[trigger] out@[a]).0 < i
                        && self.entries().contains_key(
                        out@[a].0,
                    ) && self.entries()[out@[a].0] == *out@[a].1,
                forall|k: usize|
                    k < i && self.entries().contains_key(k) ==> exists|a: int|
                        0 <= a < out@.len() && (#[trigger] out@[a]).0 == k,
            decreases size - i,
        {
            let ghost before = out@;
            match self.extract_element(i) {
                Ok(val) => {
                    out.push((i, val));
                    proof {
                        assert forall|k: usize|
                            k < i + 1 && self.entries().contains_key(k) implies exists|a: int|
                            0 <= a < out@.len() && (#[trigger] out@[a]).0 == k by {
                            if k < i {
                                let a = choose|a: int|
                                    0 <= a < before.len() && (#[trigger] before[a]).0 == k;
                                assert(out@[a].0 == k);
                            } else {
                                assert(out@[before.len() as int].0 == k);
                            }
                        }
                    }
                },
                Err(_) => {},
            }
            i += 1;
        }
        proof {
            self.lemma_stored_in_range();
        }
        out
    }
}

} // verus!
