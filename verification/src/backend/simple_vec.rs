use vstd::prelude::*;
use core::ops::Index;
use crate::algebra::{BinaryOperator, First};
use crate::backend::kernels::{region_flags, vec_flags, write_row};
use crate::backend::row::{
    bounded, cut, erase, lemma_row_len_bounded, lemma_row_map_at, lemma_row_map_empty,
    lemma_row_map_len, lookup, place, row_map, sorted, stores, upsert,
};
use crate::complement_mask::VectorComplementMask;
use crate::descriptor::Descriptor;
use crate::error::{ApiError, ExecutionError, GblasError};
use crate::indices::IndexSet;
use crate::mask::VecMask;
use crate::operations::{accumulable, assigned, replaces, vec_admitted, vec_outcome, written};
use crate::structure_mask::VectorStructureMask;
use crate::triplet::{merge_one, mergeable, merged, triplet_count};
use crate::types::{clones_exactly, IndexType, NoValue};
use crate::vector::{Vector, VectorUtils};

verus! {

/// A sparse vector kept as one sorted row.
#[derive(Debug, Clone, PartialEq)]
pub struct SimpleVec<T> {
    /// The stored pairs of position and value, in strictly increasing
    /// order of position.
    pub data: Vec<(IndexType, T)>,
    /// The dimension.
    pub size: IndexType,
}

impl<T> SimpleVec<T> where T: Clone + PartialEq {
    /// Stores `val` at `index`. Where a value is stored there already, it
    /// is replaced by `dup` of the stored value and `val` if `dup` is
    /// given, and by `val` if not. Returns `None`, and changes nothing,
    /// where `index` is not below the dimension.
    pub fn set_element_dup<Op: BinaryOperator<T, Output = T>>(
        &mut self,
        index: IndexType,
        val: T,
        dup: Option<&Op>,
    ) -> (r: Option<NoValue>)
        requires
            old(self).wf(),
            dup matches Some(op) ==> (old(self).entries().contains_key(index) ==> op.defined(
                old(self).entries()[index],
                val,
            )),
        ensures
            index >= old(self).size ==> r is None && *final(self) == *old(self),
            index < old(self).size
                ==> r is Some && final(self).wf() && final(self).size == old(self).size,
            index < old(self).size ==> final(self).entries() == (match dup {
                Some(op) => merge_one(old(self).entries(), index, val, *op),
                None => old(self).entries().insert(index, val),
            }),
    {
        if index >= self.size {
            return None;
        }
        let _ = upsert(&mut self.data, index, val, dup);
        Some(())
    }
}

impl<T> SimpleVec<T> where T: Clone + PartialEq {
    /// Writes the result row `t` of an operation into the vector, under the
    /// mask, the accumulator and the descriptor.
    pub(crate) fn write<Mk: VecMask<Self>, Acc: BinaryOperator<T, Output = T>>(
        &mut self,
        t: &Vec<(IndexType, T)>,
        mask: &Option<Mk>,
        accum: &Option<Acc>,
        desc: Option<Descriptor>,
    ) -> (r: Result<NoValue, GblasError>)
        requires
            old(self).wf(),
            clones_exactly::<T>(),
            sorted(t@),
            bounded(t@, old(self).size),
            mask matches Some(m) ==> m.readable(),
            accumulable(old(self).entries(), row_map(t@), vec_admitted(*mask, desc), *accum),
        ensures
            vec_outcome(
                *old(self),
                *final(self),
                r,
                written(
                    old(self).entries(),
                    row_map(t@),
                    vec_admitted(*mask, desc),
                    *accum,
                    replaces(desc),
                ),
            ),
    {
        let everything = IndexSet::all();
        self.write_within(t, &everything, mask, accum, desc, Ghost(Set::full()))
    }

    /// Writes the result row `t` of an operation that reaches the positions
    /// of `region` only: those that `within` holds.
    pub(crate) fn write_within<Mk: VecMask<Self>, Acc: BinaryOperator<T, Output = T>>(
        &mut self,
        t: &Vec<(IndexType, T)>,
        within: &IndexSet,
        mask: &Option<Mk>,
        accum: &Option<Acc>,
        desc: Option<Descriptor>,
        Ghost(region): Ghost<Set<IndexType>>,
    ) -> (r: Result<NoValue, GblasError>)
        requires
            old(self).wf(),
            clones_exactly::<T>(),
            sorted(t@),
            bounded(t@, old(self).size),
            within.wf(),
            forall|k: IndexType|
                k < old(self).size ==> (#[trigger] region.contains(k) <==> within.holds(k)),
            forall|k: IndexType| row_map(t@).contains_key(k) ==> #[trigger] region.contains(k),
            mask matches Some(m) ==> m.readable(),
            accumulable(old(self).entries(), row_map(t@), vec_admitted(*mask, desc), *accum),
        ensures
            vec_outcome(
                *old(self),
                *final(self),
                r,
                assigned(
                    old(self).entries(),
                    row_map(t@),
                    vec_admitted(*mask, desc),
                    region,
                    *accum,
                    replaces(desc),
                ),
            ),
    {
        let replace = match desc {
            Some(d) => d.replace_output,
            None => false,
        };
        let c_ok = vec_flags(mask, desc, &self.data);
        let c_in = region_flags(true, within, &self.data);
        let t_ok = vec_flags(mask, desc, t);
        proof {
            assert forall|i: int| 0 <= i < self.data@.len() implies c_in@[i] == region.contains(
                (#[trigger] self.data@[i]).0,
            ) by {
                assert(c_in@[i] == (true && within.holds(self.data@[i].0)));
                assert(self.data@[i].0 < self.size);
            }
            assert forall|j: int| 0 <= j < t@.len() implies
                region.contains((#[trigger] t@[j]).0) by {
                lemma_row_map_at(t@, j);
            }
        }
        let row = write_row(
            &self.data,
            &c_ok,
            &c_in,
            t,
            &t_ok,
            accum.as_ref(),
            replace,
            Ghost(vec_admitted(*mask, desc)),
            Ghost(region),
        );
        self.data = row;
        Ok(())
    }
}

impl<T> Vector for SimpleVec<T> where T: Clone + PartialEq {
    type Scalar = T;

    open spec fn wf(&self) -> bool {
        &&& self.size > 0
        &&& sorted(self.data@)
        &&& bounded(self.data@, self.size)
    }

    open spec fn dim(&self) -> usize {
        self.size
    }

    open spec fn entries(&self) -> Map<usize, T> {
        row_map(self.data@)
    }

    proof fn lemma_stored_in_range(&self) {
        lemma_row_map_len(self.data@);
        lemma_row_len_bounded(self.data@, self.size);
    }

    fn new(size: IndexType) -> (r: Result<Self, GblasError>) {
        if size == 0 {
            return Err(GblasError::ApiError(ApiError::InvalidValue));
        }
        proof {
            lemma_row_map_empty::<T>();
        }
        Ok(Self { data: Vec::new(), size })
    }

    fn dup(&self) -> (r: Result<Self, GblasError>) {
        let mut data: Vec<(IndexType, T)> = Vec::new();
        let mut i: usize = 0;
        while i < self.data.len()
            invariant
                i <= self.data@.len(),
                data@.len() == i,
                forall|j: int|
                    0 <= j < i ==> (#[trigger] data@[j]).0 == self.data@[j].0 && cloned(
                        self.data@[j].1,
                        data@[j].1,
                    ),
            decreases self.data@.len() - i,
        {
            let v = self.data[i].1.clone();
            data.push((self.data[i].0, v));
            i += 1;
        }
        let copy = Self { data, size: self.size };
        proof {
            assert(sorted(copy.data@)) by {
                assert forall|a: int, b: int| 0 <= a < b < copy.data@.len() implies copy.data@[a].0
                    < copy.data@[b].0 by {
                    assert(self.data@[a].0 < self.data@[b].0);
                }
            }
            assert forall|k: usize| self.entries().contains_key(k) <==> copy.entries().contains_key(
                k,
            ) by {
                if stores(self.data@, k) {
                    let p = place(self.data@, k);
                    assert(copy.data@[p].0 == k);
                }
                if stores(copy.data@, k) {
                    let p = place(copy.data@, k);
                    assert(self.data@[p].0 == k);
                }
            }
            assert(self.entries().dom() =~= copy.entries().dom());
            assert forall|k: usize| #[trigger] self.entries().contains_key(k) implies cloned(
                self.entries()[k],
                copy.entries()[k],
            ) by {
                let p = place(self.data@, k);
                lemma_row_map_at(self.data@, p);
                assert(copy.data@[p].0 == k);
                lemma_row_map_at(copy.data@, p);
            }
        }
        Ok(copy)
    }

    fn resize(&mut self, size: IndexType) -> (r: Result<NoValue, GblasError>) {
        if size == 0 {
            return Err(GblasError::ApiError(ApiError::InvalidValue));
        }
        if size < self.size {
            let _ = cut(&mut self.data, size);
        } else {
            proof {
                assert(row_map(self.data@).restrict(Set::new(|k: usize| k < size)) =~= row_map(
                    self.data@,
                ));
            }
        }
        self.size = size;
        Ok(())
    }

    fn clear(&mut self) -> (r: Result<NoValue, GblasError>) {
        self.data.clear();
        proof {
            lemma_row_map_empty::<T>();
        }
        Ok(())
    }

    fn size(&self) -> (n: IndexType) {
        self.size
    }

    fn nvals(&self) -> (n: IndexType) {
        proof {
            lemma_row_map_len(self.data@);
        }
        self.data.len()
    }

    #[verifier::loop_isolation(false)]
    fn build<Op: BinaryOperator<T, Output = T>>(
        self,
        indices: Vec<IndexType>,
        values: Vec<T>,
        n: IndexType,
        dup: Op,
    ) -> (r: Result<Self, GblasError>) {
        if self.nvals() > 0 {
            return Err(GblasError::ApiError(ApiError::OutputNotEmpty));
        }
        let ghost keys = indices@;
        let ghost vals = values@;
        let ghost count = triplet_count(keys.len() as int, vals.len() as int);
        let ghost empty = Map::<usize, T>::empty();
        let mut values = values;
        values.truncate(indices.len());
        let ghost taken = values@;
        let ghost size = self.size;
        let mut data = self;
        proof {
            lemma_row_map_len(data.data@);
            assert(data.entries().dom() =~= Set::<usize>::empty());
            assert(data.entries() =~= empty);
        }
        let mut i: usize = 0;
        for val in it: values
            invariant
                it.seq() == taken,
                taken.len() == count,
                count <= usize::MAX,
                count <= keys.len(),
                count <= vals.len(),
                keys == indices@,
                forall|j: int| 0 <= j < count ==> taken[j] == vals[j],
                i == it.index(),
                data.wf(),
                data.size == size,
                forall|j: int| 0 <= j < i ==> keys[j] < size,
                data.entries() == merged(empty, keys, vals, dup, i as nat),
                forall|k: nat|
                    k < count && (forall|j: int| 0 <= j <= k ==> keys[j] < size)
                        ==> #[trigger] mergeable(empty, keys, vals, dup, k),
        {
            let idx = indices[i];
            proof {
                if idx < size {
                    assert(mergeable(empty, keys, vals, dup, i as nat));
                } else {
                    data.lemma_stored_in_range();
                }
            }
            let res = data.set_element_dup(idx, val, Some(&dup));
            if res.is_none() {
                return Err(GblasError::ExecutionError(ExecutionError::IndexOutOfBounds));
            }
            i += 1;
        }
        Ok(data)
    }

    fn set_element(&mut self, index: IndexType, val: T) -> (r: Result<NoValue, GblasError>) {
        match self.set_element_dup(index, val, Option::<&First<T>>::None) {
            Some(_) => Ok(()),
            None => Err(GblasError::ApiError(ApiError::InvalidIndex)),
        }
    }

    fn remove_element(&mut self, index: IndexType) -> (r: Result<NoValue, GblasError>) {
        if index >= self.size {
            return Err(GblasError::ApiError(ApiError::InvalidIndex));
        }
        let _ = erase(&mut self.data, index);
        Ok(())
    }

    fn extract_element(&self, index: IndexType) -> (r: Result<&T, GblasError>) {
        if index >= self.size {
            return Err(GblasError::ApiError(ApiError::InvalidIndex));
        }
        match lookup(&self.data, index) {
            Some(v) => Ok(v),
            None => Err(GblasError::ApiError(ApiError::NoValue)),
        }
    }

    fn extract_tuples(self) -> (r: Result<(Vec<IndexType>, Vec<T>), GblasError>) {
        let data = self.data;
        let ghost row = data@;
        let mut idxs: Vec<IndexType> = Vec::new();
        let mut vals: Vec<T> = Vec::new();
        for pair in it: data
            invariant
                it.seq() == row,
                idxs@.len() == it.index(),
                vals@.len() == it.index(),
                forall|j: int|
                    0 <= j < it.index() ==> idxs@[j] == row[j].0 && vals@[j] == row[j].1,
        {
            let (idx, val) = pair;
            idxs.push(idx);
            vals.push(val);
        }
        proof {
            assert forall|a: int, b: int| 0 <= a < b < idxs@.len() implies idxs@[a] < idxs@[b] by {
                assert(row[a].0 < row[b].0);
            }
            assert forall|j: int| 0 <= j < idxs@.len() implies row_map(row).contains_key(
                #[trigger] idxs@[j],
            ) && row_map(row)[idxs@[j]] == vals@[j] by {
                lemma_row_map_at(row, j);
            }
            assert forall|k: usize| row_map(row).contains_key(k) implies exists|j: int|
                0 <= j < idxs@.len() && idxs@[j] == k by {
                let p = place(row, k);
                assert(idxs@[p] == k);
            }
        }
        Ok((idxs, vals))
    }
}

impl<T> VectorUtils for SimpleVec<T> where T: Clone + PartialEq {
}

impl<T> Index<IndexType> for SimpleVec<T> where T: Clone + PartialEq {
    type Output = bool;

    /// Whether a value is stored at the position.
    fn index(&self, index: IndexType) -> (r: &bool)
        ensures
            *r == self.entries().contains_key(index),
    {
        match lookup(&self.data, index) {
            Some(_) => &true,
            None => &false,
        }
    }
}

impl<T> vstd::std_specs::core::IndexSpecImpl<IndexType> for SimpleVec<T> where T: Clone + PartialEq {
    open spec fn index_req(&self, index: &IndexType) -> bool {
        self.wf()
    }
}

impl<T> VecMask<Self> for SimpleVec<T> where T: Clone + PartialEq {
    open spec fn container(&self) -> &Self {
        self
    }

    open spec fn readable(&self) -> bool {
        self.wf()
    }

    open spec fn reports(&self, index: IndexType) -> bool {
        self.entries().contains_key(index)
    }

    proof fn lemma_reading(&self, index: IndexType, read: &bool) {
    }

    fn complement(&self) -> (r: VectorComplementMask<Self>) {
        VectorComplementMask::new(self)
    }

    fn structure(&self) -> (r: VectorStructureMask<Self>) {
        VectorStructureMask::new(self)
    }
}

/// The structural mask of a sparse vector reports `true` exactly at the
/// positions where the vector stores a value.
pub proof fn lemma_structure_mask_reports<T: Clone + PartialEq>(
    mask: VectorStructureMask<SimpleVec<T>>,
    index: IndexType,
)
    requires
        mask.source().wf(),
    ensures
        mask.reports(index) == mask.source().entries().contains_key(index),
{
    mask.source().lemma_stored_in_range();
}

/// The complement mask of a sparse vector reports `true` exactly at the
/// positions below its dimension where the vector stores nothing; outside
/// the dimension it reports `false`.
pub proof fn lemma_complement_mask_reports<T: Clone + PartialEq>(
    mask: VectorComplementMask<SimpleVec<T>>,
    index: IndexType,
)
    requires
        mask.source().wf(),
    ensures
        mask.reports(index) == (index < mask.source().dim()
            && !mask.source().entries().contains_key(
            index,
        )),
{
}

} // verus!
