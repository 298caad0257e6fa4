use vstd::prelude::*;
use core::ops::Index;
use crate::complement_mask::{MatrixComplementMask, VectorComplementMask};
use crate::matrix::Matrix;
use crate::structure_mask::{MatrixStructureMask, VectorStructureMask};
use crate::types::IndexType;
use crate::vector::Vector;

verus! {

/// What can serve as the mask of a vector operation. Views derived from a
/// mask read the vector that the mask itself reads, never the mask.
pub trait VecMask<V>: Index<IndexType, Output = bool> {
    /// The vector whose occupancy the mask reads.
    spec fn container(&self) -> &V;

    /// The mask can be read: the vector behind it is well formed.
    spec fn readable(&self) -> bool;

    /// What the mask reports of a position.
    spec fn reports(&self, index: IndexType) -> bool;

    /// A readable mask can be read at every position, and what reading it
    /// gives is what it reports.
    proof fn lemma_reading(&self, index: IndexType, read: &bool)
        requires
            self.readable(),
        ensures
            call_requires(<Self as Index<IndexType>>::index, (self, index)),
            call_ensures(<Self as Index<IndexType>>::index, (self, index), read) ==> *read
                == self.reports(index),
    ;

    /// The complement mask of the vector behind this mask.
    fn complement(&self) -> (r: VectorComplementMask<V>)
        ensures
            r.source() == self.container(),
    ;

    /// The structural mask of the vector behind this mask.
    fn structure(&self) -> (r: VectorStructureMask<V>)
        ensures
            r.source() == self.container(),
    ;
}

impl<V> VecMask<V> for VectorStructureMask<'_, V> where V: Vector + VecMask<V> {
    open spec fn container(&self) -> &V {
        self.source()
    }

    open spec fn readable(&self) -> bool {
        self.source().readable()
    }

    open spec fn reports(&self, index: IndexType) -> bool {
        index < self.source().dim() && self.source().reports(index)
    }

    proof fn lemma_reading(&self, index: IndexType, read: &bool) {
        self.source().lemma_reading(index, read);
        if index < self.source().dim() && call_ensures(
            <Self as Index<IndexType>>::index,
            (self, index),
            read,
        ) {
            
        }
    }

    fn complement(&self) -> (r: VectorComplementMask<V>) {
        VectorComplementMask::new(self.inner())
    }

    fn structure(&self) -> (r: VectorStructureMask<V>) {
        VectorStructureMask::new(self.inner())
    }
}

impl<V> VecMask<V> for VectorComplementMask<'_, V> where V: Vector + VecMask<V> {
    open spec fn container(&self) -> &V {
        self.source()
    }

    open spec fn readable(&self) -> bool {
        self.source().readable()
    }

    open spec fn reports(&self, index: IndexType) -> bool {
        index < self.source().dim() && !self.source().reports(index)
    }

    proof fn lemma_reading(&self, index: IndexType, read: &bool) {
        self.source().lemma_reading(index, read);
        if index < self.source().dim() && call_ensures(
            <Self as Index<IndexType>>::index,
            (self, index),
            read,
        ) {
            let stored = choose|stored: &bool|
                call_ensures(<V as Index<IndexType>>::index, (self.source(), index), stored)
                    && *read == !*stored;
            self.source().lemma_reading(index, stored);
        }
    }

    fn complement(&self) -> (r: VectorComplementMask<V>) {
        VectorComplementMask::new(self.inner())
    }

    fn structure(&self) -> (r: VectorStructureMask<V>) {
        VectorStructureMask::new(self.inner())
    }
}

/// What can serve as the mask of a matrix operation. Views derived from a
/// mask read the matrix that the mask itself reads, never the mask.
pub trait MatMask<M>: Index<(IndexType, IndexType), Output = bool> {
    /// The matrix whose occupancy the mask reads.
    spec fn container(&self) -> &M;

    /// The mask can be read: the matrix behind it is well formed.
    spec fn readable(&self) -> bool;

    /// What the mask reports of a position.
    spec fn reports(&self, position: (IndexType, IndexType)) -> bool;

    /// A readable mask can be read at every position, and what reading it
    /// gives is what it reports.
    proof fn lemma_reading(&self, position: (IndexType, IndexType), read: &bool)
        requires
            self.readable(),
        ensures
            call_requires(<Self as Index<(IndexType, IndexType)>>::index, (self, position)),
            call_ensures(<Self as Index<(IndexType, IndexType)>>::index, (self, position), read)
                ==> *read == self.reports(position),
    ;

    /// The complement mask of the matrix behind this mask.
    fn complement(&self) -> (r: MatrixComplementMask<M>)
        ensures
            r.source() == self.container(),
    ;

    /// The structural mask of the matrix behind this mask.
    fn structure(&self) -> (r: MatrixStructureMask<M>)
        ensures
            r.source() == self.container(),
    ;
}

impl<M> MatMask<M> for MatrixStructureMask<'_, M> where M: Matrix + MatMask<M> {
    open spec fn container(&self) -> &M {
        self.source()
    }

    open spec fn readable(&self) -> bool {
        self.source().readable()
    }

    open spec fn reports(&self, position: (IndexType, IndexType)) -> bool {
        position.0 < self.source().row_dim() && position.1 < self.source().col_dim()
            && self.source().reports(position)
    }

    proof fn lemma_reading(&self, position: (IndexType, IndexType), read: &bool) {
        self.source().lemma_reading(position, read);
        if position.0 < self.source().row_dim() && position.1 < self.source().col_dim()
            && call_ensures(<Self as Index<(IndexType, IndexType)>>::index, (self, position), read) {
            
        }
    }

    fn complement(&self) -> (r: MatrixComplementMask<M>) {
        MatrixComplementMask::new(self.inner())
    }

    fn structure(&self) -> (r: MatrixStructureMask<M>) {
        MatrixStructureMask::new(self.inner())
    }
}

impl<M> MatMask<M> for MatrixComplementMask<'_, M> where M: Matrix + MatMask<M> {
    open spec fn container(&self) -> &M {
        self.source()
    }

    open spec fn readable(&self) -> bool {
        self.source().readable()
    }

    open spec fn reports(&self, position: (IndexType, IndexType)) -> bool {
        position.0 < self.source().row_dim() && position.1 < self.source().col_dim()
            && !self.source().reports(position)
    }

    proof fn lemma_reading(&self, position: (IndexType, IndexType), read: &bool) {
        self.source().lemma_reading(position, read);
        if position.0 < self.source().row_dim() && position.1 < self.source().col_dim()
            && call_ensures(<Self as Index<(IndexType, IndexType)>>::index, (self, position), read) {
            let stored = choose|stored: &bool|
                call_ensures(
                    <M as Index<(IndexType, IndexType)>>::index,
                    (self.source(), position),
                    stored,
                ) && *read == !*stored;
            self.source().lemma_reading(position, stored);
        }
    }

    fn complement(&self) -> (r: MatrixComplementMask<M>) {
        MatrixComplementMask::new(self.inner())
    }

    fn structure(&self) -> (r: MatrixStructureMask<M>) {
        MatrixStructureMask::new(self.inner())
    }
}

} // verus!
