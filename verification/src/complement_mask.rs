use vstd::prelude::*;
use core::ops::Index;
use crate::matrix::Matrix;
use crate::types::IndexType;
use crate::vector::Vector;

verus! {

/// A read-only view of a matrix that reports where no value is stored,
/// among the positions below its dimensions.
pub struct MatrixComplementMask<'a, M> {
    pub(crate) mat: &'a M,
}

impl<'a, M> MatrixComplementMask<'a, M> {
    /// The matrix that the mask reads.
    pub closed spec fn source(&self) -> &M {
        self.mat
    }

    /// A mask over `mat`.
    pub fn new(mat: &'a M) -> (r: Self)
        ensures
            r.source() == mat,
    {
        Self { mat }
    }

    /// The matrix that the mask reads.
    pub(crate) fn inner(&self) -> (r: &'a M)
        ensures
            r == self.source(),
    {
        self.mat
    }
}

impl<'a, M> MatrixComplementMask<'a, M> where M: Matrix {
    /// The number of columns of the matrix behind the mask.
    pub fn ncols(&self) -> (n: IndexType)
        ensures
            n == self.source().col_dim(),
    {
        self.mat.ncols()
    }

    /// The number of rows of the matrix behind the mask.
    pub fn nrows(&self) -> (n: IndexType)
        ensures
            n == self.source().row_dim(),
    {
        self.mat.nrows()
    }
}

impl<M> Index<(IndexType, IndexType)> for MatrixComplementMask<'_, M> where
    M: Matrix + Index<(IndexType, IndexType), Output = bool>,
 {
    type Output = bool;

    /// `false` outside the dimensions of the matrix; inside them, the
    /// negation of what the matrix itself reports of the position.
    fn index(&self, index: (IndexType, IndexType)) -> (r: &bool)
        ensures
            index.0 >= self.source().row_dim() || index.1 >= self.source().col_dim() ==> !*r,
            index.0 < self.source().row_dim() && index.1 < self.source().col_dim() ==> exists|
                stored: &bool,
            |
                call_ensures(
                    <M as Index<(IndexType, IndexType)>>::index,
                    (self.source(), index),
                    stored,
                ) && *r == !*stored,
    {
        if index.0 >= self.mat.nrows() || index.1 >= self.mat.ncols() {
            return &false;
        }
        let is_val = *self.mat.index(index);
        if is_val {
            &false
        } else {
            &true
        }
    }
}

impl<M> vstd::std_specs::core::IndexSpecImpl<(IndexType, IndexType)> for MatrixComplementMask<'_, M> where
    M: Matrix + Index<(IndexType, IndexType), Output = bool>,
 {
    open spec fn index_req(&self, index: &(IndexType, IndexType)) -> bool {
        index.0 < self.source().row_dim() && index.1 < self.source().col_dim()
            ==> call_requires(
            <M as Index<(IndexType, IndexType)>>::index,
            (self.source(), *index),
        )
    }
}

/// A read-only view of a vector that reports where no value is stored,
/// among the positions below its dimensions.
pub struct VectorComplementMask<'a, V> {
    pub(crate) vector: &'a V,
}

impl<'a, V> VectorComplementMask<'a, V> {
    /// The vector that the mask reads.
    pub closed spec fn source(&self) -> &V {
        self.vector
    }

    /// A mask over `vector`.
    pub fn new(vector: &'a V) -> (r: Self)
        ensures
            r.source() == vector,
    {
        Self { vector }
    }

    /// The vector that the mask reads.
    pub(crate) fn inner(&self) -> (r: &'a V)
        ensures
            r == self.source(),
    {
        self.vector
    }
}

impl<'a, V> VectorComplementMask<'a, V> where V: Vector {
    /// The dimension of the vector behind the mask.
    pub fn size(&self) -> (n: IndexType)
        ensures
            n == self.source().dim(),
    {
        self.vector.size()
    }
}

impl<V> Index<IndexType> for VectorComplementMask<'_, V> where
    V: Vector + Index<IndexType, Output = bool>,
 {
    type Output = bool;

    /// `false` outside the dimension of the vector; inside it, the
    /// negation of what the vector itself reports of the position.
    fn index(&self, index: IndexType) -> (r: &bool)
        ensures
            index >= self.source().dim() ==> !*r,
            index < self.source().dim() ==> exists|stored: &bool|
                call_ensures(<V as Index<IndexType>>::index, (self.source(), index), stored) && *r
                    == !*stored,
    {
        if index >= self.vector.size() {
            return &false;
        }
        let is_val = *self.vector.index(index);
        if is_val {
            &false
        } else {
            &true
        }
    }
}

impl<V> vstd::std_specs::core::IndexSpecImpl<IndexType> for VectorComplementMask<'_, V> where
    V: Vector + Index<IndexType, Output = bool>,
 {
    open spec fn index_req(&self, index: &IndexType) -> bool {
        *index < self.source().dim() ==> call_requires(
            <V as Index<IndexType>>::index,
            (self.source(), *index),
        )
    }
}

} // verus!
