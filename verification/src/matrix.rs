use vstd::prelude::*;
use crate::algebra::BinaryOperator;
use crate::error::{api_err, exec_err, refused, ApiError, ExecutionError, GblasError};
use crate::triplet::{mergeable, merged, triplet_count};
use crate::types::{IndexType, NoValue};

verus! {

/// The positions `(rows[i], cols[i])` of a stream of triplets.
pub open spec fn positions(rows: Seq<usize>, cols: Seq<usize>) -> Seq<(usize, usize)> {
    Seq::new(triplet_count(rows.len() as int, cols.len() as int), |i: int| (rows[i], cols[i]))
}

/// The positions below the dimensions `rows` and `cols`.
pub open spec fn within(rows: usize, cols: usize) -> Set<(usize, usize)> {
    Set::new(|p: (usize, usize)| p.0 < rows && p.1 < cols)
}

/// `rows`, `cols` and `vals` list what `m` stores, each value as a clone,
/// in row-major order: by row, and by column within a row.
pub open spec fn triples_of<T: Clone>(
    rows: Seq<usize>,
    cols: Seq<usize>,
    vals: Seq<T>,
    m: Map<(usize, usize), T>,
) -> bool {
    &&& rows.len() == cols.len()
    &&& rows.len() == vals.len()
    &&& forall|i: int, j: int|
        0 <= i < j < rows.len() ==> rows[i] < rows[j] || (rows[i] == rows[j] && cols[i] < cols[j])
    &&& forall|i: int|
        0 <= i < rows.len() ==> m.contains_key((#[trigger] rows[i], cols[i])) && cloned(
            m[(rows[i], cols[i])],
            vals[i],
        )
    &&& forall|p: (usize, usize)|
        m.contains_key(p) ==> exists|i: int| 0 <= i < rows.len() && (rows[i], cols[i]) == p
}

/// `vals` are the stored values of `m` in row-major order, each as a clone.
pub open spec fn values_of<T: Clone>(vals: Seq<T>, m: Map<(usize, usize), T>) -> bool {
    exists|rows: Seq<usize>, cols: Seq<usize>| #[trigger] triples_of(rows, cols, vals, m)
}

/// The stored values of `m` in row-major order, where clones are exact.
pub open spec fn stored_values<T: Clone>(m: Map<(usize, usize), T>) -> Seq<T> {
    choose|vals: Seq<T>| values_of(vals, m)
}

/// A map has one listing in row-major order: two listings of it agree.
pub proof fn lemma_listing_unique<T: Clone>(
    rows1: Seq<usize>,
    cols1: Seq<usize>,
    vals1: Seq<T>,
    rows2: Seq<usize>,
    cols2: Seq<usize>,
    vals2: Seq<T>,
    m: Map<(usize, usize), T>,
)
    requires
        crate::types::clones_exactly::<T>(),
        triples_of(rows1, cols1, vals1, m),
        triples_of(rows2, cols2, vals2, m),
    ensures
        rows1 == rows2,
        cols1 == cols2,
        vals1 == vals2,
    decreases rows1.len(),
{
    let n1 = rows1.len() as int;
    let n2 = rows2.len() as int;
    if n1 == 0 {
        if n2 > 0 {
            assert(m.contains_key((rows2[0], cols2[0])));
            let i = choose|i: int| 0 <= i < rows1.len() && (rows1[i], cols1[i])
                == (rows2[0], cols2[0]);
        }
        assert(rows1 =~= rows2);
        assert(cols1 =~= cols2);
        assert(vals1 =~= vals2);
    } else {
        let end1 = (rows1[n1 - 1], cols1[n1 - 1]);
        assert(m.contains_key(end1));
        let i2 = choose|i: int| 0 <= i < rows2.len() && (rows2[i], cols2[i]) == end1;
        let end2 = (rows2[n2 - 1], cols2[n2 - 1]);
        assert(m.contains_key(end2));
        let i1 = choose|i: int| 0 <= i < rows1.len() && (rows1[i], cols1[i]) == end2;
        // either last position is the greatest stored position
        assert(end1 == end2) by {
            if i2 < n2 - 1 {
                assert(rows2[i2] < rows2[n2 - 1] || (rows2[i2] == rows2[n2 - 1] && cols2[i2]
                    < cols2[n2 - 1]));
            }
            if i1 < n1 - 1 {
                assert(rows1[i1] < rows1[n1 - 1] || (rows1[i1] == rows1[n1 - 1] && cols1[i1]
                    < cols1[n1 - 1]));
            }
        }
        assert(cloned(m[end1], vals1[n1 - 1]) && cloned(m[end2], vals2[n2 - 1]));
        let rest = m.remove(end1);
        assert(triples_of(rows1.drop_last(), cols1.drop_last(), vals1.drop_last(), rest)) by {
            lemma_listing_rest(rows1, cols1, vals1, m);
        }
        assert(triples_of(rows2.drop_last(), cols2.drop_last(), vals2.drop_last(), rest)) by {
            lemma_listing_rest(rows2, cols2, vals2, m);
        }
        lemma_listing_unique(
            rows1.drop_last(),
            cols1.drop_last(),
            vals1.drop_last(),
            rows2.drop_last(),
            cols2.drop_last(),
            vals2.drop_last(),
            rest,
        );
        assert(rows1 =~= rows1.drop_last().push(rows1[n1 - 1]));
        assert(rows2 =~= rows2.drop_last().push(rows2[n2 - 1]));
        assert(cols1 =~= cols1.drop_last().push(cols1[n1 - 1]));
        assert(cols2 =~= cols2.drop_last().push(cols2[n2 - 1]));
        assert(vals1 =~= vals1.drop_last().push(vals1[n1 - 1]));
        assert(vals2 =~= vals2.drop_last().push(vals2[n2 - 1]));
    }
}

/// A listing without its last triplet lists the map without the last
/// position.
pub proof fn lemma_listing_rest<T: Clone>(
    rows: Seq<usize>,
    cols: Seq<usize>,
    vals: Seq<T>,
    m: Map<(usize, usize), T>,
)
    requires
        rows.len() > 0,
        triples_of(rows, cols, vals, m),
    ensures
        triples_of(
            rows.drop_last(),
            cols.drop_last(),
            vals.drop_last(),
            m.remove((rows.last(), cols.last())),
        ),
{
    let n = rows.len() as int;
    let last = (rows[n - 1], cols[n - 1]);
    let rest = m.remove(last);
    let rs = rows.drop_last();
    let cs = cols.drop_last();
    let vs = vals.drop_last();
    assert forall|i: int| 0 <= i < rs.len() implies rest.contains_key((#[trigger] rs[i], cs[i]))
        && cloned(rest[(rs[i], cs[i])], vs[i]) by {
        assert(rows[i] < rows[n - 1] || (rows[i] == rows[n - 1] && cols[i] < cols[n - 1]));
        assert(m.contains_key((rows[i], cols[i])) && cloned(m[(rows[i], cols[i])], vals[i]));
    }
    assert forall|p: (usize, usize)| rest.contains_key(p) implies exists|i: int|
        0 <= i < rs.len() && (rs[i], cs[i]) == p by {
        let i = choose|i: int| 0 <= i < rows.len() && (rows[i], cols[i]) == p;
        assert(0 <= i < rs.len() && (rs[i], cs[i]) == p);
    }
}

/// A sparse matrix: two dimensions and the values stored at some of the
/// positions below them.
pub trait Matrix: Clone + PartialEq + Sized {
    type Scalar;

    /// The invariant of the representation. Every constructor establishes
    /// it and every operation keeps it.
    spec fn wf(&self) -> bool;

    /// The declared number of rows.
    spec fn row_dim(&self) -> usize;

    /// The declared number of columns.
    spec fn col_dim(&self) -> usize;

    /// The stored values by position `(row, column)`.
    spec fn entries(&self) -> Map<(usize, usize), Self::Scalar>;

    /// A well-formed matrix has positive dimensions and stores finitely
    /// many values, each at a position below the dimensions, and no more
    /// of them than a count can tell.
    proof fn lemma_stored_in_range(&self)
        requires
            self.wf(),
        ensures
            self.row_dim() > 0,
            self.col_dim() > 0,
            self.entries().dom().finite(),
            self.entries().dom().len() <= usize::MAX,
            forall|p: (usize, usize)|
                self.entries().contains_key(p) ==> p.0 < self.row_dim() && p.1 < self.col_dim(),
    ;

    /// An empty matrix of `rows` rows and `cols` columns, neither of which
    /// is to be zero.
    fn new(rows: IndexType, cols: IndexType) -> (r: Result<Self, GblasError>)
        ensures
            rows == 0 || cols == 0 ==> r == api_err::<Self>(ApiError::InvalidValue),
            rows > 0 && cols > 0 ==> (r matches Ok(m) && {
                &&& m.wf()
                &&& m.row_dim() == rows
                &&& m.col_dim() == cols
                &&& m.entries() == Map::<(usize, usize), Self::Scalar>::empty()
            }),
    ;

    /// A deep copy: the same dimensions, and at every stored position a
    /// clone of the value.
    fn dup(&self) -> (r: Result<Self, GblasError>) where Self::Scalar: Clone
        requires
            self.wf(),
        ensures
            r matches Ok(m) && {
                &&& m.wf()
                &&& m.row_dim() == self.row_dim()
                &&& m.col_dim() == self.col_dim()
                &&& m.entries().dom() == self.entries().dom()
                &&& forall|p: (usize, usize)| #[trigger]
                    self.entries().contains_key(p) ==> cloned(self.entries()[p], m.entries()[p])
            },
    ;

    /// Changes the dimensions to `rows` and `cols`, neither of which is to
    /// be zero. What is stored outside the new dimensions is dropped.
    fn resize(&mut self, rows: IndexType, cols: IndexType) -> (r: Result<NoValue, GblasError>)
        requires
            old(self).wf(),
        ensures
            rows == 0 || cols == 0 ==> refused(*old(self), *final(self), r, ApiError::InvalidValue),
            rows > 0 && cols > 0 ==> {
                &&& r is Ok
                &&& final(self).wf()
                &&& final(self).row_dim() == rows
                &&& final(self).col_dim() == cols
                &&& final(self).entries() == old(self).entries().restrict(within(rows, cols))
            },
    ;

    /// Removes every stored value. The dimensions stay.
    fn clear(&mut self) -> (r: Result<NoValue, GblasError>)
        requires
            old(self).wf(),
        ensures
            r is Ok,
            final(self).wf(),
            final(self).row_dim() == old(self).row_dim(),
            final(self).col_dim() == old(self).col_dim(),
            final(self).entries() == Map::<(usize, usize), Self::Scalar>::empty(),
    ;

    /// The number of rows.
    fn nrows(&self) -> (n: IndexType)
        ensures
            n == self.row_dim(),
    ;

    /// The number of columns.
    fn ncols(&self) -> (n: IndexType)
        ensures
            n == self.col_dim(),
    ;

    /// The number of stored values.
    fn nvals(&self) -> (n: IndexType)
        requires
            self.wf(),
        ensures
            n == self.entries().dom().len(),
    ;

    /// Loads the triplets `(rows[i], cols[i], values[i])` into an empty
    /// matrix, in the order of `i` and up to the end of the shortest list.
    /// Values that meet at one position are combined by `dup`, which is to
    /// be defined on every pair that it meets before the first position
    /// that lies outside the matrix. A matrix that stores a value is
    /// refused, and so is a position outside the matrix.
    fn build<Op: BinaryOperator<Self::Scalar, Output = Self::Scalar>>(
        self,
        rows: Vec<IndexType>,
        cols: Vec<IndexType>,
        values: Vec<Self::Scalar>,
        n: IndexType,
        dup: Op,
    ) -> (r: Result<Self, GblasError>)
        requires
            self.wf(),
            forall|i: nat|
                i < triplet_count(positions(rows@, cols@).len() as int, values@.len() as int) && (
                forall|j: int|
                    0 <= j <= i ==> rows@[j] < self.row_dim() && cols@[j] < self.col_dim())
                    ==> #[trigger] mergeable(
                    Map::<(usize, usize), Self::Scalar>::empty(),
                    positions(rows@, cols@),
                    values@,
                    dup,
                    i,
                ),
        ensures
            self.entries().dom().len() > 0 ==> r == api_err::<Self>(ApiError::OutputNotEmpty),
            self.entries().dom().len() == 0 && (exists|i: int|
                0 <= i < triplet_count(positions(rows@, cols@).len() as int, values@.len() as int)
                    && !(rows@[i] < self.row_dim() && cols@[i] < self.col_dim())) ==> r
                == exec_err::<Self>(ExecutionError::IndexOutOfBounds),
            self.entries().dom().len() == 0 && (forall|i: int|
                0 <= i < triplet_count(positions(rows@, cols@).len() as int, values@.len() as int)
                    ==> rows@[i] < self.row_dim() && cols@[i] < self.col_dim()) ==> (r matches Ok(
                m,
            ) && {
                &&& m.wf()
                &&& m.row_dim() == self.row_dim()
                &&& m.col_dim() == self.col_dim()
                &&& m.entries() == merged(
                    Map::<(usize, usize), Self::Scalar>::empty(),
                    positions(rows@, cols@),
                    values@,
                    dup,
                    triplet_count(positions(rows@, cols@).len() as int, values@.len() as int),
                )
            }),
    ;

    /// Stores `value` at `(row, col)`, in place of what is stored there if
    /// anything is. A new position takes a count that can still grow.
    fn set_element(&mut self, row: IndexType, col: IndexType, value: Self::Scalar) -> (r: Result<
        NoValue,
        GblasError,
    >)
        requires
            old(self).wf(),
            old(self).entries().dom().len() < usize::MAX || old(self).entries().contains_key(
                (row, col),
            ),
        ensures
            row >= old(self).row_dim() || col >= old(self).col_dim()
                ==> refused(*old(self), *final(self), r, ApiError::InvalidIndex),
            row < old(self).row_dim() && col < old(self).col_dim() ==> {
                &&& r is Ok
                &&& final(self).wf()
                &&& final(self).row_dim() == old(self).row_dim()
                &&& final(self).col_dim() == old(self).col_dim()
                &&& final(self).entries() == old(self).entries().insert((row, col), value)
            },
    ;

    /// Removes what is stored at `(row, col)`, if anything is.
    fn remove_element(&mut self, row: IndexType, col: IndexType) -> (r: Result<
        NoValue,
        GblasError,
    >)
        requires
            old(self).wf(),
        ensures
            row >= old(self).row_dim() || col >= old(self).col_dim()
                ==> refused(*old(self), *final(self), r, ApiError::InvalidIndex),
            row < old(self).row_dim() && col < old(self).col_dim() ==> {
                &&& r is Ok
                &&& final(self).wf()
                &&& final(self).row_dim() == old(self).row_dim()
                &&& final(self).col_dim() == old(self).col_dim()
                &&& final(self).entries() == old(self).entries().remove((row, col))
            },
    ;

    /// A clone of what is stored at `(row, col)`.
    fn extract_element(&self, row: IndexType, col: IndexType) -> (r: Result<
        Self::Scalar,
        GblasError,
    >) where Self::Scalar: Clone
        requires
            self.wf(),
        ensures
            row >= self.row_dim() || col >= self.col_dim() ==> r == api_err::<Self::Scalar>(
                ApiError::InvalidIndex,
            ),
            row < self.row_dim() && col < self.col_dim() && !self.entries().contains_key(
                (row, col),
            ) ==> r == api_err::<Self::Scalar>(ApiError::NoValue),
            row < self.row_dim() && col < self.col_dim() && self.entries().contains_key((row, col))
                ==> (r matches Ok(v) && cloned(self.entries()[(row, col)], v)),
    ;

    /// All stored positions with clones of their values, in row-major
    /// order.
    fn extract_tuples(&self) -> (r: Result<
        (Vec<IndexType>, Vec<IndexType>, Vec<Self::Scalar>),
        GblasError,
    >) where Self::Scalar: Clone
        requires
            self.wf(),
        ensures
            r matches Ok(t) && triples_of(t.0@, t.1@, t.2@, self.entries()),
    ;
}

/// Round trip: in the matrix that a successful `set_element(row, col,
/// value)` leaves, the position lies below the dimensions and `value` is
/// stored there, which is where `extract_element(row, col)` yields a clone
/// of `value`.
pub proof fn lemma_set_then_extract<M: Matrix>(
    before: M,
    after: M,
    row: IndexType,
    col: IndexType,
    value: M::Scalar,
)
    requires
        before.wf(),
        row < before.row_dim(),
        col < before.col_dim(),
        after.row_dim() == before.row_dim(),
        after.col_dim() == before.col_dim(),
        after.entries() == before.entries().insert((row, col), value),
    ensures
        row < after.row_dim(),
        col < after.col_dim(),
        after.entries().contains_key((row, col)),
        after.entries()[(row, col)] == value,
{
}

/// `triples` lists what `m` stores, each value as a clone, in row-major
/// order.
pub open spec fn listing_of<T: Clone>(
    triples: Seq<(usize, usize, T)>,
    m: Map<(usize, usize), T>,
) -> bool {
    &&& forall|i: int, j: int|
        0 <= i < j < triples.len() ==> triples[i].0 < triples[j].0 || (triples[i].0
            == triples[j].0 && triples[i].1 < triples[j].1)
    &&& forall|i: int|
        0 <= i < triples.len() ==> m.contains_key(((#[trigger] triples[i]).0, triples[i].1))
            && cloned(m[(triples[i].0, triples[i].1)], triples[i].2)
    &&& forall|p: (usize, usize)|
        m.contains_key(p) ==> exists|i: int|
            0 <= i < triples.len() && ((#[trigger] triples[i]).0, triples[i].1) == p
}

/// Traversal of a matrix.
pub trait MatrixExtra: Matrix {
    /// All stored positions with clones of their values, in row-major
    /// order, found by asking for every position below the dimensions.
    fn iter(&self) -> (r: Vec<(IndexType, IndexType, Self::Scalar)>) where Self::Scalar: Clone
        requires
            self.wf(),
        ensures
            listing_of(r@, self.entries()),
    {
        let nrows = self.nrows();
        let ncols = self.ncols();
        let mut out: Vec<(IndexType, IndexType, Self::Scalar)> = Vec::new();
        let mut i: usize = 0;
        while i < nrows
            invariant
                i <= nrows,
                nrows == self.row_dim(),
                ncols == self.col_dim(),
                self.wf(),
                scanned(out@, self.entries(), i, 0),
            decreases nrows - i,
        {
            let mut j: usize = 0;
            while j < ncols
                invariant
                    i < nrows,
                    j <= ncols,
                    nrows == self.row_dim(),
                    ncols == self.col_dim(),
                    self.wf(),
                    scanned(out@, self.entries(), i, j),
                decreases ncols - j,
            {
                let ghost before = out@;
                match self.extract_element(i, j) {
                    Ok(val) => {
                        out.push((i, j, val));
                        proof {
                            assert forall|p: (usize, usize)|
                                self.entries().contains_key(p) && (p.0 < i || (p.0 == i && p.1 < j
                                    + 1)) implies exists|a: int|
                                0 <= a < out@.len() && ((#[trigger] out@[a]).0, out@[a].1) == p by {
                                if p.0 < i || p.1 < j {
                                    let a = choose|a: int|
                                        0 <= a < before.len()
                                            && ((#[trigger] before[a]).0, before[a].1)
                                            == p;
                                    assert((out@[a].0, out@[a].1) == p);
                                } else {
                                    let last = before.len() as int;
                                    assert((out@[last].0, out@[last].1)
                                        == p);
                                }
                            }
                        }
                    },
                    Err(_) => {},
                }
                j += 1;
            }
            proof {
                self.lemma_stored_in_range();
            }
            i += 1;
        }
        proof {
            self.lemma_stored_in_range();
        }
        out
    }

    /// Every position below the dimensions, in row-major order.
    fn index_iter(&self) -> (r: Vec<(IndexType, IndexType)>)
        requires
            self.wf(),
        ensures
            r@.len() == self.row_dim() * self.col_dim(),
            forall|i: int, j: int|
                0 <= i < self.row_dim() && 0 <= j < self.col_dim() ==> r@[#[trigger] cell(
                    i,
                    j,
                    self.col_dim() as int,
                )] == (i as usize, j as usize),
    {
        let nrows = self.nrows();
        let ncols = self.ncols();
        let ghost width = ncols as int;
        let mut out: Vec<(IndexType, IndexType)> = Vec::new();
        let mut i: usize = 0;
        while i < nrows
            invariant
                i <= nrows,
                nrows == self.row_dim(),
                ncols == self.col_dim(),
                width == ncols,
                out@.len() == i * ncols,
                forall|a: int, b: int|
                    0 <= a < i && 0 <= b < ncols ==> out@[#[trigger] cell(a, b, width)] == (
                        a as usize,
                        b as usize,
                    ),
            decreases nrows - i,
        {
            let mut j: usize = 0;
            while j < ncols
                invariant
                    i < nrows,
                    j <= ncols,
                    nrows == self.row_dim(),
                    ncols == self.col_dim(),
                    width == ncols,
                    out@.len() == i * ncols + j,
                    forall|a: int, b: int|
                        0 <= a < i && 0 <= b < ncols ==> out@[#[trigger] cell(a, b, width)] == (
                            a as usize,
                            b as usize,
                        ),
                    forall|b: int|
                        0 <= b < j ==> out@[#[trigger] cell(i as int, b, width)] == (i, b as usize),
                decreases ncols - j,
            {
                let ghost before = out@;
                out.push((i, j));
                proof {
                    assert forall|a: int, b: int| 0 <= a < i && 0 <= b < ncols implies out@[
                    #[trigger] cell(a, b, width)] == (a as usize, b as usize) by {
                        lemma_cell_below(a, b, i as int, width);
                        assert(out@[cell(a, b, width)] == before[cell(a, b, width)]);
                    }
                    assert forall|b: int| 0 <= b < j + 1 implies out@[#[trigger] cell(
                        i as int,
                        b,
                        width,
                    )] == (i, b as usize) by {
                        if b < j {
                            assert(out@[cell(i as int, b, width)] == before[cell(
                                i as int,
                                b,
                                width,
                            )]);
                        }
                    }
                }
                j += 1;
            }
            proof {
                assert((i + 1) * ncols == i * ncols + ncols) by (nonlinear_arith);
            }
            i += 1;
        }
        out
    }
}

/// The place of cell `(i, j)` among the cells of a grid of `ncols` columns
/// laid out row by row.
pub open spec fn cell(i: int, j: int, ncols: int) -> int {
    i * ncols + j
}

/// `triples` lists, in row-major order and with a clone of each value, what
/// `m` stores in the rows before row `i` and in the columns before column
/// `j` of row `i`.
pub open spec fn scanned<T: Clone>(
    triples: Seq<(usize, usize, T)>,
    m: Map<(usize, usize), T>,
    i: usize,
    j: usize,
) -> bool {
    &&& forall|a: int, b: int|
        0 <= a < b < triples.len() ==> triples[a].0 < triples[b].0 || (triples[a].0
            == triples[b].0 && triples[a].1 < triples[b].1)
    &&& forall|a: int|
        0 <= a < triples.len() ==> {
            &&& ((#[trigger] triples[a]).0 < i || (triples[a].0 == i && triples[a].1 < j))
            &&& m.contains_key((triples[a].0, triples[a].1))
            &&& cloned(m[(triples[a].0, triples[a].1)], triples[a].2)
        }
    &&& forall|p: (usize, usize)|
        m.contains_key(p) && (p.0 < i || (p.0 == i && p.1 < j)) ==> exists|a: int|
            0 <= a < triples.len() && ((#[trigger] triples[a]).0, triples[a].1) == p
}

/// A cell of a row before row `i` lies before the cells of row `i`.
pub proof fn lemma_cell_below(a: int, b: int, i: int, ncols: int)
    requires
        0 <= a < i,
        0 <= b < ncols,
    ensures
        0 <= cell(a, b, ncols) < i * ncols,
{
    assert(a * ncols + b < i * ncols) by (nonlinear_arith)
        requires
            0 <= a < i,
            0 <= b < ncols,
    ;
    assert(0 <= a * ncols) by (nonlinear_arith)
        requires
            0 <= a,
            0 <= ncols,
    ;
}

} // verus!
