use vstd::prelude::*;
use vstd::set_lib::lemma_len_subset;
use core::ops::Index;
use crate::algebra::{BinaryOperator, First};
use crate::backend::grid::{
    copy_of, grid_map, grid_wf, lemma_accumulable_row, lemma_copy, lemma_grid_empty, lemma_grid_len,
    lemma_grid_push_empty, lemma_grid_update, lemma_listed_all, lemma_listed_row, lemma_listed_step,
    lemma_total_update, lemma_written_rows, listed, row_at, row_slice, rows_of, total,
};
use crate::backend::kernels::{mat_flags, region_flags, write_row};
use crate::backend::row::{
    bounded, cut, erase, lemma_row_map_at, lemma_row_map_empty, lookup, row_map, sorted, upsert,
};
use crate::complement_mask::MatrixComplementMask;
use crate::descriptor::Descriptor;
use crate::error::{ApiError, ExecutionError, GblasError};
use crate::indices::IndexSet;
use crate::mask::MatMask;
use crate::matrix::{Matrix, MatrixExtra, positions, triples_of, within};
use crate::operations::{accumulable, assigned, mat_admitted, mat_outcome, replaces, written};
use crate::structure_mask::MatrixStructureMask;
use crate::triplet::{lemma_merge_one_len, merge_one, mergeable, merged, triplet_count};
use crate::types::{clones_exactly, IndexType, NoValue};

verus! {

/// A sparse matrix kept row by row: a growable list of sorted rows, of
/// which only those up to the last one written exist.
#[derive(Debug, Clone, PartialEq)]
pub struct SparseMatrix<T> {
    mat: Vec<Vec<(IndexType, T)>>,
    nrows: IndexType,
    ncols: IndexType,
    nvals: IndexType,
}

impl<T> SparseMatrix<T> where T: Clone + PartialEq {
    /// The rows that exist, as sequences of pairs.
    pub closed spec fn rows(&self) -> Seq<Seq<(usize, T)>> {
        rows_of(self.mat@)
    }

    /// Stores `value` at `(row, col)`. Where a value is stored there
    /// already, it is replaced by `dup` of the stored value and `value` if
    /// `dup` is given, and by `value` if not. Returns `None`, and changes
    /// nothing, where the position is not below the dimensions.
    pub fn set_element_dup<Op: BinaryOperator<T, Output = T>>(
        &mut self,
        row: IndexType,
        col: IndexType,
        value: T,
        dup: Option<&Op>,
    ) -> (r: Option<NoValue>)
        requires
            old(self).wf(),
            old(self).entries().dom().len() < usize::MAX || old(self).entries().contains_key(
                (row, col),
            ),
            dup matches Some(op) ==> (old(self).entries().contains_key((row, col)) ==> op.defined(
                old(self).entries()[(row, col)],
                value,
            )),
        ensures
            row >= old(self).row_dim() || col >= old(self).col_dim() ==> r is None && *final(self)
                == *old(self),
            row < old(self).row_dim() && col < old(self).col_dim()
                ==> r is Some && final(self).wf() && final(self).row_dim()
                    == old(self).row_dim() && final(self).col_dim() == old(self).col_dim(),
            row < old(self).row_dim() && col < old(self).col_dim() ==> final(self).entries() == (
            match dup {
                Some(op) => merge_one(old(self).entries(), (row, col), value, *op),
                None => old(self).entries().insert((row, col), value),
            }),
    {
        if row >= self.nrows || col >= self.ncols {
            return None;
        }
        proof {
            lemma_grid_len(self.rows());
        }
        while self.mat.len() <= row
            invariant
                row < self.nrows,
                self.nrows == old(self).nrows,
                self.ncols == old(self).ncols,
                self.nvals == old(self).nvals,
                self.mat@.len() <= self.nrows,
                grid_wf(rows_of(self.mat@), self.ncols),
                total(rows_of(self.mat@)) == total(old(self).rows()),
                grid_map(rows_of(self.mat@)) == grid_map(old(self).rows()),
            decreases self.nrows - self.mat@.len(),
        {
            let ghost before = rows_of(self.mat@);
            self.mat.push(Vec::new());
            proof {
                assert(rows_of(self.mat@) =~= before.push(Seq::empty()));
                lemma_grid_push_empty(before);
                assert forall|r: int| 0 <= r < rows_of(self.mat@).len() implies sorted(
                    #[trigger] rows_of(self.mat@)[r],
                ) && bounded(rows_of(self.mat@)[r], self.ncols) by {
                    if r < before.len() {
                        assert(rows_of(self.mat@)[r] == before[r]);
                    }
                }
            }
        }
        let ghost before = rows_of(self.mat@);
        proof {
            assert(sorted(before[row as int]) && bounded(before[row as int], self.ncols));
            assert(grid_map(before).contains_key((row, col)) == row_map(
                before[row as int],
            ).contains_key(col));
        }
        let grown = upsert(&mut self.mat[row], col, value, dup);
        proof {
            let after = rows_of(self.mat@);
            let fresh = after[row as int];
            assert(after =~= before.update(row as int, fresh));
            lemma_total_update(before, row as int, fresh);
            lemma_grid_update(before, row, fresh);
            assert forall|r: int| 0 <= r < after.len() implies sorted(#[trigger] after[r])
                && bounded(after[r], self.ncols) by {
                if r != row {
                    assert(after[r] == before[r]);
                }
            }
            let target = match dup {
                Some(op) => merge_one(grid_map(before), (row, col), value, *op),
                None => grid_map(before).insert((row, col), value),
            };
            assert(grid_map(after) =~= target);
        }
        if grown {
            self.nvals += 1;
        }
        Some(())
    }

    /// Writes the result rows `t` of an operation into the matrix, under
    /// the mask, the accumulator and the descriptor. Where the output would
    /// store more values than a count can tell, nothing is written.
    pub(crate) fn write<Mk: MatMask<Self>, Acc: BinaryOperator<T, Output = T>>(
        &mut self,
        t: &Vec<Vec<(IndexType, T)>>,
        mask: &Option<Mk>,
        accum: &Option<Acc>,
        desc: Option<Descriptor>,
    ) -> (r: Result<NoValue, GblasError>)
        requires
            old(self).wf(),
            clones_exactly::<T>(),
            t@.len() <= old(self).row_dim(),
            grid_wf(rows_of(t@), old(self).col_dim()),
            mask matches Some(m) ==> m.readable(),
            accumulable(
                old(self).entries(),
                grid_map(rows_of(t@)),
                mat_admitted(*mask, desc),
                *accum,
            ),
        ensures
            mat_outcome(
                *old(self),
                *final(self),
                r,
                written(
                    old(self).entries(),
                    grid_map(rows_of(t@)),
                    mat_admitted(*mask, desc),
                    *accum,
                    replaces(desc),
                ),
            ),
    {
        let everything = IndexSet::all();
        self.write_within(t, &everything, &everything, mask, accum, desc, Ghost(Set::full()))
    }

    /// Writes the result rows `t` of an operation that reaches the
    /// positions of `region` only: those whose row `rows_in` holds and
    /// whose column `cols_in` holds.
    pub(crate) fn write_within<Mk: MatMask<Self>, Acc: BinaryOperator<T, Output = T>>(
        &mut self,
        t: &Vec<Vec<(IndexType, T)>>,
        rows_in: &IndexSet,
        cols_in: &IndexSet,
        mask: &Option<Mk>,
        accum: &Option<Acc>,
        desc: Option<Descriptor>,
        Ghost(region): Ghost<Set<(IndexType, IndexType)>>,
    ) -> (r: Result<NoValue, GblasError>)
        requires
            old(self).wf(),
            clones_exactly::<T>(),
            t@.len() <= old(self).row_dim(),
            grid_wf(rows_of(t@), old(self).col_dim()),
            rows_in.wf(),
            cols_in.wf(),
            forall|p: (IndexType, IndexType)|
                p.0 < old(self).row_dim() && p.1 < old(self).col_dim() ==> (
                #[trigger] region.contains(p) <==> rows_in.holds(p.0) && cols_in.holds(p.1)),
            forall|p: (IndexType, IndexType)|
                grid_map(rows_of(t@)).contains_key(p) ==> #[trigger] region.contains(p),
            mask matches Some(m) ==> m.readable(),
            accumulable(
                old(self).entries(),
                grid_map(rows_of(t@)),
                mat_admitted(*mask, desc),
                *accum,
            ),
        ensures
            mat_outcome(
                *old(self),
                *final(self),
                r,
                assigned(
                    old(self).entries(),
                    grid_map(rows_of(t@)),
                    mat_admitted(*mask, desc),
                    region,
                    *accum,
                    replaces(desc),
                ),
            ),
    {
        let replace = match desc {
            Some(d) => d.replace_output,
            None => false,
        };
        let height = if self.mat.len() < t.len() {
            t.len()
        } else {
            self.mat.len()
        };
        let ghost c_rows = self.rows();
        let ghost t_rows = rows_of(t@);
        let ghost admitted = mat_admitted(*mask, desc);
        let ghost whole = assigned(
            grid_map(c_rows),
            grid_map(t_rows),
            admitted,
            region,
            *accum,
            replace,
        );
        let empty: Vec<(IndexType, T)> = Vec::new();
        let mut fresh: Vec<Vec<(IndexType, T)>> = Vec::new();
        let mut count: usize = 0;
        let mut r: usize = 0;
        proof {
            lemma_grid_len(c_rows);
            lemma_grid_len(t_rows);
            assert(whole.dom().subset_of(grid_map(c_rows).dom() + grid_map(t_rows).dom()));
            lemma_len_subset(whole.dom(), grid_map(c_rows).dom() + grid_map(t_rows).dom());
            lemma_grid_empty(rows_of(fresh@));
        }
        while r < height
            invariant
                r <= height,
                height <= self.nrows,
                height >= self.mat@.len(),
                height >= t@.len(),
                *self == *old(self),
                self.wf(),
                clones_exactly::<T>(),
                replace == replaces(desc),
                c_rows == self.rows(),
                t_rows == rows_of(t@),
                grid_wf(t_rows, self.ncols),
                admitted == mat_admitted(*mask, desc),
                mask matches Some(m) ==> m.readable(),
                accumulable(grid_map(c_rows), grid_map(t_rows), admitted, *accum),
                whole == assigned(
                    grid_map(c_rows),
                    grid_map(t_rows),
                    admitted,
                    region,
                    *accum,
                    replace,
                ),
                rows_in.wf(),
                cols_in.wf(),
                forall|p: (IndexType, IndexType)|
                    p.0 < self.nrows && p.1 < self.ncols ==> (#[trigger] region.contains(p)
                        <==> rows_in.holds(p.0) && cols_in.holds(p.1)),
                forall|p: (IndexType, IndexType)|
                    grid_map(t_rows).contains_key(p) ==> #[trigger] region.contains(p),
                whole.dom().finite(),
                empty@.len() == 0,
                fresh@.len() == r,
                grid_wf(rows_of(fresh@), self.ncols),
                count == total(rows_of(fresh@)),
                forall|x: int|
                    0 <= x < r ==> row_map(#[trigger] rows_of(fresh@)[x]) == assigned(
                        row_map(row_at(c_rows, x)),
                        row_map(row_at(t_rows, x)),
                        row_slice(admitted, x as usize),
                        row_slice(region, x as usize),
                        *accum,
                        replace,
                    ),
            decreases height - r,
        {
            let c_row = if r < self.mat.len() {
                &self.mat[r]
            } else {
                &empty
            };
            let t_row = if r < t.len() {
                &t[r]
            } else {
                &empty
            };
            proof {
                lemma_row_map_empty::<T>();
                assert(c_row@ == row_at(c_rows, r as int));
                assert(t_row@ == row_at(t_rows, r as int));
                if r < self.mat@.len() {
                    assert(sorted(c_rows[r as int]) && bounded(c_rows[r as int], self.ncols));
                }
                if r < t@.len() {
                    assert(sorted(t_rows[r as int]) && bounded(t_rows[r as int], self.ncols));
                }
                lemma_accumulable_row(c_rows, t_rows, admitted, *accum, r);
            }
            let c_ok = mat_flags(mask, desc, r, c_row);
            let row_in = rows_in.contains(r);
            let c_in = region_flags(row_in, cols_in, c_row);
            let t_ok = mat_flags(mask, desc, r, t_row);
            proof {
                assert forall|i: int| 0 <= i < c_row@.len() implies c_in@[i] == row_slice(
                    region,
                    r,
                ).contains((#[trigger] c_row@[i]).0) by {
                    assert(c_in@[i] == (row_in && cols_in.holds(c_row@[i].0)));
                    assert(c_row@[i].0 < self.ncols);
                    assert(region.contains((r, c_row@[i].0)) <==> rows_in.holds(r)
                        && cols_in.holds(c_row@[i].0));
                }
                assert forall|j: int| 0 <= j < t_row@.len() implies row_slice(region, r).contains(
                    (#[trigger] t_row@[j]).0,
                ) by {
                    lemma_row_map_at(t_row@, j);
                    assert(grid_map(t_rows).contains_key((r, t_row@[j].0)));
                }
            }
            let row = write_row(
                c_row,
                &c_ok,
                &c_in,
                t_row,
                &t_ok,
                accum.as_ref(),
                replace,
                Ghost(row_slice(admitted, r)),
                Ghost(row_slice(region, r)),
            );
            let ghost before = rows_of(fresh@);
            let sum = count.checked_add(row.len());
            proof {
                // the rows written so far, with this one
                let next = before.push(row@);
                assert(next.drop_last() =~= before);
                assert forall|x: int| 0 <= x < next.len() implies row_map(#[trigger] next[x])
                    == assigned(
                    row_map(row_at(c_rows, x)),
                    row_map(row_at(t_rows, x)),
                    row_slice(admitted, x as usize),
                    row_slice(region, x as usize),
                    *accum,
                    replace,
                ) by {
                    if x < r {
                        assert(next[x] == before[x]);
                    }
                }
                assert forall|x: int| 0 <= x < next.len() implies sorted(#[trigger] next[x])
                    && bounded(next[x], self.ncols) by {
                    if x < r {
                        assert(next[x] == before[x]);
                    }
                }
                lemma_written_rows(c_rows, t_rows, next, admitted, region, *accum, replace);
                lemma_grid_len(next);
                assert(grid_map(next).dom().subset_of(whole.dom()));
                lemma_len_subset(grid_map(next).dom(), whole.dom());
            }
            match sum {
                Some(s) => {
                    count = s;
                },
                None => {
                    return Err(GblasError::ExecutionError(ExecutionError::OutOfMemory));
                },
            }
            fresh.push(row);
            proof {
                assert(rows_of(fresh@) =~= before.push(row@));
            }
            r += 1;
        }
        proof {
            lemma_written_rows(c_rows, t_rows, rows_of(fresh@), admitted, region, *accum, replace);
            lemma_grid_len(rows_of(fresh@));
        }
        self.mat = fresh;
        self.nvals = count;
        Ok(())
    }

    /// All stored positions with clones of their values, in row-major
    /// order.
    fn tuples(&self) -> (t: (Vec<IndexType>, Vec<IndexType>, Vec<T>))
        requires
            self.wf(),
        ensures
            triples_of(t.0@, t.1@, t.2@, self.entries()),
    {
        let mut rows: Vec<IndexType> = Vec::new();
        let mut cols: Vec<IndexType> = Vec::new();
        let mut values: Vec<T> = Vec::new();
        let ghost grid = self.rows();
        let mut r: usize = 0;
        while r < self.mat.len()
            invariant
                r <= self.mat@.len(),
                grid == self.rows(),
                self.wf(),
                listed(rows@, cols@, values@, grid, r as int, 0),
            decreases self.mat@.len() - r,
        {
            let source = &self.mat[r];
            let mut j: usize = 0;
            while j < source.len()
                invariant
                    r < self.mat@.len(),
                    j <= source@.len(),
                    source@ == grid[r as int],
                    grid == self.rows(),
                    self.wf(),
                    listed(rows@, cols@, values@, grid, r as int, j as int),
                decreases source@.len() - j,
            {
                let v = source[j].1.clone();
                let ghost before = (rows@, cols@, values@);
                rows.push(r);
                cols.push(source[j].0);
                values.push(v);
                proof {
                    lemma_listed_step(before.0, before.1, before.2, grid, r as int, j as int, v);
                }
                j += 1;
            }
            proof {
                lemma_listed_row(rows@, cols@, values@, grid, r as int);
            }
            r += 1;
        }
        proof {
            lemma_listed_all(rows@, cols@, values@, grid);
        }
        (rows, cols, values)
    }
}

impl<T> Matrix for SparseMatrix<T> where T: Clone + PartialEq {
    type Scalar = T;

    closed spec fn wf(&self) -> bool {
        &&& self.nrows > 0
        &&& self.ncols > 0
        &&& self.mat@.len() <= self.nrows
        &&& grid_wf(self.rows(), self.ncols)
        &&& self.nvals == total(self.rows())
    }

    closed spec fn row_dim(&self) -> usize {
        self.nrows
    }

    closed spec fn col_dim(&self) -> usize {
        self.ncols
    }

    closed spec fn entries(&self) -> Map<(usize, usize), T> {
        grid_map(self.rows())
    }

    proof fn lemma_stored_in_range(&self) {
        lemma_grid_len(self.rows());
        assert forall|p: (usize, usize)| self.entries().contains_key(p) implies p.0 < self.nrows
            && p.1 < self.ncols by {
            let row = self.rows()[p.0 as int];
            assert(sorted(row) && bounded(row, self.ncols));
            let i = crate::backend::row::place(row, p.1);
            assert(row[i].0 < self.ncols);
        }
    }

    fn new(rows: IndexType, cols: IndexType) -> (r: Result<Self, GblasError>) {
        if rows == 0 || cols == 0 {
            return Err(GblasError::ApiError(ApiError::InvalidValue));
        }
        let m = Self { mat: Vec::new(), nrows: rows, ncols: cols, nvals: 0 };
        proof {
            lemma_grid_empty(m.rows());
        }
        Ok(m)
    }

    fn nrows(&self) -> (n: IndexType) {
        self.nrows
    }

    fn ncols(&self) -> (n: IndexType) {
        self.ncols
    }

    fn nvals(&self) -> (n: IndexType) {
        proof {
            lemma_grid_len(self.rows());
        }
        self.nvals
    }

    fn set_element(&mut self, row: IndexType, col: IndexType, value: T) -> (r: Result<
        NoValue,
        GblasError,
    >) {
        match self.set_element_dup(row, col, value, Option::<&First<T>>::None) {
            Some(_) => Ok(()),
            None => Err(GblasError::ApiError(ApiError::InvalidIndex)),
        }
    }

    #[verifier::loop_isolation(false)]
    fn resize(&mut self, rows: IndexType, cols: IndexType) -> (r: Result<NoValue, GblasError>) {
        if rows == 0 || cols == 0 {
            return Err(GblasError::ApiError(ApiError::InvalidValue));
        }
        let ghost start = self.rows();
        if rows < self.nrows {
            while self.mat.len() > rows
                invariant
                    self.ncols == old(self).ncols,
                    self.mat@.len() <= start.len(),
                    self.mat@.len() >= rows || self.mat@.len() == start.len(),
                    rows_of(self.mat@) == start.take(self.mat@.len() as int),
                    grid_wf(rows_of(self.mat@), self.ncols),
                    self.nvals == total(rows_of(self.mat@)),
                decreases self.mat@.len(),
            {
                let ghost before = rows_of(self.mat@);
                let dropped = self.mat.pop().unwrap();
                proof {
                    assert(rows_of(self.mat@) =~= before.drop_last());
                    assert(dropped@ == before.last());
                    assert(rows_of(self.mat@) =~= start.take(self.mat@.len() as int));
                    assert forall|r: int| 0 <= r < rows_of(self.mat@).len() implies sorted(
                        #[trigger] rows_of(self.mat@)[r],
                    ) && bounded(rows_of(self.mat@)[r], self.ncols) by {
                        assert(rows_of(self.mat@)[r] == before[r]);
                    }
                }
                self.nvals -= dropped.len();
            }
        }
        self.nrows = rows;
        let ghost kept = rows_of(self.mat@);
        if cols < self.ncols {
            let mut r: usize = 0;
            while r < self.mat.len()
                invariant
                    r <= self.mat@.len(),
                    self.nrows == rows,
                    self.mat@.len() == kept.len(),
                    self.nvals == total(rows_of(self.mat@)),
                    forall|i: int| 0 <= i < kept.len() ==> sorted(#[trigger] rows_of(self.mat@)[i]),
                    forall|i: int|
                        0 <= i < r ==> bounded(#[trigger] rows_of(self.mat@)[i], cols) && row_map(
                            rows_of(self.mat@)[i],
                        ) == row_map(kept[i]).restrict(Set::new(|k: usize| k < cols)),
                    forall|i: int| r <= i < kept.len()
                        ==> #[trigger] rows_of(self.mat@)[i] == kept[i],
                decreases self.mat@.len() - r,
            {
                let ghost before = rows_of(self.mat@);
                proof {
                    assert(sorted(before[r as int]));
                }
                let dropped = cut(&mut self.mat[r], cols);
                proof {
                    let after = rows_of(self.mat@);
                    assert(after =~= before.update(r as int, after[r as int]));
                    lemma_total_update(before, r as int, after[r as int]);
                    assert(before[r as int] == kept[r as int]);
                    assert forall|i: int| 0 <= i < kept.len() implies sorted(
                        #[trigger] after[i],
                    ) by {
                        if i != r {
                            assert(after[i] == before[i]);
                        }
                    }
                    assert forall|i: int| 0 <= i < r + 1 implies bounded(#[trigger] after[i], cols)
                        && row_map(after[i]) == row_map(kept[i]).restrict(
                        Set::new(|k: usize| k < cols),
                    ) by {
                        if i != r {
                            assert(after[i] == before[i]);
                        }
                    }
                    assert forall|i: int| r + 1 <= i < kept.len() implies #[trigger] after[i]
                        == kept[i] by {
                        assert(after[i] == before[i]);
                    }
                }
                self.nvals -= dropped;
                r += 1;
            }
        }
        self.ncols = cols;
        proof {
            let after = self.rows();
            let target = old(self).entries().restrict(within(rows, cols));
            assert forall|i: int| 0 <= i < after.len() implies sorted(#[trigger] after[i])
                && bounded(after[i], cols) by {
                assert(sorted(kept[i]) && bounded(kept[i], old(self).ncols));
                if !(cols < old(self).ncols) {
                    assert(after[i] == kept[i]);
                }
            }
            assert forall|p: (usize, usize)| self.entries().contains_key(p)
                <==> target.contains_key(p) by {
                if p.0 < after.len() {
                    assert(kept[p.0 as int] == start[p.0 as int]);
                    assert(sorted(kept[p.0 as int]) && bounded(kept[p.0 as int], old(self).ncols));
                    if !(cols < old(self).ncols) {
                        assert(after[p.0 as int] == kept[p.0 as int]);
                        if row_map(kept[p.0 as int]).contains_key(p.1) {
                            let i = crate::backend::row::place(kept[p.0 as int], p.1);
                            assert(kept[p.0 as int][i].0 < old(self).ncols);
                        }
                    }
                }
                if old(self).entries().contains_key(p) && p.0 < rows {
                    assert(p.0 < start.len());
                    assert(p.0 < after.len());
                }
            }
            assert forall|p: (usize, usize)| self.entries().contains_key(p) implies
                self.entries()[p]
                == target[p] by {
                assert(kept[p.0 as int] == start[p.0 as int]);
                if !(cols < old(self).ncols) {
                    assert(after[p.0 as int] == kept[p.0 as int]);
                }
            }
            assert(self.entries() =~= target);
        }
        Ok(())
    }

    fn clear(&mut self) -> (r: Result<NoValue, GblasError>) {
        self.nvals = 0;
        let mut r: usize = 0;
        while r < self.mat.len()
            invariant
                r <= self.mat@.len(),
                self.nrows == old(self).nrows,
                self.ncols == old(self).ncols,
                self.nvals == 0,
                self.mat@.len() == old(self).mat@.len(),
                forall|i: int| 0 <= i < r ==> (#[trigger] rows_of(self.mat@)[i]).len() == 0,
            decreases self.mat@.len() - r,
        {
            let ghost before = rows_of(self.mat@);
            self.mat[r].clear();
            proof {
                let after = rows_of(self.mat@);
                assert forall|i: int| 0 <= i < r + 1 implies (#[trigger] after[i]).len() == 0 by {
                    if i != r {
                        assert(after[i] == before[i]);
                    }
                }
            }
            r += 1;
        }
        proof {
            lemma_grid_empty(self.rows());
        }
        Ok(())
    }

    fn remove_element(&mut self, row: IndexType, col: IndexType) -> (r: Result<
        NoValue,
        GblasError,
    >) {
        if row >= self.nrows || col >= self.ncols {
            return Err(GblasError::ApiError(ApiError::InvalidIndex));
        }
        if row >= self.mat.len() {
            proof {
                assert(self.entries().remove((row, col)) =~= self.entries());
            }
            return Ok(());
        }
        let ghost before = rows_of(self.mat@);
        proof {
            assert(sorted(before[row as int]) && bounded(before[row as int], self.ncols));
        }
        let shrunk = erase(&mut self.mat[row], col);
        proof {
            let after = rows_of(self.mat@);
            let fresh = after[row as int];
            assert(after =~= before.update(row as int, fresh));
            lemma_total_update(before, row as int, fresh);
            lemma_grid_update(before, row, fresh);
            assert forall|r: int| 0 <= r < after.len() implies sorted(#[trigger] after[r])
                && bounded(after[r], self.ncols) by {
                if r != row {
                    assert(after[r] == before[r]);
                }
            }
            assert(grid_map(after) =~= grid_map(before).remove((row, col)));
        }
        if shrunk {
            self.nvals -= 1;
        }
        Ok(())
    }

    fn extract_element(&self, row: IndexType, col: IndexType) -> (r: Result<T, GblasError>) {
        if row >= self.nrows || col >= self.ncols {
            return Err(GblasError::ApiError(ApiError::InvalidIndex));
        }
        if row >= self.mat.len() {
            return Err(GblasError::ApiError(ApiError::NoValue));
        }
        proof {
            assert(sorted(self.rows()[row as int]));
        }
        match lookup(&self.mat[row], col) {
            Some(v) => Ok(v.clone()),
            None => Err(GblasError::ApiError(ApiError::NoValue)),
        }
    }

    fn dup(&self) -> (r: Result<Self, GblasError>) {
        let mut mat: Vec<Vec<(IndexType, T)>> = Vec::new();
        let mut r: usize = 0;
        while r < self.mat.len()
            invariant
                r <= self.mat@.len(),
                mat@.len() == r,
                forall|i: int| 0 <= i < r ==> copy_of(self.rows()[i], #[trigger] rows_of(mat@)[i]),
            decreases self.mat@.len() - r,
        {
            let source = &self.mat[r];
            let mut row: Vec<(IndexType, T)> = Vec::new();
            let mut j: usize = 0;
            while j < source.len()
                invariant
                    j <= source@.len(),
                    row@.len() == j,
                    forall|i: int|
                        0 <= i < j ==> (#[trigger] row@[i]).0 == source@[i].0 && cloned(
                            source@[i].1,
                            row@[i].1,
                        ),
                decreases source@.len() - j,
            {
                let v = source[j].1.clone();
                row.push((source[j].0, v));
                j += 1;
            }
            let ghost before = rows_of(mat@);
            mat.push(row);
            proof {
                assert forall|i: int| 0 <= i < r + 1 implies copy_of(
                    self.rows()[i],
                    #[trigger] rows_of(mat@)[i],
                ) by {
                    if i < r {
                        assert(rows_of(mat@)[i] == before[i]);
                    }
                }
            }
            r += 1;
        }
        let copy = Self { mat, nrows: self.nrows, ncols: self.ncols, nvals: self.nvals };
        proof {
            lemma_copy(self.rows(), copy.rows(), self.ncols);
        }
        Ok(copy)
    }

    #[verifier::loop_isolation(false)]
    fn build<Op: BinaryOperator<T, Output = T>>(
        self,
        rows: Vec<IndexType>,
        cols: Vec<IndexType>,
        values: Vec<T>,
        n: IndexType,
        dup: Op,
    ) -> (r: Result<Self, GblasError>) {
        if self.nvals() > 0 {
            return Err(GblasError::ApiError(ApiError::OutputNotEmpty));
        }
        let ghost keys = positions(rows@, cols@);
        let ghost vals = values@;
        let ghost count = triplet_count(keys.len() as int, vals.len() as int);
        let ghost empty = Map::<(usize, usize), T>::empty();
        let ghost nrows = self.nrows;
        let ghost ncols = self.ncols;
        let mut values = values;
        values.truncate(rows.len());
        values.truncate(cols.len());
        let ghost taken = values@;
        let mut data = self;
        proof {
            lemma_grid_len(data.rows());
            assert(data.entries().dom() =~= Set::<(usize, usize)>::empty());
            assert(data.entries() =~= empty);
        }
        let mut i: usize = 0;
        for value in it: values
            invariant
                it.seq() == taken,
                taken.len() == count,
                count <= usize::MAX,
                count <= keys.len(),
                count <= vals.len(),
                forall|j: int| 0 <= j < count ==> taken[j] == vals[j],
                i == it.index(),
                data.wf(),
                data.nrows == nrows,
                data.ncols == ncols,
                data.nvals <= i,
                forall|j: int| 0 <= j < i ==> rows@[j] < nrows && cols@[j] < ncols,
                data.entries() == merged(empty, keys, vals, dup, i as nat),
        {
            let row = rows[i];
            let col = cols[i];
            proof {
                lemma_grid_len(data.rows());
                if row < nrows && col < ncols {
                    assert(mergeable(empty, keys, vals, dup, i as nat));
                } else {
                    data.lemma_stored_in_range();
                }
            }
            let res = data.set_element_dup(row, col, value, Some(&dup));
            if res.is_none() {
                return Err(GblasError::ExecutionError(ExecutionError::IndexOutOfBounds));
            }
            proof {
                lemma_grid_len(data.rows());
                assert(data.nvals <= i + 1) by {
                    // the map grew by one position at most
                    let before = merged(empty, keys, vals, dup, i as nat);
                    lemma_merge_one_len(before, (row, col), value, dup);
                }
            }
            i += 1;
        }
        Ok(data)
    }

    fn extract_tuples(&self) -> (r: Result<
        (Vec<IndexType>, Vec<IndexType>, Vec<T>),
        GblasError,
    >) {
        Ok(self.tuples())
    }
}

impl<T> MatrixExtra for SparseMatrix<T> where T: Clone + PartialEq {
    /// All stored positions with clones of their values, in row-major
    /// order, read off the rows.
    fn iter(&self) -> (r: Vec<(IndexType, IndexType, T)>) {
        let (rows, cols, values) = self.tuples();
        let ghost vals = values@;
        let count = rows.len();
        let mut out: Vec<(IndexType, IndexType, T)> = Vec::new();
        let mut i: usize = 0;
        for value in it: values
            invariant
                it.seq() == vals,
                i == it.index(),
                vals.len() == count,
                rows@.len() == vals.len(),
                cols@.len() == vals.len(),
                out@.len() == i,
                forall|a: int|
                    0 <= a < i ==> #[trigger] out@[a] == (rows@[a], cols@[a], vals[a]),
        {
            out.push((rows[i], cols[i], value));
            i += 1;
        }
        proof {
            assert forall|p: (usize, usize)| self.entries().contains_key(p) implies exists|a: int|
                0 <= a < out@.len() && ((#[trigger] out@[a]).0, out@[a].1) == p by {
                let a = choose|a: int| 0 <= a < rows@.len() && (rows@[a], cols@[a]) == p;
                assert((out@[a].0, out@[a].1) == p);
            }
        }
        out
    }
}

impl<T> Index<(IndexType, IndexType)> for SparseMatrix<T> where T: Clone + PartialEq {
    type Output = bool;

    /// Whether a value is stored at the position.
    fn index(&self, index: (IndexType, IndexType)) -> (r: &bool)
        ensures
            *r == self.entries().contains_key(index),
    {
        if index.0 >= self.mat.len() {
            return &false;
        }
        proof {
            assert(sorted(self.rows()[index.0 as int]));
        }
        match lookup(&self.mat[index.0], index.1) {
            Some(_) => &true,
            None => &false,
        }
    }
}

impl<T> vstd::std_specs::core::IndexSpecImpl<(IndexType, IndexType)> for SparseMatrix<T> where T: Clone + PartialEq {
    open spec fn index_req(&self, index: &(IndexType, IndexType)) -> bool {
        self.wf()
    }
}

impl<T> MatMask<Self> for SparseMatrix<T> where T: Clone + PartialEq {
    open spec fn container(&self) -> &Self {
        self
    }

    open spec fn readable(&self) -> bool {
        self.wf()
    }

    open spec fn reports(&self, position: (IndexType, IndexType)) -> bool {
        self.entries().contains_key(position)
    }

    proof fn lemma_reading(&self, position: (IndexType, IndexType), read: &bool) {
    }

    fn complement(&self) -> (r: MatrixComplementMask<Self>) {
        MatrixComplementMask::new(self)
    }

    fn structure(&self) -> (r: MatrixStructureMask<Self>) {
        MatrixStructureMask::new(self)
    }
}

/// The structural mask of a sparse matrix reports `true` exactly at the
/// positions where the matrix stores a value.
pub proof fn lemma_structure_mask_reports<T: Clone + PartialEq>(
    mask: MatrixStructureMask<SparseMatrix<T>>,
    position: (IndexType, IndexType),
)
    requires
        mask.source().wf(),
    ensures
        mask.reports(position) == mask.source().entries().contains_key(position),
{
    mask.source().lemma_stored_in_range();
}

/// The complement mask of a sparse matrix reports `true` exactly at the
/// positions below its dimensions where the matrix stores nothing; outside
/// the dimensions it reports `false`.
pub proof fn lemma_complement_mask_reports<T: Clone + PartialEq>(
    mask: MatrixComplementMask<SparseMatrix<T>>,
    position: (IndexType, IndexType),
)
    requires
        mask.source().wf(),
    ensures
        mask.reports(position) == (position.0 < mask.source().row_dim() && position.1
            < mask.source().col_dim() && !mask.source().entries().contains_key(position)),
{
}

} // verus!
