//! Mapping every stored value through an operator.
use vstd::prelude::*;
use crate::algebra::{BinaryOperator, Monoid, Semiring, UnaryOperator};
use crate::backend::grid::{grid_map, grid_wf, rows_of};
use crate::backend::row::{bounded, lemma_row_map_at, place, row_map, sorted};
use crate::mask::{MatMask, VecMask};
use crate::matrix::Matrix;
use crate::operations::{
    appliable, appliable_first, appliable_second, applied, applied_first, applied_second,
};
use crate::types::{clones_exactly, duplicate, IndexType};
use crate::vector::Vector;

verus! {

/// Every value of a sorted row mapped through the unary operator `Op`.
pub fn apply_vec<T: Clone, Op: UnaryOperator<T>>(row: &Vec<(IndexType, T)>) -> (res: Vec<
    (IndexType, T),
>)
    requires
        clones_exactly::<T>(),
        sorted(row@),
        appliable::<usize, T, Op>(row_map(row@)),
    ensures
        sorted(res@),
        row_map(res@) == applied::<usize, T, Op>(row_map(row@)),
        forall|limit: usize| bounded(row@, limit) ==> bounded(res@, limit),
{
    let mut res: Vec<(IndexType, T)> = Vec::new();
    let mut i: usize = 0;
    while i < row.len()
        invariant
            i <= row@.len(),
            res@.len() == i,
            clones_exactly::<T>(),
            sorted(row@),
            appliable::<usize, T, Op>(row_map(row@)),
            forall|a: int|
                0 <= a < i ==> (#[trigger] res@[a]).0 == row@[a].0 && res@[a].1 == Op::apply(
                    row@[a].1,
                ),
        decreases row@.len() - i,
    {
        proof {
            lemma_row_map_at(row@, i as int);
        }
        let value = Op::op(duplicate(&row[i].1));
        res.push((row[i].0, value));
        i += 1;
    }
    proof {
        lemma_same_keys(row@, res@);
        assert forall|k: usize| row_map(res@).contains_key(k) implies row_map(res@)[k]
            == applied::<usize, T, Op>(row_map(row@))[k] by {
            let p = place(res@, k);
            lemma_row_map_at(res@, p);
            lemma_row_map_at(row@, p);
        }
        assert(row_map(res@) =~= applied::<usize, T, Op>(row_map(row@)));
    }
    res
}

/// Every value `x` of a sorted row mapped to `op(value, x)`.
pub fn apply_1st_vec<T: Clone, Op: BinaryOperator<T, Output = T>>(
    op: &Op,
    value: &T,
    row: &Vec<(IndexType, T)>,
) -> (res: Vec<(IndexType, T)>)
    requires
        clones_exactly::<T>(),
        sorted(row@),
        appliable_first(row_map(row@), *op, *value),
    ensures
        sorted(res@),
        row_map(res@) == applied_first(row_map(row@), *op, *value),
        forall|limit: usize| bounded(row@, limit) ==> bounded(res@, limit),
{
    let mut res: Vec<(IndexType, T)> = Vec::new();
    let mut i: usize = 0;
    while i < row.len()
        invariant
            i <= row@.len(),
            res@.len() == i,
            clones_exactly::<T>(),
            sorted(row@),
            appliable_first(row_map(row@), *op, *value),
            forall|a: int|
                0 <= a < i ==> (#[trigger] res@[a]).0 == row@[a].0 && res@[a].1 == op.apply(
                    *value,
                    row@[a].1,
                ),
        decreases row@.len() - i,
    {
        proof {
            lemma_row_map_at(row@, i as int);
        }
        let out = op.op(duplicate(value), duplicate(&row[i].1));
        res.push((row[i].0, out));
        i += 1;
    }
    proof {
        lemma_same_keys(row@, res@);
        assert forall|k: usize| row_map(res@).contains_key(k) implies row_map(res@)[k]
            == applied_first(row_map(row@), *op, *value)[k] by {
            let p = place(res@, k);
            lemma_row_map_at(res@, p);
            lemma_row_map_at(row@, p);
        }
        assert(row_map(res@) =~= applied_first(row_map(row@), *op, *value));
    }
    res
}

/// Every value `x` of a sorted row mapped to `op(x, value)`.
pub fn apply_2nd_vec<T: Clone, Op: BinaryOperator<T, Output = T>>(
    op: &Op,
    row: &Vec<(IndexType, T)>,
    value: &T,
) -> (res: Vec<(IndexType, T)>)
    requires
        clones_exactly::<T>(),
        sorted(row@),
        appliable_second(row_map(row@), *op, *value),
    ensures
        sorted(res@),
        row_map(res@) == applied_second(row_map(row@), *op, *value),
        forall|limit: usize| bounded(row@, limit) ==> bounded(res@, limit),
{
    let mut res: Vec<(IndexType, T)> = Vec::new();
    let mut i: usize = 0;
    while i < row.len()
        invariant
            i <= row@.len(),
            res@.len() == i,
            clones_exactly::<T>(),
            sorted(row@),
            appliable_second(row_map(row@), *op, *value),
            forall|a: int|
                0 <= a < i ==> (#[trigger] res@[a]).0 == row@[a].0 && res@[a].1 == op.apply(
                    row@[a].1,
                    *value,
                ),
        decreases row@.len() - i,
    {
        proof {
            lemma_row_map_at(row@, i as int);
        }
        let out = op.op(duplicate(&row[i].1), duplicate(value));
        res.push((row[i].0, out));
        i += 1;
    }
    proof {
        lemma_same_keys(row@, res@);
        assert forall|k: usize| row_map(res@).contains_key(k) implies row_map(res@)[k]
            == applied_second(row_map(row@), *op, *value)[k] by {
            let p = place(res@, k);
            lemma_row_map_at(res@, p);
            lemma_row_map_at(row@, p);
        }
        assert(row_map(res@) =~= applied_second(row_map(row@), *op, *value));
    }
    res
}

/// A row with the indices of a sorted row, place by place, is sorted, as
/// bounded as that row, and stores values at the same indices.
pub proof fn lemma_same_keys<T>(row: Seq<(usize, T)>, other: Seq<(usize, T)>)
    requires
        sorted(row),
        other.len() == row.len(),
        forall|a: int| 0 <= a < row.len() ==> (#[trigger] other[a]).0 == row[a].0,
    ensures
        sorted(other),
        forall|limit: usize| bounded(row, limit) ==> bounded(other, limit),
        row_map(other).dom() =~= row_map(row).dom(),
{
    assert forall|a: int, b: int| 0 <= a < b < other.len() implies other[a].0 < other[b].0 by {
        assert(row[a].0 < row[b].0);
    }
    assert forall|limit: usize| bounded(row, limit) implies bounded(other, limit) by {
        assert forall|a: int| 0 <= a < other.len() implies (#[trigger] other[a]).0 < limit by {
            assert(row[a].0 < limit);
        }
    }
    assert forall|k: usize| row_map(other).contains_key(k) <==> row_map(row).contains_key(k) by {
        if row_map(other).contains_key(k) {
            let p = place(other, k);
            assert(row[p].0 == k);
        }
        if row_map(row).contains_key(k) {
            let p = place(row, k);
            assert(other[p].0 == k);
        }
    }
}

/// Every stored value of the rows mapped through the unary operator `Op`.
pub fn apply_rows<T: Clone, Op: UnaryOperator<T>>(

    a: &Vec<Vec<(IndexType, T)>>,
    width: IndexType,
) -> (out: Vec<Vec<(IndexType, T)>>)
    requires
        clones_exactly::<T>(),
        grid_wf(rows_of(a@), width),
        appliable::<(usize, usize), T, Op>(grid_map(rows_of(a@))),
    ensures
        out@.len() == a@.len(),
        grid_wf(rows_of(out@), width),
        grid_map(rows_of(out@)) == applied::<(usize, usize), T, Op>(grid_map(rows_of(a@))),
{
    let mut out: Vec<Vec<(IndexType, T)>> = Vec::new();
    let mut r: usize = 0;
    while r < a.len()
        invariant
            r <= a@.len(),
            out@.len() == r,
            clones_exactly::<T>(),
            grid_wf(rows_of(a@), width),
            appliable::<(usize, usize), T, Op>(grid_map(rows_of(a@))),
            grid_wf(rows_of(out@), width),
            forall|x: int|
                0 <= x < r ==> row_map(#[trigger] rows_of(out@)[x])
                    == applied::<usize, T, Op>(row_map(rows_of(a@)[x])),
        decreases a@.len() - r,
    {
        let a_row = &a[r];
        proof {
            assert(a_row@ == rows_of(a@)[r as int]);
            assert(sorted(a_row@) && bounded(a_row@, width));
            assert(appliable::<usize, T, Op>(row_map(a_row@))) by {
                assert forall|k: usize| row_map(a_row@).contains_key(k) implies grid_map(
                    rows_of(a@),
                ).contains_key((r, k)) && grid_map(rows_of(a@))[(r, k)] == row_map(a_row@)[k] by {}
            }
        }
        let row = apply_vec::<T, Op>(a_row);
        let ghost before = rows_of(out@);
        out.push(row);
        proof {
            let after = rows_of(out@);
            assert(after =~= before.push(row@));
            assert forall|x: int| 0 <= x < after.len() implies sorted(#[trigger] after[x])
                && bounded(after[x], width) by {
                if x < r {
                    assert(after[x] == before[x]);
                }
            }
            assert forall|x: int| 0 <= x < r + 1 implies row_map(#[trigger] after[x])
                == applied::<usize, T, Op>(row_map(rows_of(a@)[x])) by {
                if x < r {
                    assert(after[x] == before[x]);
                }
            }
        }
        r += 1;
    }
    proof {
        let got = grid_map(rows_of(out@));
        let want = applied::<(usize, usize), T, Op>(grid_map(rows_of(a@)));
        assert forall|p: (usize, usize)| got.contains_key(p) <==> want.contains_key(p) by {
            if p.0 < out@.len() {
                assert(row_map(rows_of(out@)[p.0 as int])
                    == applied::<usize, T, Op>(row_map(rows_of(a@)[p.0 as int])));
            }
        }
        assert forall|p: (usize, usize)| got.contains_key(p) implies got[p] == want[p] by {
            assert(row_map(rows_of(out@)[p.0 as int])
                == applied::<usize, T, Op>(row_map(rows_of(a@)[p.0 as int])));
        }
        assert(got =~= want);
    }
    out
}

/// Every stored value `x` of the rows mapped to `op(value, x)`.
pub fn apply_1st_rows<T: Clone, Op: BinaryOperator<T, Output = T>>(
    op: &Op,
    value: &T,
    a: &Vec<Vec<(IndexType, T)>>,
    width: IndexType,
) -> (out: Vec<Vec<(IndexType, T)>>)
    requires
        clones_exactly::<T>(),
        grid_wf(rows_of(a@), width),
        appliable_first(grid_map(rows_of(a@)), *op, *value),
    ensures
        out@.len() == a@.len(),
        grid_wf(rows_of(out@), width),
        grid_map(rows_of(out@)) == applied_first(grid_map(rows_of(a@)), *op, *value),
{
    let mut out: Vec<Vec<(IndexType, T)>> = Vec::new();
    let mut r: usize = 0;
    while r < a.len()
        invariant
            r <= a@.len(),
            out@.len() == r,
            clones_exactly::<T>(),
            grid_wf(rows_of(a@), width),
            appliable_first(grid_map(rows_of(a@)), *op, *value),
            grid_wf(rows_of(out@), width),
            forall|x: int|
                0 <= x < r ==> row_map(#[trigger] rows_of(out@)[x])
                    == applied_first(row_map(rows_of(a@)[x]), *op, *value),
        decreases a@.len() - r,
    {
        let a_row = &a[r];
        proof {
            assert(a_row@ == rows_of(a@)[r as int]);
            assert(sorted(a_row@) && bounded(a_row@, width));
            assert(appliable_first(row_map(a_row@), *op, *value)) by {
                assert forall|k: usize| row_map(a_row@).contains_key(k) implies grid_map(
                    rows_of(a@),
                ).contains_key((r, k)) && grid_map(rows_of(a@))[(r, k)] == row_map(a_row@)[k] by {}
            }
        }
        let row = apply_1st_vec(op, value, a_row);
        let ghost before = rows_of(out@);
        out.push(row);
        proof {
            let after = rows_of(out@);
            assert(after =~= before.push(row@));
            assert forall|x: int| 0 <= x < after.len() implies sorted(#[trigger] after[x])
                && bounded(after[x], width) by {
                if x < r {
                    assert(after[x] == before[x]);
                }
            }
            assert forall|x: int| 0 <= x < r + 1 implies row_map(#[trigger] after[x])
                == applied_first(row_map(rows_of(a@)[x]), *op, *value) by {
                if x < r {
                    assert(after[x] == before[x]);
                }
            }
        }
        r += 1;
    }
    proof {
        let got = grid_map(rows_of(out@));
        let want = applied_first(grid_map(rows_of(a@)), *op, *value);
        assert forall|p: (usize, usize)| got.contains_key(p) <==> want.contains_key(p) by {
            if p.0 < out@.len() {
                assert(row_map(rows_of(out@)[p.0 as int])
                    == applied_first(row_map(rows_of(a@)[p.0 as int]), *op, *value));
            }
        }
        assert forall|p: (usize, usize)| got.contains_key(p) implies got[p] == want[p] by {
            assert(row_map(rows_of(out@)[p.0 as int])
                == applied_first(row_map(rows_of(a@)[p.0 as int]), *op, *value));
        }
        assert(got =~= want);
    }
    out
}

/// Every stored value `x` of the rows mapped to `op(x, value)`.
pub fn apply_2nd_rows<T: Clone, Op: BinaryOperator<T, Output = T>>(
    op: &Op,
    value: &T,
    a: &Vec<Vec<(IndexType, T)>>,
    width: IndexType,
) -> (out: Vec<Vec<(IndexType, T)>>)
    requires
        clones_exactly::<T>(),
        grid_wf(rows_of(a@), width),
        appliable_second(grid_map(rows_of(a@)), *op, *value),
    ensures
        out@.len() == a@.len(),
        grid_wf(rows_of(out@), width),
        grid_map(rows_of(out@)) == applied_second(grid_map(rows_of(a@)), *op, *value),
{
    let mut out: Vec<Vec<(IndexType, T)>> = Vec::new();
    let mut r: usize = 0;
    while r < a.len()
        invariant
            r <= a@.len(),
            out@.len() == r,
            clones_exactly::<T>(),
            grid_wf(rows_of(a@), width),
            appliable_second(grid_map(rows_of(a@)), *op, *value),
            grid_wf(rows_of(out@), width),
            forall|x: int|
                0 <= x < r ==> row_map(#[trigger] rows_of(out@)[x])
                    == applied_second(row_map(rows_of(a@)[x]), *op, *value),
        decreases a@.len() - r,
    {
        let a_row = &a[r];
        proof {
            assert(a_row@ == rows_of(a@)[r as int]);
            assert(sorted(a_row@) && bounded(a_row@, width));
            assert(appliable_second(row_map(a_row@), *op, *value)) by {
                assert forall|k: usize| row_map(a_row@).contains_key(k) implies grid_map(
                    rows_of(a@),
                ).contains_key((r, k)) && grid_map(rows_of(a@))[(r, k)] == row_map(a_row@)[k] by {}
            }
        }
        let row = apply_2nd_vec(op, a_row, value);
        let ghost before = rows_of(out@);
        out.push(row);
        proof {
            let after = rows_of(out@);
            assert(after =~= before.push(row@));
            assert forall|x: int| 0 <= x < after.len() implies sorted(#[trigger] after[x])
                && bounded(after[x], width) by {
                if x < r {
                    assert(after[x] == before[x]);
                }
            }
            assert forall|x: int| 0 <= x < r + 1 implies row_map(#[trigger] after[x])
                == applied_second(row_map(rows_of(a@)[x]), *op, *value) by {
                if x < r {
                    assert(after[x] == before[x]);
                }
            }
        }
        r += 1;
    }
    proof {
        let got = grid_map(rows_of(out@));
        let want = applied_second(grid_map(rows_of(a@)), *op, *value);
        assert forall|p: (usize, usize)| got.contains_key(p) <==> want.contains_key(p) by {
            if p.0 < out@.len() {
                assert(row_map(rows_of(out@)[p.0 as int])
                    == applied_second(row_map(rows_of(a@)[p.0 as int]), *op, *value));
            }
        }
        assert forall|p: (usize, usize)| got.contains_key(p) implies got[p] == want[p] by {
            assert(row_map(rows_of(out@)[p.0 as int])
                == applied_second(row_map(rows_of(a@)[p.0 as int]), *op, *value));
        }
        assert(got =~= want);
    }
    out
}

} // verus!
