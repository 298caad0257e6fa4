//! Folding the stored values of rows.
use vstd::prelude::*;
use crate::algebra::{BinaryOperator, Monoid, Semiring, UnaryOperator};
use crate::backend::grid::{grid_map, rows_of};
use crate::backend::kernels::write::lemma_above;
use crate::backend::row::{
    bounded, gap, lemma_gap_absent, lemma_row_insert, lemma_row_map_at, lemma_row_map_empty,
    row_map, sorted,
};
use crate::mask::{MatMask, VecMask};
use crate::matrix::Matrix;
use crate::operations::{
    foldable_all, chainable_all,
    chainable, chained, foldable, folded, listed_row, listed_values, row_of, row_values,
    rows_chained, rows_folded,
};
use crate::types::{clones_exactly, duplicate, IndexType};
use crate::vector::Vector;

verus! {

/// A sorted row is the row that is listed for what it stores.
pub proof fn lemma_listed_row<T>(row: Seq<(usize, T)>)
    requires
        sorted(row),
    ensures
        listed_row(row_map(row)) == row,
        listed_values(row_map(row)) == row_values(row),
{
    let other = listed_row(row_map(row));
    assert(sorted(row) && row_map(row) == row_map(row));
    crate::backend::row::lemma_row_map_injective(other, row);
}

/// A fold that is defined up to `n` is defined up to every `m` below `n`.
pub proof fn lemma_foldable_below<T, Mo: Monoid<T>>(values: Seq<T>, op: Mo, m: nat, n: nat)
    requires
        m <= n,
        foldable(values, op, n),
    ensures
        foldable(values, op, m),
    decreases n,
{
    if m < n {
        lemma_foldable_below(values, op, m, (n - 1) as nat);
    }
}

/// A chain that is defined up to `n` is defined up to every `m` below `n`.
pub proof fn lemma_chainable_below<T, Op: BinaryOperator<T, Output = T>>(
    values: Seq<T>,
    op: Op,
    m: nat,
    n: nat,
)
    requires
        m <= n,
        chainable(values, op, n),
    ensures
        chainable(values, op, m),
    decreases n,
{
    if m < n {
        lemma_chainable_below(values, op, m, (n - 1) as nat);
    }
}

/// The values of a row folded into one by a monoid, from its identity on.
pub fn fold_row<T: Clone, Mo: Monoid<T>>(row: &Vec<(IndexType, T)>, op: &Mo) -> (out: T)
    requires
        clones_exactly::<T>(),
        foldable(row_values(row@), *op, row@.len()),
    ensures
        out == folded(row_values(row@), *op, row@.len()),
{
    let ghost values = row_values(row@);
    let mut acc = op.identity();
    let mut n: usize = 0;
    while n < row.len()
        invariant
            n <= row@.len(),
            values == row_values(row@),
            clones_exactly::<T>(),
            foldable(values, *op, row@.len()),
            acc == folded(values, *op, n as nat),
        decreases row@.len() - n,
    {
        proof {
            lemma_foldable_below(values, *op, (n + 1) as nat, row@.len());
        }
        acc = op.operate(acc, duplicate(&row[n].1));
        n += 1;
    }
    acc
}

/// The values of a row that is not empty chained into one by a binary
/// operator, from the first on.
pub fn chain_row<T: Clone, Op: BinaryOperator<T, Output = T>>(
    row: &Vec<(IndexType, T)>,
    op: &Op,
) -> (out: T)
    requires
        clones_exactly::<T>(),
        row@.len() > 0,
        chainable(row_values(row@), *op, row@.len()),
    ensures
        out == chained(row_values(row@), *op, row@.len()),
{
    let ghost values = row_values(row@);
    let mut acc = duplicate(&row[0].1);
    let mut n: usize = 1;
    while n < row.len()
        invariant
            1 <= n <= row@.len(),
            values == row_values(row@),
            clones_exactly::<T>(),
            chainable(values, *op, row@.len()),
            acc == chained(values, *op, n as nat),
        decreases row@.len() - n,
    {
        proof {
            lemma_chainable_below(values, *op, (n + 1) as nat, row@.len());
        }
        acc = op.op(acc, duplicate(&row[n].1));
        n += 1;
    }
    acc
}

/// Every row that stores a value folded into one value.
pub fn fold_rows<T: Clone, Mo: Monoid<T>>(rows: &Vec<Vec<(IndexType, T)>>, op: &Mo) -> (out: Vec<
    (IndexType, T),
>)
    requires
        clones_exactly::<T>(),
        forall|x: int| 0 <= x < rows@.len() ==> sorted(#[trigger] rows_of(rows@)[x]),
        forall|i: IndexType| #[trigger]
            foldable_all(listed_values(row_of(grid_map(rows_of(rows@)), i)), *op),
    ensures
        sorted(out@),
        forall|limit: usize| rows@.len() <= limit ==> bounded(out@, limit),
        row_map(out@) == rows_folded(grid_map(rows_of(rows@)), *op),
{
    let ghost grid = rows_of(rows@);
    let ghost m = grid_map(grid);
    let mut out: Vec<(IndexType, T)> = Vec::new();
    let mut i: usize = 0;
    proof {
        lemma_row_map_empty::<T>();
    }
    while i < rows.len()
        invariant
            i <= rows@.len(),
            grid == rows_of(rows@),
            m == grid_map(grid),
            forall|x: int| 0 <= x < rows@.len() ==> sorted(#[trigger] grid[x]),
            forall|x: IndexType| #[trigger]
                foldable_all(listed_values(row_of(m, x)), *op),
            clones_exactly::<T>(),
            sorted(out@),
            forall|a: int| 0 <= a < out@.len() ==> (#[trigger] out@[a]).0 < i,
            forall|k: usize| #[trigger]
                row_map(out@).contains_key(k) <==> k < i && rows_folded(m, *op).contains_key(k),
            forall|k: usize|
                row_map(out@).contains_key(k) ==> #[trigger] row_map(out@)[k] == rows_folded(
                    m,
                    *op,
                )[k],
        decreases rows@.len() - i,
    {
        let ghost before = out@;
        let row = &rows[i];
        proof {
            assert(row@ == grid[i as int]);
            assert(sorted(row@));
            assert(row_map(row@) =~= row_of(m, i));
            lemma_listed_row(row@);
            assert(foldable_all(listed_values(row_of(m, i)), *op));
        }
        if row.len() > 0 {
            let value = fold_row(row, op);
            proof {
                lemma_row_map_at(row@, 0);
                assert(m.contains_key((i, row@[0].0)));
                assert(gap(before, before.len() as int, i));
                lemma_gap_absent(before, before.len() as int, i);
                lemma_row_insert(before, before.len() as int, i, value);
            }
            out.push((i, value));
            proof {
                assert(out@ =~= before.insert(before.len() as int, (i, value)));
                assert forall|a: int| 0 <= a < out@.len() implies
                    (#[trigger] out@[a]).0 < i + 1 by {
                    if a < before.len() {
                        assert(out@[a] == before[a]);
                    }
                }
            }
        } else {
            proof {
                lemma_above(before, i);
                assert(row@ =~= Seq::<(usize, T)>::empty());
                lemma_row_map_empty::<T>();
                assert forall|j: IndexType| !m.contains_key((i, j)) by {}
                assert forall|a: int| 0 <= a < out@.len() implies
                    (#[trigger] out@[a]).0 < i + 1 by {}
            }
        }
        i += 1;
    }
    proof {
        assert forall|k: usize| rows_folded(m, *op).contains_key(k) implies k < rows@.len() by {
            let j = choose|j: IndexType| m.contains_key((k, j));
            assert(m.contains_key((k, j)));
        }
        assert(row_map(out@) =~= rows_folded(m, *op));
        assert forall|limit: usize| rows@.len() <= limit implies bounded(out@, limit) by {
            assert forall|a: int| 0 <= a < out@.len() implies (#[trigger] out@[a]).0 < limit by {}
        }
    }
    out
}

/// Every row that stores a value chained into one value.
pub fn chain_rows<T: Clone, Op: BinaryOperator<T, Output = T>>(
    rows: &Vec<Vec<(IndexType, T)>>,
    op: &Op,
) -> (out: Vec<(IndexType, T)>)
    requires
        clones_exactly::<T>(),
        forall|x: int| 0 <= x < rows@.len() ==> sorted(#[trigger] rows_of(rows@)[x]),
        forall|i: IndexType| #[trigger]
            chainable_all(listed_values(row_of(grid_map(rows_of(rows@)), i)), *op),
    ensures
        sorted(out@),
        forall|limit: usize| rows@.len() <= limit ==> bounded(out@, limit),
        row_map(out@) == rows_chained(grid_map(rows_of(rows@)), *op),
{
    let ghost grid = rows_of(rows@);
    let ghost m = grid_map(grid);
    let mut out: Vec<(IndexType, T)> = Vec::new();
    let mut i: usize = 0;
    proof {
        lemma_row_map_empty::<T>();
    }
    while i < rows.len()
        invariant
            i <= rows@.len(),
            grid == rows_of(rows@),
            m == grid_map(grid),
            forall|x: int| 0 <= x < rows@.len() ==> sorted(#[trigger] grid[x]),
            forall|x: IndexType| #[trigger]
                chainable_all(listed_values(row_of(m, x)), *op),
            clones_exactly::<T>(),
            sorted(out@),
            forall|a: int| 0 <= a < out@.len() ==> (#[trigger] out@[a]).0 < i,
            forall|k: usize| #[trigger]
                row_map(out@).contains_key(k) <==> k < i && rows_chained(m, *op).contains_key(k),
            forall|k: usize|
                row_map(out@).contains_key(k) ==> #[trigger] row_map(out@)[k] == rows_chained(
                    m,
                    *op,
                )[k],
        decreases rows@.len() - i,
    {
        let ghost before = out@;
        let row = &rows[i];
        proof {
            assert(row@ == grid[i as int]);
            assert(sorted(row@));
            assert(row_map(row@) =~= row_of(m, i));
            lemma_listed_row(row@);
            assert(chainable_all(listed_values(row_of(m, i)), *op));
        }
        if row.len() > 0 {
            let value = chain_row(row, op);
            proof {
                lemma_row_map_at(row@, 0);
                assert(m.contains_key((i, row@[0].0)));
                assert(gap(before, before.len() as int, i));
                lemma_gap_absent(before, before.len() as int, i);
                lemma_row_insert(before, before.len() as int, i, value);
            }
            out.push((i, value));
            proof {
                assert(out@ =~= before.insert(before.len() as int, (i, value)));
                assert forall|a: int| 0 <= a < out@.len() implies
                    (#[trigger] out@[a]).0 < i + 1 by {
                    if a < before.len() {
                        assert(out@[a] == before[a]);
                    }
                }
            }
        } else {
            proof {
                lemma_above(before, i);
                assert(row@ =~= Seq::<(usize, T)>::empty());
                lemma_row_map_empty::<T>();
                assert forall|j: IndexType| !m.contains_key((i, j)) by {}
                assert forall|a: int| 0 <= a < out@.len() implies
                    (#[trigger] out@[a]).0 < i + 1 by {}
            }
        }
        i += 1;
    }
    proof {
        assert forall|k: usize| rows_chained(m, *op).contains_key(k) implies k < rows@.len() by {
            let j = choose|j: IndexType| m.contains_key((k, j));
            assert(m.contains_key((k, j)));
        }
        assert(row_map(out@) =~= rows_chained(m, *op));
        assert forall|limit: usize| rows@.len() <= limit implies bounded(out@, limit) by {
            assert forall|a: int| 0 <= a < out@.len() implies (#[trigger] out@[a]).0 < limit by {}
        }
    }
    out
}

} // verus!
