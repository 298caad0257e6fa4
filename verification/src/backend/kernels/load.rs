//! Reading operands: the rows of a matrix, a vector as a row or a column,
//! and the columns and rows of what was computed.
use vstd::prelude::*;
use crate::algebra::{BinaryOperator, Monoid, Semiring, UnaryOperator};
use crate::backend::grid::{
    grid_map, grid_wf, lemma_grid_empty, lemma_grid_push_empty, lemma_grid_update, rows_of,
};
use crate::backend::kernels::write::lemma_above;
use crate::backend::row::{
    bounded, gap, lemma_gap_absent, lemma_row_insert, lemma_row_map_at, lemma_row_map_empty,
    lemma_row_take_next, lookup, place, row_map, search, sorted,
};
use crate::indices::{IndexSet, Indices};
use crate::mask::{MatMask, VecMask};
use crate::matrix::{Matrix, triples_of};
use crate::operations::{as_col, as_row, col_zero, column_of, operand, row_zero};
use crate::types::{clones_exactly, duplicate, IndexType};
use crate::vector::Vector;

verus! {

/// The rows of a matrix, or of its transpose if `swap` is set, up to the
/// last row that stores a value.
pub fn load_rows<A: Matrix>(a: &A, swap: bool) -> (out: Vec<Vec<(IndexType, A::Scalar)>>) where
    A::Scalar: Clone,

    requires
        a.wf(),
        clones_exactly::<A::Scalar>(),
    ensures
        grid_map(rows_of(out@)) == operand(a.entries(), swap),
        out@.len() <= (if swap {
            a.col_dim()
        } else {
            a.row_dim()
        }),
        grid_wf(
            rows_of(out@),
            if swap {
                a.row_dim()
            } else {
                a.col_dim()
            },
        ),
{
    let (rs, cs, vs) = match a.extract_tuples() {
        Ok(t) => t,
        Err(_) => vstd::pervasive::unreached(),
    };
    let ghost vals = vs@;
    let ghost m = a.entries();
    let count = rs.len();
    let mut out: Vec<Vec<(IndexType, A::Scalar)>> = Vec::new();
    let mut n: usize = 0;
    proof {
        a.lemma_stored_in_range();
        lemma_grid_empty(rows_of(out@));
        assert forall|i: int| 0 <= i < vals.len() implies m.contains_key((rs@[i], cs@[i])) && m[(
            rs@[i],
            cs@[i],
        )] == #[trigger] vals[i] by {
            assert(m.contains_key((rs@[i], cs@[i])) && cloned(m[(rs@[i], cs@[i])], vals[i]));
        }
    }
    for value in it: vs
        invariant
            it.seq() == vals,
            n == it.index(),
            vals.len() == count,
            rs@.len() == count,
            cs@.len() == count,
            m == a.entries(),
            a.wf(),
            triples_of(rs@, cs@, vals, m),
            forall|i: int|
                0 <= i < vals.len() ==> m.contains_key((rs@[i], cs@[i])) && m[(rs@[i], cs@[i])]
                    == #[trigger] vals[i],
            out@.len() <= (if swap {
                a.col_dim()
            } else {
                a.row_dim()
            }),
            grid_wf(
                rows_of(out@),
                if swap {
                    a.row_dim()
                } else {
                    a.col_dim()
                },
            ),
            forall|i: int|
                0 <= i < n ==> grid_map(rows_of(out@)).contains_key(
                    #[trigger] target(rs@, cs@, swap, i),
                )
                    && grid_map(rows_of(out@))[target(rs@, cs@, swap, i)] == vals[i],
            forall|p: (usize, usize)|
                grid_map(rows_of(out@)).contains_key(p) ==> exists|i: int|
                    0 <= i < n && #[trigger] target(rs@, cs@, swap, i) == p,
    {
        let r = if swap {
            cs[n]
        } else {
            rs[n]
        };
        let c = if swap {
            rs[n]
        } else {
            cs[n]
        };
        proof {
            a.lemma_stored_in_range();
            assert(m.contains_key((rs@[n as int], cs@[n as int])));
            assert(target(rs@, cs@, swap, n as int) == (r, c));
        }
        while out.len() <= r
            invariant
                r < (if swap {
                    a.col_dim()
                } else {
                    a.row_dim()
                }),
                out@.len() <= (if swap {
                    a.col_dim()
                } else {
                    a.row_dim()
                }),
                grid_wf(
                    rows_of(out@),
                    if swap {
                        a.row_dim()
                    } else {
                        a.col_dim()
                    },
                ),
                forall|i: int|
                    0 <= i < n ==> grid_map(rows_of(out@)).contains_key(
                        #[trigger] target(rs@, cs@, swap, i),
                    ) && grid_map(rows_of(out@))[target(rs@, cs@, swap, i)] == vals[i],
                forall|p: (usize, usize)|
                    grid_map(rows_of(out@)).contains_key(p) ==> exists|i: int|
                        0 <= i < n && #[trigger] target(rs@, cs@, swap, i) == p,
            decreases r + 1 - out@.len(),
        {
            let ghost before = rows_of(out@);
            out.push(Vec::new());
            proof {
                assert(rows_of(out@) =~= before.push(Seq::empty()));
                lemma_grid_push_empty(before);
                assert forall|x: int| 0 <= x < rows_of(out@).len() implies sorted(
                    #[trigger] rows_of(out@)[x],
                ) && bounded(
                    rows_of(out@)[x],
                    if swap {
                        a.row_dim()
                    } else {
                        a.col_dim()
                    },
                ) by {
                    if x < before.len() {
                        assert(rows_of(out@)[x] == before[x]);
                    }
                }
            }
        }
        let ghost before = rows_of(out@);
        proof {
            assert(sorted(before[r as int]));
            // the position is new: positions are listed once
            if grid_map(before).contains_key((r, c)) {
                let i = choose|i: int| 0 <= i < n && #[trigger] target(rs@, cs@, swap, i) == (r, c);
                assert(rs@[i] < rs@[n as int] || (rs@[i] == rs@[n as int] && cs@[i]
                    < cs@[n as int]));
            }
        }
        let (at, _) = search(&out[r], c);
        out[r].insert(at, (c, value));
        proof {
            let after = rows_of(out@);
            let fresh = after[r as int];
            lemma_row_insert(before[r as int], at as int, c, value);
            assert(after =~= before.update(r as int, fresh));
            lemma_grid_update(before, r, fresh);
            assert(grid_map(after) =~= grid_map(before).insert((r, c), value));
            assert forall|x: int| 0 <= x < after.len() implies sorted(#[trigger] after[x])
                && bounded(
                after[x],
                if swap {
                    a.row_dim()
                } else {
                    a.col_dim()
                },
            ) by {
                if x != r {
                    assert(after[x] == before[x]);
                } else {
                    let width = if swap {
                        a.row_dim()
                    } else {
                        a.col_dim()
                    };
                    assert(bounded(before[r as int], width));
                    assert forall|y: int| 0 <= y < fresh.len() implies (#[trigger] fresh[y]).0
                        < width by {
                        if y < at {
                            assert(fresh[y] == before[r as int][y]);
                        } else if y > at {
                            assert(fresh[y] == before[r as int][y - 1]);
                        }
                    }
                }
            }
            assert forall|i: int| 0 <= i < n + 1 implies grid_map(after).contains_key(
                #[trigger] target(rs@, cs@, swap, i),
            ) && grid_map(after)[target(rs@, cs@, swap, i)] == vals[i] by {
                if i < n {
                    assert(rs@[i] < rs@[n as int] || (rs@[i] == rs@[n as int] && cs@[i]
                        < cs@[n as int]));
                    assert(target(rs@, cs@, swap, i) != (r, c));
                }
            }
            assert forall|p: (usize, usize)| grid_map(after).contains_key(p) implies exists|i: int|
                0 <= i < n + 1 && #[trigger] target(rs@, cs@, swap, i) == p by {
                if p == (r, c) {
                    assert(target(rs@, cs@, swap, n as int) == p);
                } else {
                    let i = choose|i: int| 0 <= i < n && #[trigger] target(rs@, cs@, swap, i) == p;
                    assert(0 <= i < n + 1 && target(rs@, cs@, swap, i) == p);
                }
            }
        }
        n += 1;
    }
    proof {
        let got = grid_map(rows_of(out@));
        let want = operand(m, swap);
        assert forall|p: (usize, usize)| got.contains_key(p) <==> want.contains_key(p) by {
            if got.contains_key(p) {
                let i = choose|i: int| 0 <= i < n && #[trigger] target(rs@, cs@, swap, i) == p;
                assert(m.contains_key((rs@[i], cs@[i])));
            }
            if want.contains_key(p) {
                let q = if swap {
                    (p.1, p.0)
                } else {
                    p
                };
                let i = choose|i: int| 0 <= i < rs@.len() && (rs@[i], cs@[i]) == q;
                assert(target(rs@, cs@, swap, i) == p);
            }
        }
        assert forall|p: (usize, usize)| got.contains_key(p) implies got[p] == want[p] by {
            let i = choose|i: int| 0 <= i < n && #[trigger] target(rs@, cs@, swap, i) == p;
            assert(got[target(rs@, cs@, swap, i)] == vals[i]);
        }
        assert(got =~= want);
    }
    out
}

/// Where triplet `i` goes: its position, swapped if `swap` is set.
pub open spec fn target(rs: Seq<usize>, cs: Seq<usize>, swap: bool, i: int) -> (usize, usize) {
    if swap {
        (cs[i], rs[i])
    } else {
        (rs[i], cs[i])
    }
}

/// A copy of a row, value by value.
pub fn copy_row<T: Clone>(row: &Vec<(IndexType, T)>) -> (copy: Vec<(IndexType, T)>)
    requires
        clones_exactly::<T>(),
    ensures
        copy@ == row@,
{
    let mut copy: Vec<(IndexType, T)> = Vec::new();
    let mut i: usize = 0;
    while i < row.len()
        invariant
            i <= row@.len(),
            clones_exactly::<T>(),
            copy@ == row@.take(i as int),
        decreases row@.len() - i,
    {
        copy.push((row[i].0, duplicate(&row[i].1)));
        proof {
            assert(copy@ =~= row@.take(i + 1));
        }
        i += 1;
    }
    proof {
        assert(row@.take(row@.len() as int) =~= row@);
    }
    copy
}

/// The set of the positions that an index list names, whether or not it
/// names one twice.
pub fn member_set(list: &Indices, dim: IndexType) -> (s: IndexSet)
    ensures
        s.wf(),
        forall|k: usize| k < dim ==> #[trigger] list.resolve(dim).contains(k) == s.holds(k),
{
    match list {
        Indices::All => {
            let s = IndexSet::all();
            proof {
                assert forall|k: usize| k < dim implies #[trigger] list.resolve(dim).contains(k)
                    == s.holds(k) by {
                    assert(list.resolve(dim)[k as int] == k);
                }
            }
            s
        },
        Indices::List(items) => IndexSet::of(items),
    }
}

/// The stored pairs of a vector as one sorted row.
pub fn load_row<U: Vector>(u: &U) -> (row: Vec<(IndexType, U::Scalar)>) where U::Scalar: Clone
    requires
        u.wf(),
        clones_exactly::<U::Scalar>(),
    ensures
        sorted(row@),
        bounded(row@, u.dim()),
        row_map(row@) == u.entries(),
{
    let copy = match u.dup() {
        Ok(c) => c,
        Err(_) => vstd::pervasive::unreached(),
    };
    proof {
        copy.lemma_stored_in_range();
        assert(copy.entries() =~= u.entries()) by {
            assert forall|k: usize| copy.entries().contains_key(k) implies copy.entries()[k]
                == u.entries()[k] by {
                assert(u.entries().contains_key(k));
                assert(cloned(u.entries()[k], copy.entries()[k]));
            }
        }
    }
    let ghost m = copy.entries();
    let (idxs, vals) = match copy.extract_tuples() {
        Ok(t) => t,
        Err(_) => vstd::pervasive::unreached(),
    };
    let ghost values = vals@;
    let count = idxs.len();
    let mut row: Vec<(IndexType, U::Scalar)> = Vec::new();
    let mut n: usize = 0;
    for value in it: vals
        invariant
            it.seq() == values,
            n == it.index(),
            values.len() == count,
            idxs@.len() == count,
            row@.len() == n,
            forall|i: int| 0 <= i < n ==> #[trigger] row@[i] == (idxs@[i], values[i]),
    {
        row.push((idxs[n], value));
        n += 1;
    }
    proof {
        assert forall|a: int, b: int| 0 <= a < b < row@.len() implies row@[a].0 < row@[b].0 by {
            assert(idxs@[a] < idxs@[b]);
        }
        assert forall|k: usize| row_map(row@).contains_key(k) <==> m.contains_key(k) by {
            if row_map(row@).contains_key(k) {
                let p = place(row@, k);
                assert(m.contains_key(idxs@[p]));
            }
            if m.contains_key(k) {
                let i = choose|i: int| 0 <= i < idxs@.len() && idxs@[i] == k;
                assert(row@[i].0 == k);
            }
        }
        assert forall|k: usize| row_map(row@).contains_key(k) implies row_map(row@)[k] == m[k] by {
            let p = place(row@, k);
            lemma_row_map_at(row@, p);
            assert(m.contains_key(idxs@[p]) && m[idxs@[p]] == values[p]);
        }
        assert(row_map(row@) =~= m);
        assert forall|i: int| 0 <= i < row@.len() implies (#[trigger] row@[i]).0 < u.dim() by {
            lemma_row_map_at(row@, i);
        }
    }
    row
}

/// A sorted row as the one row of a matrix.
pub fn single_row<T: Clone>(row: Vec<(IndexType, T)>) -> (rows: Vec<Vec<(IndexType, T)>>)
    requires
        sorted(row@),
    ensures
        rows@.len() == 1,
        rows_of(rows@)[0] == row@,
        grid_map(rows_of(rows@)) == as_row(row_map(row@)),
        forall|limit: usize| bounded(row@, limit) ==> grid_wf(rows_of(rows@), limit),
{
    let ghost pairs = row@;
    let mut rows: Vec<Vec<(IndexType, T)>> = Vec::new();
    rows.push(row);
    proof {
        assert(rows_of(rows@)[0] == pairs);
        assert(grid_map(rows_of(rows@)) =~= as_row(row_map(pairs)));
    }
    rows
}

/// A sorted row as the one column of a matrix: pair `(k, v)` becomes row
/// `k`, which holds `v` in column 0.
pub fn single_column<T: Clone>(row: &Vec<(IndexType, T)>) -> (rows: Vec<Vec<(IndexType, T)>>)
    requires
        clones_exactly::<T>(),
        sorted(row@),
    ensures
        grid_wf(rows_of(rows@), 1),
        grid_map(rows_of(rows@)) == as_col(row_map(row@)),
        forall|limit: usize| bounded(row@, limit) ==> rows@.len() <= limit,
{
    let mut rows: Vec<Vec<(IndexType, T)>> = Vec::new();
    let mut n: usize = 0;
    proof {
        lemma_grid_empty(rows_of(rows@));
        lemma_row_map_empty::<T>();
        assert(row@.take(0) =~= Seq::<(usize, T)>::empty());
        assert(grid_map(rows_of(rows@)) =~= as_col(row_map(row@.take(0))));
    }
    while n < row.len()
        invariant
            n <= row@.len(),
            clones_exactly::<T>(),
            sorted(row@),
            grid_wf(rows_of(rows@), 1),
            grid_map(rows_of(rows@)) == as_col(row_map(row@.take(n as int))),
            n > 0 ==> rows@.len() == row@[n - 1].0 + 1,
            n == 0 ==> rows@.len() == 0,
        decreases row@.len() - n,
    {
        let k: usize = row[n].0;
        proof {
            lemma_row_take_next(row@, n as int);
            if n > 0 {
                assert(row@[n - 1].0 < row@[n as int].0);
            }
        }
        while rows.len() < k
            invariant
                rows@.len() <= k,
                grid_wf(rows_of(rows@), 1),
                grid_map(rows_of(rows@)) == as_col(row_map(row@.take(n as int))),
            decreases k - rows@.len(),
        {
            let ghost before = rows_of(rows@);
            rows.push(Vec::new());
            proof {
                assert(rows_of(rows@) =~= before.push(Seq::empty()));
                lemma_grid_push_empty(before);
                assert forall|x: int| 0 <= x < rows_of(rows@).len() implies sorted(
                    #[trigger] rows_of(rows@)[x],
                ) && bounded(rows_of(rows@)[x], 1) by {
                    if x < before.len() {
                        assert(rows_of(rows@)[x] == before[x]);
                    }
                }
            }
        }
        let ghost before = rows_of(rows@);
        let mut cell: Vec<(IndexType, T)> = Vec::new();
        let value = duplicate(&row[n].1);
        cell.push((0, value));
        proof {
            lemma_row_map_empty::<T>();
            assert(gap(Seq::<(usize, T)>::empty(), 0, 0usize));
            lemma_row_insert(Seq::<(usize, T)>::empty(), 0, 0usize, value);
            assert(cell@ =~= Seq::<(usize, T)>::empty().insert(0, (0usize, value)));
        }
        rows.push(cell);
        proof {
            let after = rows_of(rows@);
            assert(after =~= before.push(cell@));
            assert forall|x: int| 0 <= x < after.len() implies sorted(#[trigger] after[x])
                && bounded(after[x], 1) by {
                if x < before.len() {
                    assert(after[x] == before[x]);
                }
            }
            let want = as_col(row_map(row@.take(n + 1)));
            assert forall|p: (usize, usize)| grid_map(after).contains_key(p) <==> want.contains_key(
                p,
            ) by {
                if p.0 < before.len() {
                    assert(after[p.0 as int] == before[p.0 as int]);
                    assert(grid_map(before).contains_key(p) <==> as_col(
                        row_map(row@.take(n as int)),
                    ).contains_key(p));
                } else {
                    assert(!grid_map(before).contains_key(p));
                }
            }
            assert forall|p: (usize, usize)| grid_map(after).contains_key(p) implies grid_map(
                after,
            )[p] == want[p] by {
                if p.0 < before.len() {
                    assert(after[p.0 as int] == before[p.0 as int]);
                    assert(grid_map(before).contains_key(p));
                    assert(grid_map(before)[p] == as_col(row_map(row@.take(n as int)))[p]);
                }
            }
            assert(grid_map(after) =~= want);
        }
        n += 1;
    }
    proof {
        assert(row@.take(row@.len() as int) =~= row@);
        assert forall|limit: usize| bounded(row@, limit) implies rows@.len() <= limit by {
            if row@.len() > 0 {
                assert(row@[row@.len() - 1].0 < limit);
            }
        }
    }
    rows
}

/// The one row of rows that a matrix of one row gives.
pub fn first_row<T: Clone>(rows: Vec<Vec<(IndexType, T)>>) -> (row: Vec<(IndexType, T)>)
    requires
        rows@.len() <= 1,
        forall|x: int| 0 <= x < rows@.len() ==> sorted(#[trigger] rows_of(rows@)[x]),
    ensures
        sorted(row@),
        row_map(row@) == row_zero(grid_map(rows_of(rows@))),
        forall|limit: usize| grid_wf(rows_of(rows@), limit) ==> bounded(row@, limit),
{
    let ghost grid = rows_of(rows@);
    let mut rows = rows;
    match rows.pop() {
        Some(row) => {
            proof {
                assert(row@ == grid[0]);
                assert(row_map(row@) =~= row_zero(grid_map(grid)));
                assert forall|limit: usize| grid_wf(grid, limit) implies bounded(row@, limit) by {
                    assert(sorted(grid[0]) && bounded(grid[0], limit));
                }
            }
            row
        },
        None => {
            proof {
                lemma_row_map_empty::<T>();
                assert(row_map(Seq::<(usize, T)>::empty()) =~= row_zero(grid_map(grid)));
            }
            Vec::new()
        },
    }
}

/// The one column of rows that a matrix of one column gives.
pub fn first_column<T: Clone>(rows: &Vec<Vec<(IndexType, T)>>) -> (col: Vec<(IndexType, T)>)
    requires
        clones_exactly::<T>(),
        grid_wf(rows_of(rows@), 1),
    ensures
        sorted(col@),
        row_map(col@) == col_zero(grid_map(rows_of(rows@))),
        forall|limit: usize| rows@.len() <= limit ==> bounded(col@, limit),
{
    let ghost grid = rows_of(rows@);
    let mut col: Vec<(IndexType, T)> = Vec::new();
    let mut i: usize = 0;
    proof {
        lemma_row_map_empty::<T>();
    }
    while i < rows.len()
        invariant
            i <= rows@.len(),
            grid == rows_of(rows@),
            grid_wf(grid, 1),
            clones_exactly::<T>(),
            sorted(col@),
            forall|a: int| 0 <= a < col@.len() ==> (#[trigger] col@[a]).0 < i,
            forall|k: usize| #[trigger]
                row_map(col@).contains_key(k) <==> k < i && grid_map(grid).contains_key((k, 0)),
            forall|k: usize|
                row_map(col@).contains_key(k) ==> #[trigger] row_map(col@)[k] == grid_map(grid)[(
                    k,
                    0,
                )],
        decreases rows@.len() - i,
    {
        let ghost before = col@;
        proof {
            assert(sorted(grid[i as int]) && bounded(grid[i as int], 1));
            assert(rows@[i as int]@ == grid[i as int]);
        }
        if rows[i].len() > 0 {
            proof {
                lemma_row_map_at(grid[i as int], 0);
                assert(grid[i as int][0].0 < 1);
            }
            let value = duplicate(&rows[i][0].1);
            proof {
                assert(gap(before, before.len() as int, i));
                lemma_gap_absent(before, before.len() as int, i);
                lemma_row_insert(before, before.len() as int, i, value);
            }
            col.push((i, value));
            proof {
                assert(col@ =~= before.insert(before.len() as int, (i, value)));
                assert forall|a: int| 0 <= a < col@.len() implies
                    (#[trigger] col@[a]).0 < i + 1 by {
                    if a < before.len() {
                        assert(col@[a] == before[a]);
                    }
                }
            }
        } else {
            proof {
                lemma_above(before, i);
                lemma_row_map_empty::<T>();
                assert(grid[i as int] =~= Seq::<(usize, T)>::empty());
                assert forall|a: int| 0 <= a < col@.len() implies
                    (#[trigger] col@[a]).0 < i + 1 by {}
            }
        }
        i += 1;
    }
    proof {
        assert(row_map(col@) =~= col_zero(grid_map(grid)));
        assert forall|limit: usize| rows@.len() <= limit implies bounded(col@, limit) by {
            assert forall|a: int| 0 <= a < col@.len() implies (#[trigger] col@[a]).0 < limit by {}
        }
    }
    col
}

/// Column `col` of the rows of a matrix, as a sorted row.
pub fn column_row<T: Clone>(rows: &Vec<Vec<(IndexType, T)>>, col: IndexType) -> (out: Vec<
    (IndexType, T),
>)
    requires
        clones_exactly::<T>(),
        forall|x: int| 0 <= x < rows@.len() ==> sorted(#[trigger] rows_of(rows@)[x]),
    ensures
        sorted(out@),
        forall|limit: usize| rows@.len() <= limit ==> bounded(out@, limit),
        row_map(out@) == column_of(grid_map(rows_of(rows@)), col),
{
    let ghost grid = rows_of(rows@);
    let mut out: Vec<(IndexType, T)> = Vec::new();
    let mut i: usize = 0;
    proof {
        lemma_row_map_empty::<T>();
    }
    while i < rows.len()
        invariant
            i <= rows@.len(),
            grid == rows_of(rows@),
            forall|x: int| 0 <= x < rows@.len() ==> sorted(#[trigger] grid[x]),
            clones_exactly::<T>(),
            sorted(out@),
            forall|a: int| 0 <= a < out@.len() ==> (#[trigger] out@[a]).0 < i,
            forall|k: usize| #[trigger]
                row_map(out@).contains_key(k) <==> k < i && grid_map(grid).contains_key((k, col)),
            forall|k: usize|
                row_map(out@).contains_key(k) ==> #[trigger] row_map(out@)[k] == grid_map(grid)[(
                    k,
                    col,
                )],
        decreases rows@.len() - i,
    {
        let ghost before = out@;
        proof {
            assert(sorted(grid[i as int]));
            assert(rows@[i as int]@ == grid[i as int]);
        }
        match lookup(&rows[i], col) {
            Some(v) => {
                let value = duplicate(v);
                proof {
                    assert(gap(before, before.len() as int, i));
                    lemma_gap_absent(before, before.len() as int, i);
                    lemma_row_insert(before, before.len() as int, i, value);
                }
                out.push((i, value));
                proof {
                    assert(out@ =~= before.insert(before.len() as int, (i, value)));
                    assert forall|a: int| 0 <= a < out@.len() implies (#[trigger] out@[a]).0 < i
                        + 1 by {
                        if a < before.len() {
                            assert(out@[a] == before[a]);
                        }
                    }
                }
            },
            None => {
                proof {
                    lemma_above(before, i);
                }
            },
        }
        i += 1;
    }
    proof {
        assert(row_map(out@) =~= column_of(grid_map(grid), col));
        assert forall|limit: usize| rows@.len() <= limit implies bounded(out@, limit) by {
            assert forall|a: int| 0 <= a < out@.len() implies (#[trigger] out@[a]).0 < limit by {}
        }
    }
    out
}

} // verus!
