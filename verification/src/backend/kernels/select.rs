//! Selecting and scattering by index lists.
use vstd::prelude::*;
use crate::algebra::{BinaryOperator, First, Monoid, Semiring, UnaryOperator};
use crate::backend::grid::{
    grid_map, grid_wf, lemma_grid_empty, lemma_grid_push_empty, lemma_grid_update, row_at, rows_of,
};
use crate::backend::kernels::load::{copy_row, target};
use crate::backend::kernels::write::lemma_above;
use crate::backend::row::{
    bounded, gap, lemma_gap_absent, lemma_row_insert, lemma_row_map_at, lemma_row_map_empty, lookup,
    place, row_map, search, sorted, upsert,
};
use crate::indices::Indices;
use crate::mask::{MatMask, VecMask};
use crate::matrix::Matrix;
use crate::operations::{
    extracted, filled, region, scattered, sent, vec_extracted, vec_filled, vec_region,
    vec_scattered, vec_sent,
};
use crate::types::{clones_exactly, duplicate, IndexType};
use crate::vector::Vector;

verus! {

/// The selection of the rows `a` at the rows and the columns that the
/// index lists name within the dimensions `height` and `width`.
pub fn extract_rows<T: Clone>(
    a: &Vec<Vec<(IndexType, T)>>,
    rows: &Indices,
    cols: &Indices,
    height: IndexType,
    width: IndexType,
) -> (out: Vec<Vec<(IndexType, T)>>)
    requires
        clones_exactly::<T>(),
        grid_wf(rows_of(a@), width),
    ensures
        out@.len() == rows.resolve(height).len(),
        forall|limit: usize|
            cols.resolve(width).len() <= limit ==> grid_wf(rows_of(out@), limit),
        grid_map(rows_of(out@)) == extracted(
            grid_map(rows_of(a@)),
            rows.resolve(height),
            cols.resolve(width),
        ),
{
    let ghost am = grid_map(rows_of(a@));
    let ghost rs = rows.resolve(height);
    let ghost cs = cols.resolve(width);
    let row_count = rows.count(height);
    let col_count = cols.count(width);
    let empty: Vec<(IndexType, T)> = Vec::new();
    let mut out: Vec<Vec<(IndexType, T)>> = Vec::new();
    let mut i: usize = 0;
    while i < row_count
        invariant
            i <= row_count,
            row_count == rs.len(),
            col_count == cs.len(),
            rs == rows.resolve(height),
            cs == cols.resolve(width),
            am == grid_map(rows_of(a@)),
            out@.len() == i,
            empty@.len() == 0,
            clones_exactly::<T>(),
            grid_wf(rows_of(a@), width),
            forall|x: int|
                0 <= x < i ==> sorted(#[trigger] rows_of(out@)[x]) && bounded(
                    rows_of(out@)[x],
                    col_count,
                ),
            forall|x: int, k: usize|
                0 <= x < i ==> (#[trigger] row_map(rows_of(out@)[x]).contains_key(k) <==> k
                    < cs.len() && am.contains_key((rs[x], cs[k as int]))),
            forall|x: int, k: usize|
                0 <= x < i && row_map(rows_of(out@)[x]).contains_key(k) ==> #[trigger] row_map(
                    rows_of(out@)[x],
                )[k] == am[(rs[x], cs[k as int])],
        decreases row_count - i,
    {
        let from = rows.get(i, height);
        let source = if from < a.len() {
            &a[from]
        } else {
            &empty
        };
        proof {
            lemma_row_map_empty::<T>();
            assert(source@ == row_at(rows_of(a@), from as int));
            if from < a@.len() {
                assert(sorted(rows_of(a@)[from as int]));
            }
        }
        let mut row: Vec<(IndexType, T)> = Vec::new();
        let mut j: usize = 0;
        while j < col_count
            invariant
                j <= col_count,
                col_count == cs.len(),
                cs == cols.resolve(width),
                clones_exactly::<T>(),
                sorted(source@),
                sorted(row@),
                bounded(row@, col_count),
                forall|a: int| 0 <= a < row@.len() ==> (#[trigger] row@[a]).0 < j,
                forall|k: usize| #[trigger]
                    row_map(row@).contains_key(k) <==> k < j && row_map(source@).contains_key(
                        cs[k as int],
                    ),
                forall|k: usize|
                    row_map(row@).contains_key(k) ==> #[trigger] row_map(row@)[k] == row_map(
                        source@,
                    )[cs[k as int]],
            decreases col_count - j,
        {
            let want = cols.get(j, width);
            let ghost before = row@;
            match lookup(source, want) {
                Some(v) => {
                    let value = duplicate(v);
                    proof {
                        assert(gap(before, before.len() as int, j));
                        lemma_gap_absent(before, before.len() as int, j);
                        lemma_row_insert(before, before.len() as int, j, value);
                    }
                    row.push((j, value));
                    proof {
                        assert(row@ =~= before.insert(before.len() as int, (j, value)));
                        assert forall|a: int| 0 <= a < row@.len() implies (#[trigger] row@[a]).0
                            < col_count by {
                            if a < before.len() {
                                assert(row@[a] == before[a]);
                            }
                        }
                        assert forall|a: int| 0 <= a < row@.len() implies (#[trigger] row@[a]).0 < j
                            + 1 by {
                            if a < before.len() {
                                assert(row@[a] == before[a]);
                            }
                        }
                    }
                },
                None => {
                    proof {
                        lemma_above(before, j);
                    }
                },
            }
            j += 1;
        }
        let ghost before = rows_of(out@);
        out.push(row);
        proof {
            let after = rows_of(out@);
            assert(after =~= before.push(row@));
            assert forall|x: int| 0 <= x < i + 1 implies sorted(#[trigger] after[x]) && bounded(
                after[x],
                col_count,
            ) by {
                if x < i {
                    assert(after[x] == before[x]);
                }
            }
            assert forall|x: int, k: usize| 0 <= x < i + 1 implies (#[trigger] row_map(
                after[x],
            ).contains_key(k) <==> k < cs.len() && am.contains_key((rs[x], cs[k as int]))) by {
                if x < i {
                    assert(after[x] == before[x]);
                    assert(row_map(before[x]).contains_key(k) <==> k < cs.len() && am.contains_key(
                        (rs[x], cs[k as int]),
                    ));
                }
            }
            assert forall|x: int, k: usize|
                0 <= x < i + 1 && row_map(after[x]).contains_key(k) implies #[trigger] row_map(
                after[x],
            )[k] == am[(rs[x], cs[k as int])] by {
                if x < i {
                    assert(after[x] == before[x]);
                    assert(row_map(before[x])[k] == am[(rs[x], cs[k as int])]);
                }
            }
        }
        i += 1;
    }
    proof {
        let got = grid_map(rows_of(out@));
        let want = extracted(am, rs, cs);
        assert forall|p: (usize, usize)| got.contains_key(p) <==> want.contains_key(p) by {
            if p.0 < out@.len() {
                assert(row_map(rows_of(out@)[p.0 as int]).contains_key(p.1) <==> p.1 < cs.len()
                    && am.contains_key((rs[p.0 as int], cs[p.1 as int])));
            }
        }
        assert forall|p: (usize, usize)| got.contains_key(p) implies got[p] == want[p] by {
            assert(row_map(rows_of(out@)[p.0 as int])[p.1] == am[(
                rs[p.0 as int],
                cs[p.1 as int],
            )]);
        }
        assert(got =~= want);
        assert forall|limit: usize| cs.len() <= limit implies grid_wf(rows_of(out@), limit) by {
            assert forall|x: int| 0 <= x < rows_of(out@).len() implies sorted(
                #[trigger] rows_of(out@)[x],
            ) && bounded(rows_of(out@)[x], limit) by {
                assert(bounded(rows_of(out@)[x], col_count));
                assert forall|y: int| 0 <= y < rows_of(out@)[x].len() implies (
                #[trigger] rows_of(out@)[x][y]).0 < limit by {}
            }
        }
    }
    out
}

/// The rows `a` scattered to the rows and the columns that the index lists
/// name within the dimensions `height` and `width`: row `i` goes to the
/// `i`-th row named, column `j` to the `j`-th column named.
pub fn scatter_rows<T: Clone>(
    a: &Vec<Vec<(IndexType, T)>>,
    rows: &Indices,
    cols: &Indices,
    height: IndexType,
    width: IndexType,
) -> (out: Vec<Vec<(IndexType, T)>>)
    requires
        clones_exactly::<T>(),
        a@.len() <= rows.resolve(height).len(),
        grid_wf(rows_of(a@), cols.resolve(width).len() as usize),
        cols.resolve(width).len() <= usize::MAX,
        rows.within(height),
        cols.within(width),
        rows.distinct(),
        cols.distinct(),
    ensures
        out@.len() <= height,
        grid_wf(rows_of(out@), width),
        grid_map(rows_of(out@)) == scattered(
            grid_map(rows_of(a@)),
            rows.resolve(height),
            cols.resolve(width),
        ),
{
    let ghost am = grid_map(rows_of(a@));
    let ghost rs = rows.resolve(height);
    let ghost cs = cols.resolve(width);
    let mut out: Vec<Vec<(IndexType, T)>> = Vec::new();
    let mut i: usize = 0;
    proof {
        lemma_grid_empty(rows_of(out@));
        lemma_distinct(rows, height);
        lemma_distinct(cols, width);
    }
    while i < a.len()
        invariant
            i <= a@.len(),
            a@.len() <= rs.len(),
            rs == rows.resolve(height),
            cs == cols.resolve(width),
            cs.len() <= usize::MAX,
            am == grid_map(rows_of(a@)),
            clones_exactly::<T>(),
            grid_wf(rows_of(a@), cs.len() as usize),
            rows.within(height),
            cols.within(width),
            forall|x: int, y: int| 0 <= x < y < rs.len() ==> rs[x] != rs[y],
            forall|x: int, y: int| 0 <= x < y < cs.len() ==> cs[x] != cs[y],
            out@.len() <= height,
            grid_wf(rows_of(out@), width),
            forall|p: (usize, usize)| #[trigger]
                grid_map(rows_of(out@)).contains_key(p) <==> exists|x: usize, j: usize|
                    x < i && #[trigger] sent(am, rs, cs, p, x, j),
            forall|p: (usize, usize), x: usize, j: usize|
                x < i && #[trigger] sent(am, rs, cs, p, x, j) ==> grid_map(rows_of(out@))[p] == am[(
                    x,
                    j,
                )],
        decreases a@.len() - i,
    {
        let source = &a[i];
        let target = rows.get(i, height);
        let ghost width_a = cs.len() as usize;
        proof {
            assert(source@ == rows_of(a@)[i as int]);
            assert(sorted(source@) && bounded(source@, width_a));
            assert(rs[i as int] < height);
        }
        // the row as it arrives: every value at the column that its column names
        let mut row: Vec<(IndexType, T)> = Vec::new();
        let mut n: usize = 0;
        proof {
            lemma_row_map_empty::<T>();
        }
        while n < source.len()
            invariant
                n <= source@.len(),
                cs == cols.resolve(width),
                cs.len() <= usize::MAX,
                width_a == cs.len(),
                clones_exactly::<T>(),
                sorted(source@),
                bounded(source@, width_a),
                cols.within(width),
                forall|x: int, y: int| 0 <= x < y < cs.len() ==> cs[x] != cs[y],
                sorted(row@),
                bounded(row@, width),
                forall|k: usize| #[trigger]
                    row_map(row@).contains_key(k) <==> exists|y: int|
                        0 <= y < n && cs[(#[trigger] source@[y]).0 as int] == k,
                forall|y: int|
                    0 <= y < n ==> row_map(row@)[cs[(#[trigger] source@[y]).0 as int]]
                        == source@[y].1,
            decreases source@.len() - n,
        {
            let j: usize = source[n].0;
            proof {
                assert(source@[n as int].0 < width_a);
                assert(cs[j as int] < width);
            }
            let col = cols.get(j, width);
            let ghost before = row@;
            proof {
                // the column is new: no column is named twice
                if row_map(before).contains_key(col) {
                    let y = choose|y: int| 0 <= y < n && cs[(#[trigger] source@[y]).0 as int]
                        == col;
                    assert(source@[y].0 < source@[n as int].0);
                }
            }
            let (at, _) = search(&row, col);
            let value = duplicate(&source[n].1);
            row.insert(at, (col, value));
            proof {
                lemma_row_insert(before, at as int, col, value);
                assert forall|x: int| 0 <= x < row@.len() implies (#[trigger] row@[x]).0
                    < width by {
                    if x < at {
                        assert(row@[x] == before[x]);
                    } else if x > at {
                        assert(row@[x] == before[x - 1]);
                    }
                }
                assert forall|k: usize| #[trigger]
                    row_map(row@).contains_key(k) <==> exists|y: int|
                        0 <= y < n + 1 && cs[(#[trigger] source@[y]).0 as int] == k by {
                    if row_map(before).contains_key(k) {
                        let y = choose|y: int|
                            0 <= y < n && cs[(#[trigger] source@[y]).0 as int] == k;
                        assert(0 <= y < n + 1 && cs[source@[y].0 as int] == k);
                    }
                    if k == col {
                        assert(0 <= n < n + 1 && cs[source@[n as int].0 as int] == k);
                    }
                    if exists|y: int| 0 <= y < n + 1 && cs[(#[trigger] source@[y]).0 as int] == k {
                        let y = choose|y: int|
                            0 <= y < n + 1 && cs[(#[trigger] source@[y]).0 as int] == k;
                        if y < n {
                            assert(row_map(before).contains_key(k));
                        }
                    }
                }
                assert forall|y: int| 0 <= y < n + 1 implies row_map(row@)[cs[(
                #[trigger] source@[y]).0 as int]] == source@[y].1 by {
                    if y < n {
                        assert(source@[y].0 < source@[n as int].0);
                        assert(cs[source@[y].0 as int] != col);
                        assert(row_map(before)[cs[source@[y].0 as int]] == source@[y].1);
                    }
                }
            }
            n += 1;
        }
        while out.len() <= target
            invariant
                target < height,
                out@.len() <= height,
                grid_wf(rows_of(out@), width),
                forall|p: (usize, usize)| #[trigger]
                    grid_map(rows_of(out@)).contains_key(p) <==> exists|x: usize, j: usize|
                        x < i && #[trigger] sent(am, rs, cs, p, x, j),
                forall|p: (usize, usize), x: usize, j: usize|
                    x < i && #[trigger] sent(am, rs, cs, p, x, j) ==> grid_map(rows_of(out@))[p]
                        == am[(x, j)],
            decreases target + 1 - out@.len(),
        {
            let ghost before = rows_of(out@);
            out.push(Vec::new());
            proof {
                assert(rows_of(out@) =~= before.push(Seq::empty()));
                lemma_grid_push_empty(before);
                assert forall|x: int| 0 <= x < rows_of(out@).len() implies sorted(
                    #[trigger] rows_of(out@)[x],
                ) && bounded(rows_of(out@)[x], width) by {
                    if x < before.len() {
                        assert(rows_of(out@)[x] == before[x]);
                    }
                }
            }
        }
        let ghost before = rows_of(out@);
        proof {
            // nothing has arrived in the target row: no row is named twice
            assert forall|k: usize| !grid_map(before).contains_key((target, k)) by {
                if grid_map(before).contains_key((target, k)) {
                    let (x, j) = choose|x: usize, j: usize|
                        x < i && #[trigger] sent(am, rs, cs, (target, k), x, j);
                    assert(rs[x as int] == rs[i as int]);
                }
            }
        }
        out.set(target, row);
        proof {
            let after = rows_of(out@);
            assert(after =~= before.update(target as int, row@));
            lemma_grid_update(before, target, row@);
            assert forall|x: int| 0 <= x < after.len() implies sorted(#[trigger] after[x])
                && bounded(after[x], width) by {
                if x != target {
                    assert(after[x] == before[x]);
                }
            }
            assert forall|p: (usize, usize)| #[trigger]
                grid_map(after).contains_key(p) <==> exists|x: usize, j: usize|
                    x < i + 1 && #[trigger] sent(am, rs, cs, p, x, j) by {
                if p.0 != target {
                    if grid_map(before).contains_key(p) {
                        let (x, j) = choose|x: usize, j: usize|
                            x < i && #[trigger] sent(am, rs, cs, p, x, j);
                        assert(x < i + 1 && sent(am, rs, cs, p, x, j));
                    }
                    if exists|x: usize, j: usize| x < i + 1
                        && #[trigger] sent(am, rs, cs, p, x, j) {
                        let (x, j) = choose|x: usize, j: usize|
                            x < i + 1 && #[trigger] sent(am, rs, cs, p, x, j);
                        assert(x != i);
                        assert(x < i && sent(am, rs, cs, p, x, j));
                    }
                } else {
                    if row_map(row@).contains_key(p.1) {
                        let y = choose|y: int|
                            0 <= y < source@.len() && cs[(#[trigger] source@[y]).0 as int] == p.1;
                        lemma_row_map_at(source@, y);
                        assert(am.contains_key((i, source@[y].0)));
                        assert(sent(am, rs, cs, p, i, source@[y].0));
                    }
                    if exists|x: usize, j: usize| x < i + 1
                        && #[trigger] sent(am, rs, cs, p, x, j) {
                        let (x, j) = choose|x: usize, j: usize|
                            x < i + 1 && #[trigger] sent(am, rs, cs, p, x, j);
                        if x < i {
                            assert(rs[x as int] == rs[i as int]);
                        }
                        assert(row_map(source@).contains_key(j));
                        let y = place(source@, j);
                        assert(0 <= y < source@.len() && cs[source@[y].0 as int] == p.1);
                    }
                }
            }
            assert forall|p: (usize, usize), x: usize, j: usize|
                x < i + 1 && #[trigger] sent(am, rs, cs, p, x, j) implies grid_map(after)[p] == am[(
                x,
                j,
            )] by {
                if x < i {
                    assert(rs[x as int] != rs[i as int]);
                    assert(p.0 != target);
                    assert(grid_map(before).contains_key(p));
                    assert(grid_map(before)[p] == am[(x, j)]);
                } else {
                    assert(row_map(source@).contains_key(j));
                    let y = place(source@, j);
                    lemma_row_map_at(source@, y);
                    assert(0 <= y < source@.len() && cs[source@[y].0 as int] == p.1);
                    assert(row_map(row@)[p.1] == source@[y].1);
                }
            }
        }
        i += 1;
    }
    proof {
        let got = grid_map(rows_of(out@));
        let want = scattered(am, rs, cs);
        assert forall|p: (usize, usize)| got.contains_key(p) <==> want.contains_key(p) by {
            if got.contains_key(p) {
                let (x, j) = choose|x: usize, j: usize|
                    x < i && #[trigger] sent(am, rs, cs, p, x, j);
                assert(sent(am, rs, cs, p, x, j));
            }
            if want.contains_key(p) {
                let (x, j) = choose|x: usize, j: usize| #[trigger] sent(am, rs, cs, p, x, j);
                assert(am.contains_key((x, j)));
                assert(x < a@.len());
                assert(x < i && sent(am, rs, cs, p, x, j));
            }
        }
        assert forall|p: (usize, usize)| got.contains_key(p) implies got[p] == want[p] by {
            let (x, j) = choose|x: usize, j: usize| x < i && #[trigger] sent(am, rs, cs, p, x, j);
            let q = choose|q: (usize, usize)| #[trigger] sent(am, rs, cs, p, q.0, q.1);
            assert(sent(am, rs, cs, p, (x, j).0, (x, j).1));
            assert(sent(am, rs, cs, p, q.0, q.1));
            assert(q.0 == x) by {
                if q.0 < x {
                    assert(rs[q.0 as int] != rs[x as int]);
                } else if x < q.0 {
                    assert(rs[x as int] != rs[q.0 as int]);
                }
            }
            assert(q.1 == j) by {
                if q.1 < j {
                    assert(cs[q.1 as int] != cs[j as int]);
                } else if j < q.1 {
                    assert(cs[j as int] != cs[q.1 as int]);
                }
            }
            assert(got[p] == am[(x, j)]);
        }
        assert(got =~= want);
    }
    out
}

/// What `distinct` says of the positions that an index list names.
pub proof fn lemma_distinct(list: &Indices, dim: usize)
    requires
        list.distinct(),
    ensures
        forall|x: int, y: int|
            0 <= x < y < list.resolve(dim).len() ==> list.resolve(dim)[x] != list.resolve(dim)[y],
{
}

/// One value at every position that the index lists name within the
/// dimensions `height` and `width`.
pub fn fill_rows<T: Clone>(
    value: &T,
    rows: &Indices,
    cols: &Indices,
    height: IndexType,
    width: IndexType,
) -> (out: Vec<Vec<(IndexType, T)>>)
    requires
        clones_exactly::<T>(),
        rows.within(height),
        cols.within(width),
    ensures
        out@.len() <= height,
        grid_wf(rows_of(out@), width),
        grid_map(rows_of(out@)) == filled(
            *value,
            region(rows.resolve(height), cols.resolve(width)),
        ),
{
    let ghost rs = rows.resolve(height);
    let ghost cs = cols.resolve(width);
    // one row that holds the value at every column named
    let mut full: Vec<(IndexType, T)> = Vec::new();
    let col_count = cols.count(width);
    let mut j: usize = 0;
    proof {
        lemma_row_map_empty::<T>();
    }
    while j < col_count
        invariant
            j <= col_count,
            col_count == cs.len(),
            cs == cols.resolve(width),
            cols.within(width),
            clones_exactly::<T>(),
            sorted(full@),
            bounded(full@, width),
            forall|k: usize| #[trigger]
                row_map(full@).contains_key(k) <==> exists|y: int| 0 <= y < j && cs[y] == k,
            forall|k: usize| row_map(full@).contains_key(k)
                ==> #[trigger] row_map(full@)[k] == *value,
        decreases col_count - j,
    {
        let col = cols.get(j, width);
        let ghost before = full@;
        proof {
            assert(cs[j as int] < width);
        }
        let _ = upsert(&mut full, col, duplicate(value), Option::<&First<T>>::None);
        proof {
            assert forall|k: usize| #[trigger]
                row_map(full@).contains_key(k) <==> exists|y: int| 0 <= y < j + 1 && cs[y] == k by {
                if row_map(before).contains_key(k) {
                    let y = choose|y: int| 0 <= y < j && cs[y] == k;
                    assert(0 <= y < j + 1 && cs[y] == k);
                }
                if k == col {
                    assert(0 <= j < j + 1 && cs[j as int] == k);
                }
                if exists|y: int| 0 <= y < j + 1 && cs[y] == k {
                    let y = choose|y: int| 0 <= y < j + 1 && cs[y] == k;
                    if y < j {
                        assert(row_map(before).contains_key(k));
                    }
                }
            }
        }
        j += 1;
    }
    let mut out: Vec<Vec<(IndexType, T)>> = Vec::new();
    let row_count = rows.count(height);
    let mut i: usize = 0;
    proof {
        lemma_grid_empty(rows_of(out@));
    }
    while i < row_count
        invariant
            i <= row_count,
            row_count == rs.len(),
            rs == rows.resolve(height),
            cs == cols.resolve(width),
            rows.within(height),
            clones_exactly::<T>(),
            sorted(full@),
            bounded(full@, width),
            forall|k: usize| #[trigger] row_map(full@).contains_key(k) <==> cs.contains(k),
            forall|k: usize| row_map(full@).contains_key(k)
                ==> #[trigger] row_map(full@)[k] == *value,
            out@.len() <= height,
            grid_wf(rows_of(out@), width),
            forall|p: (usize, usize)| #[trigger]
                grid_map(rows_of(out@)).contains_key(p) <==> cs.contains(p.1) && exists|x: int|
                    0 <= x < i && rs[x] == p.0,
            forall|p: (usize, usize)|
                grid_map(rows_of(out@)).contains_key(p) ==> #[trigger] grid_map(rows_of(out@))[p]
                    == *value,
        decreases row_count - i,
    {
        let target = rows.get(i, height);
        proof {
            assert(rs[i as int] < height);
        }
        while out.len() <= target
            invariant
                target < height,
                out@.len() <= height,
                grid_wf(rows_of(out@), width),
                forall|p: (usize, usize)| #[trigger]
                    grid_map(rows_of(out@)).contains_key(p) <==> cs.contains(p.1) && exists|x: int|
                        0 <= x < i && rs[x] == p.0,
                forall|p: (usize, usize)|
                    grid_map(rows_of(out@)).contains_key(p) ==> #[trigger] grid_map(
                        rows_of(out@),
                    )[p] == *value,
            decreases target + 1 - out@.len(),
        {
            let ghost before = rows_of(out@);
            out.push(Vec::new());
            proof {
                assert(rows_of(out@) =~= before.push(Seq::empty()));
                lemma_grid_push_empty(before);
                assert forall|x: int| 0 <= x < rows_of(out@).len() implies sorted(
                    #[trigger] rows_of(out@)[x],
                ) && bounded(rows_of(out@)[x], width) by {
                    if x < before.len() {
                        assert(rows_of(out@)[x] == before[x]);
                    }
                }
            }
        }
        let copy = copy_row(&full);
        let ghost before = rows_of(out@);
        out.set(target, copy);
        proof {
            let after = rows_of(out@);
            assert(after =~= before.update(target as int, full@));
            lemma_grid_update(before, target, full@);
            assert forall|x: int| 0 <= x < after.len() implies sorted(#[trigger] after[x])
                && bounded(after[x], width) by {
                if x != target {
                    assert(after[x] == before[x]);
                }
            }
            assert forall|p: (usize, usize)| #[trigger]
                grid_map(after).contains_key(p) <==> cs.contains(p.1) && exists|x: int|
                    0 <= x < i + 1 && rs[x] == p.0 by {
                if p.0 == target {
                    assert(0 <= i < i + 1 && rs[i as int] == p.0);
                } else {
                    if grid_map(before).contains_key(p) {
                        let x = choose|x: int| 0 <= x < i && rs[x] == p.0;
                        assert(0 <= x < i + 1 && rs[x] == p.0);
                    }
                    if exists|x: int| 0 <= x < i + 1 && rs[x] == p.0 {
                        let x = choose|x: int| 0 <= x < i + 1 && rs[x] == p.0;
                        assert(0 <= x < i && rs[x] == p.0);
                    }
                }
            }
            assert forall|p: (usize, usize)| grid_map(after).contains_key(p) implies
                #[trigger] grid_map(
                after,
            )[p] == *value by {
                if p.0 != target {
                    assert(grid_map(before).contains_key(p));
                }
            }
        }
        i += 1;
    }
    proof {
        let got = grid_map(rows_of(out@));
        let want = filled(*value, region(rs, cs));
        assert forall|p: (usize, usize)| got.contains_key(p) <==> want.contains_key(p) by {
            if rs.contains(p.0) {
                let x = choose|x: int| 0 <= x < rs.len() && rs[x] == p.0;
                assert(0 <= x < i && rs[x] == p.0);
            }
        }
        assert(got =~= want);
    }
    out
}

/// The selection of a sorted row at the positions that the index list
/// names within the dimension `dim`.
pub fn extract_vec<T: Clone>(row: &Vec<(IndexType, T)>, list: &Indices, dim: IndexType) -> (out:
    Vec<(IndexType, T)>)
    requires
        clones_exactly::<T>(),
        sorted(row@),
    ensures
        sorted(out@),
        forall|limit: usize| list.resolve(dim).len() <= limit ==> bounded(out@, limit),
        row_map(out@) == vec_extracted(row_map(row@), list.resolve(dim)),
{
    let ghost names = list.resolve(dim);
    let count = list.count(dim);
    let mut out: Vec<(IndexType, T)> = Vec::new();
    let mut i: usize = 0;
    proof {
        lemma_row_map_empty::<T>();
    }
    while i < count
        invariant
            i <= count,
            count == names.len(),
            names == list.resolve(dim),
            clones_exactly::<T>(),
            sorted(row@),
            sorted(out@),
            forall|a: int| 0 <= a < out@.len() ==> (#[trigger] out@[a]).0 < i,
            forall|k: usize| #[trigger]
                row_map(out@).contains_key(k) <==> k < i && row_map(row@).contains_key(
                    names[k as int],
                ),
            forall|k: usize|
                row_map(out@).contains_key(k) ==> #[trigger] row_map(out@)[k] == row_map(
                    row@,
                )[names[k as int]],
        decreases count - i,
    {
        let want = list.get(i, dim);
        let ghost before = out@;
        match lookup(row, want) {
            Some(v) => {
                let value = duplicate(v);
                proof {
                    assert(gap(before, before.len() as int, i));
                    lemma_gap_absent(before, before.len() as int, i);
                    lemma_row_insert(before, before.len() as int, i, value);
                }
                out.push((i, value));
                proof {
                    assert(out@ =~= before.insert(before.len() as int, (i, value)));
                    assert forall|a: int| 0 <= a < out@.len() implies (#[trigger] out@[a]).0 < i
                        + 1 by {
                        if a < before.len() {
                            assert(out@[a] == before[a]);
                        }
                    }
                }
            },
            None => {
                proof {
                    lemma_above(before, i);
                }
            },
        }
        i += 1;
    }
    proof {
        assert(row_map(out@) =~= vec_extracted(row_map(row@), names));
        assert forall|limit: usize| names.len() <= limit implies bounded(out@, limit) by {
            assert forall|a: int| 0 <= a < out@.len() implies (#[trigger] out@[a]).0 < limit by {}
        }
    }
    out
}

/// A sorted row scattered to the positions that the index list names
/// within the dimension `dim`: the value at `i` goes to the `i`-th position
/// named.
pub fn scatter_vec<T: Clone>(row: &Vec<(IndexType, T)>, list: &Indices, dim: IndexType) -> (out:
    Vec<(IndexType, T)>)
    requires
        clones_exactly::<T>(),
        sorted(row@),
        bounded(row@, list.resolve(dim).len() as usize),
        list.resolve(dim).len() <= usize::MAX,
        list.within(dim),
        list.distinct(),
    ensures
        sorted(out@),
        bounded(out@, dim),
        row_map(out@) == vec_scattered(row_map(row@), list.resolve(dim)),
{
    let ghost names = list.resolve(dim);
    let ghost um = row_map(row@);
    let mut out: Vec<(IndexType, T)> = Vec::new();
    let mut n: usize = 0;
    proof {
        lemma_row_map_empty::<T>();
        lemma_distinct(list, dim);
    }
    while n < row.len()
        invariant
            n <= row@.len(),
            names == list.resolve(dim),
            names.len() <= usize::MAX,
            um == row_map(row@),
            clones_exactly::<T>(),
            sorted(row@),
            bounded(row@, names.len() as usize),
            list.within(dim),
            forall|x: int, y: int| 0 <= x < y < names.len() ==> names[x] != names[y],
            sorted(out@),
            bounded(out@, dim),
            forall|k: usize| #[trigger]
                row_map(out@).contains_key(k) <==> exists|y: int|
                    0 <= y < n && names[(#[trigger] row@[y]).0 as int] == k,
            forall|y: int|
                0 <= y < n ==> row_map(out@)[names[(#[trigger] row@[y]).0 as int]] == row@[y].1,
        decreases row@.len() - n,
    {
        let i: usize = row[n].0;
        proof {
            assert(row@[n as int].0 < names.len());
            assert(names[i as int] < dim);
        }
        let target = list.get(i, dim);
        let ghost before = out@;
        proof {
            if row_map(before).contains_key(target) {
                let y = choose|y: int| 0 <= y < n && names[(#[trigger] row@[y]).0 as int] == target;
                assert(row@[y].0 < row@[n as int].0);
            }
        }
        let (at, _) = search(&out, target);
        let value = duplicate(&row[n].1);
        out.insert(at, (target, value));
        proof {
            lemma_row_insert(before, at as int, target, value);
            assert forall|x: int| 0 <= x < out@.len() implies (#[trigger] out@[x]).0 < dim by {
                if x < at {
                    assert(out@[x] == before[x]);
                } else if x > at {
                    assert(out@[x] == before[x - 1]);
                }
            }
            assert forall|k: usize| #[trigger]
                row_map(out@).contains_key(k) <==> exists|y: int|
                    0 <= y < n + 1 && names[(#[trigger] row@[y]).0 as int] == k by {
                if row_map(before).contains_key(k) {
                    let y = choose|y: int| 0 <= y < n && names[(#[trigger] row@[y]).0 as int] == k;
                    assert(0 <= y < n + 1 && names[row@[y].0 as int] == k);
                }
                if k == target {
                    assert(0 <= n < n + 1 && names[row@[n as int].0 as int] == k);
                }
                if exists|y: int| 0 <= y < n + 1 && names[(#[trigger] row@[y]).0 as int] == k {
                    let y = choose|y: int|
                        0 <= y < n + 1 && names[(#[trigger] row@[y]).0 as int] == k;
                    if y < n {
                        assert(row_map(before).contains_key(k));
                    }
                }
            }
            assert forall|y: int| 0 <= y < n + 1 implies row_map(out@)[names[(
            #[trigger] row@[y]).0 as int]] == row@[y].1 by {
                if y < n {
                    assert(row@[y].0 < row@[n as int].0);
                    assert(names[row@[y].0 as int] != target);
                    assert(row_map(before)[names[row@[y].0 as int]] == row@[y].1);
                }
            }
        }
        n += 1;
    }
    proof {
        let got = row_map(out@);
        let want = vec_scattered(um, names);
        assert forall|k: usize| got.contains_key(k) <==> want.contains_key(k) by {
            if got.contains_key(k) {
                let y = choose|y: int| 0 <= y < n && names[(#[trigger] row@[y]).0 as int] == k;
                lemma_row_map_at(row@, y);
                assert(vec_sent(um, names, k, row@[y].0));
            }
            if want.contains_key(k) {
                let i = choose|i: usize| #[trigger] vec_sent(um, names, k, i);
                let y = place(row@, i);
                assert(0 <= y < n && names[row@[y].0 as int] == k);
            }
        }
        assert forall|k: usize| got.contains_key(k) implies got[k] == want[k] by {
            let y = choose|y: int| 0 <= y < n && names[(#[trigger] row@[y]).0 as int] == k;
            lemma_row_map_at(row@, y);
            let i = choose|i: usize| #[trigger] vec_sent(um, names, k, i);
            assert(vec_sent(um, names, k, row@[y].0));
            assert(vec_sent(um, names, k, i));
            assert(i == row@[y].0) by {
                if i < row@[y].0 {
                    assert(names[i as int] != names[row@[y].0 as int]);
                } else if row@[y].0 < i {
                    assert(names[row@[y].0 as int] != names[i as int]);
                }
            }
            assert(got[names[row@[y].0 as int]] == row@[y].1);
        }
        assert(got =~= want);
    }
    out
}

/// One value at every position that the index list names within the
/// dimension `dim`.
pub fn fill_vec<T: Clone>(value: &T, list: &Indices, dim: IndexType) -> (out: Vec<(IndexType, T)>)
    requires
        clones_exactly::<T>(),
        list.within(dim),
    ensures
        sorted(out@),
        bounded(out@, dim),
        row_map(out@) == vec_filled(*value, vec_region(list.resolve(dim))),
{
    let ghost names = list.resolve(dim);
    let mut out: Vec<(IndexType, T)> = Vec::new();
    let count = list.count(dim);
    let mut j: usize = 0;
    proof {
        lemma_row_map_empty::<T>();
    }
    while j < count
        invariant
            j <= count,
            count == names.len(),
            names == list.resolve(dim),
            list.within(dim),
            clones_exactly::<T>(),
            sorted(out@),
            bounded(out@, dim),
            forall|k: usize| #[trigger]
                row_map(out@).contains_key(k) <==> exists|y: int| 0 <= y < j && names[y] == k,
            forall|k: usize| row_map(out@).contains_key(k)
                ==> #[trigger] row_map(out@)[k] == *value,
        decreases count - j,
    {
        let target = list.get(j, dim);
        let ghost before = out@;
        proof {
            assert(names[j as int] < dim);
        }
        let _ = upsert(&mut out, target, duplicate(value), Option::<&First<T>>::None);
        proof {
            assert forall|k: usize| #[trigger]
                row_map(out@).contains_key(k)
                    <==> exists|y: int| 0 <= y < j + 1 && names[y] == k by {
                if row_map(before).contains_key(k) {
                    let y = choose|y: int| 0 <= y < j && names[y] == k;
                    assert(0 <= y < j + 1 && names[y] == k);
                }
                if k == target {
                    assert(0 <= j < j + 1 && names[j as int] == k);
                }
                if exists|y: int| 0 <= y < j + 1 && names[y] == k {
                    let y = choose|y: int| 0 <= y < j + 1 && names[y] == k;
                    if y < j {
                        assert(row_map(before).contains_key(k));
                    }
                }
            }
        }
        j += 1;
    }
    proof {
        let want = vec_filled(*value, vec_region(names));
        assert forall|k: usize| row_map(out@).contains_key(k) <==> want.contains_key(k) by {
            if names.contains(k) {
                let y = choose|y: int| 0 <= y < names.len() && names[y] == k;
                assert(0 <= y < j && names[y] == k);
            }
        }
        assert(row_map(out@) =~= want);
    }
    out
}

} // verus!
