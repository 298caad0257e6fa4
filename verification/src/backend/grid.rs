//! Row-major storage: a sequence of sparse rows, and the map from position
//! to value that it stands for.
use vstd::prelude::*;
use vstd::relations::injective_on;
use vstd::set_lib::{lemma_map_size, lemma_set_disjoint_lens};
use crate::algebra::BinaryOperator;
use crate::backend::row::{
    bounded, lemma_row_map_at, lemma_row_map_empty, lemma_row_map_len, place, row_map, sorted,
};
use crate::operations::{accumulable, assigned};

verus! {

/// The rows of a matrix as sequences of pairs.
pub open spec fn rows_of<T>(mat: Seq<Vec<(usize, T)>>) -> Seq<Seq<(usize, T)>> {
    Seq::new(mat.len(), |r: int| mat[r]@)
}

/// Every row is sorted and holds columns below `ncols` only.
pub open spec fn grid_wf<T>(rows: Seq<Seq<(usize, T)>>, ncols: usize) -> bool {
    forall|r: int| 0 <= r < rows.len() ==> sorted(#[trigger] rows[r]) && bounded(rows[r], ncols)
}

/// The number of pairs in all rows together.
pub open spec fn total<T>(rows: Seq<Seq<(usize, T)>>) -> nat
    decreases rows.len(),
{
    if rows.len() == 0 {
        0
    } else {
        total(rows.drop_last()) + rows.last().len()
    }
}

/// The map from position to value that the rows stand for.
pub open spec fn grid_map<T>(rows: Seq<Seq<(usize, T)>>) -> Map<(usize, usize), T> {
    Map::new(
        |p: (usize, usize)| p.0 < rows.len() && row_map(rows[p.0 as int]).contains_key(p.1),
        |p: (usize, usize)| row_map(rows[p.0 as int])[p.1],
    )
}

/// Rows without pairs stand for the empty map.
pub proof fn lemma_grid_empty<T>(rows: Seq<Seq<(usize, T)>>)
    requires
        forall|r: int| 0 <= r < rows.len() ==> (#[trigger] rows[r]).len() == 0,
    ensures
        total(rows) == 0,
        grid_map(rows) =~= Map::<(usize, usize), T>::empty(),
        forall|ncols: usize| grid_wf(rows, ncols),
    decreases rows.len(),
{
    if rows.len() > 0 {
        lemma_grid_empty(rows.drop_last());
    }
    assert forall|p: (usize, usize)| !grid_map(rows).contains_key(p) by {
        if p.0 < rows.len() && row_map(rows[p.0 as int]).contains_key(p.1) {
            let i = place(rows[p.0 as int], p.1);
            assert(0 <= i < rows[p.0 as int].len());
        }
    }
}

/// An empty row at the end changes neither the count nor the map.
pub proof fn lemma_grid_push_empty<T>(rows: Seq<Seq<(usize, T)>>)
    ensures
        total(rows.push(Seq::empty())) == total(rows),
        grid_map(rows.push(Seq::empty())) =~= grid_map(rows),
{
    let next = rows.push(Seq::<(usize, T)>::empty());
    assert(next.drop_last() =~= rows);
    assert forall|p: (usize, usize)| grid_map(next).contains_key(p) <==> grid_map(
        rows,
    ).contains_key(p) by {
        if p.0 == rows.len() && row_map(next[p.0 as int]).contains_key(p.1) {
            let i = place(next[p.0 as int], p.1);
            assert(0 <= i < next[p.0 as int].len());
        }
        if p.0 < rows.len() {
            assert(next[p.0 as int] == rows[p.0 as int]);
        }
    }
    assert forall|p: (usize, usize)| grid_map(next).contains_key(p) implies grid_map(next)[p]
        == grid_map(rows)[p] by {
        assert(next[p.0 as int] == rows[p.0 as int]);
    }
}

/// Replacing one row changes the count by the difference of the lengths.
pub proof fn lemma_total_update<T>(rows: Seq<Seq<(usize, T)>>, r: int, row: Seq<(usize, T)>)
    requires
        0 <= r < rows.len(),
    ensures
        total(rows.update(r, row)) + rows[r].len() == total(rows) + row.len(),
    decreases rows.len(),
{
    let next = rows.update(r, row);
    if r == rows.len() - 1 {
        assert(next.drop_last() =~= rows.drop_last());
    } else {
        assert(next.drop_last() =~= rows.drop_last().update(r, row));
        lemma_total_update(rows.drop_last(), r, row);
    }
}

/// Replacing row `r` changes the map on the positions of that row only,
/// where it then holds what the new row stores.
pub proof fn lemma_grid_update<T>(rows: Seq<Seq<(usize, T)>>, r: usize, row: Seq<(usize, T)>)
    requires
        r < rows.len(),
    ensures
        forall|p: (usize, usize)|
            p.0 != r ==> (#[trigger] grid_map(rows.update(r as int, row)).contains_key(p)
                <==> grid_map(rows).contains_key(p)),
        forall|p: (usize, usize)|
            p.0 != r && grid_map(rows).contains_key(p) ==> #[trigger] grid_map(
                rows.update(r as int, row),
            )[p] == grid_map(rows)[p],
        forall|c: usize| #[trigger]
            grid_map(rows.update(r as int, row)).contains_key((r, c)) <==> row_map(
                row,
            ).contains_key(c),
        forall|c: usize|
            row_map(row).contains_key(c) ==> #[trigger] grid_map(rows.update(r as int, row))[(
                r,
                c,
            )] == row_map(row)[c],
{
    let next = rows.update(r as int, row);
    assert forall|p: (usize, usize)| p.0 != r implies (#[trigger] grid_map(next).contains_key(p)
        <==> grid_map(rows).contains_key(p)) by {
        if p.0 < rows.len() {
            assert(next[p.0 as int] == rows[p.0 as int]);
        }
    }
    assert forall|p: (usize, usize)|
        p.0 != r && grid_map(rows).contains_key(p) implies #[trigger] grid_map(next)[p]
        == grid_map(rows)[p] by {
        assert(next[p.0 as int] == rows[p.0 as int]);
    }
}

/// The positions that row number `r` contributes.
pub open spec fn row_positions<T>(row: Seq<(usize, T)>, r: usize) -> Set<(usize, usize)> {
    row_map(row).dom().map(|c: usize| (r, c))
}

/// Rows that are sorted store as many positions as they have pairs.
pub proof fn lemma_grid_len<T>(rows: Seq<Seq<(usize, T)>>)
    requires
        rows.len() <= usize::MAX,
        forall|r: int| 0 <= r < rows.len() ==> sorted(#[trigger] rows[r]),
    ensures
        grid_map(rows).dom().finite(),
        grid_map(rows).dom().len() == total(rows),
    decreases rows.len(),
{
    if rows.len() == 0 {
        assert(grid_map(rows).dom() =~= Set::<(usize, usize)>::empty());
    } else {
        let rest = rows.drop_last();
        let r = (rows.len() - 1) as usize;
        let last = rows.last();
        assert forall|i: int| 0 <= i < rest.len() implies sorted(#[trigger] rest[i]) by {
            assert(rest[i] == rows[i]);
        }
        lemma_grid_len(rest);
        lemma_row_map_len(last);
        let f = |c: usize| (r, c);
        let added = row_positions(last, r);
        assert(injective_on(f, row_map(last).dom()));
        lemma_map_size(row_map(last).dom(), added, f);
        assert forall|p: (usize, usize)| grid_map(rows).dom().contains(p) <==> (grid_map(
            rest,
        ).dom() + added).contains(p) by {
            if p.0 < rest.len() {
                assert(rest[p.0 as int] == rows[p.0 as int]);
            }
            if added.contains(p) {
                let c = choose|c: usize| row_map(last).dom().contains(c) && p == f(c);
                assert(p == (r, c));
            }
            if p.0 == r && row_map(last).contains_key(p.1) {
                assert(row_map(last).dom().contains(p.1) && p == f(p.1));
            }
        }
        assert(grid_map(rows).dom() =~= grid_map(rest).dom() + added);
        assert(grid_map(rest).dom().disjoint(added)) by {
            assert forall|p: (usize, usize)|
                !(grid_map(rest).dom().contains(p) && added.contains(p)) by {
                if added.contains(p) {
                    let c = choose|c: usize| row_map(last).dom().contains(c) && p == f(c);
                    assert(p.0 == r);
                }
            }
        }
        lemma_set_disjoint_lens(grid_map(rest).dom(), added);
    }
}

/// `copy` has the columns of `row`, each with a clone of its value.
pub open spec fn copy_of<T: Clone>(row: Seq<(usize, T)>, copy: Seq<(usize, T)>) -> bool {
    &&& copy.len() == row.len()
    &&& forall|i: int|
        0 <= i < row.len() ==> (#[trigger] copy[i]).0 == row[i].0 && cloned(row[i].1, copy[i].1)
}

/// Rows copied one by one are as well formed as the rows they come from,
/// count as many pairs, and store clones at the same positions.
pub proof fn lemma_copy<T: Clone>(
    rows: Seq<Seq<(usize, T)>>,
    copy: Seq<Seq<(usize, T)>>,
    ncols: usize,
)
    requires
        grid_wf(rows, ncols),
        copy.len() == rows.len(),
        forall|r: int| 0 <= r < rows.len() ==> copy_of(rows[r], #[trigger] copy[r]),
    ensures
        grid_wf(copy, ncols),
        total(copy) == total(rows),
        grid_map(copy).dom() =~= grid_map(rows).dom(),
        forall|p: (usize, usize)| #[trigger]
            grid_map(rows).contains_key(p) ==> cloned(grid_map(rows)[p], grid_map(copy)[p]),
    decreases rows.len(),
{
    assert forall|r: int| 0 <= r < copy.len() implies sorted(#[trigger] copy[r]) && bounded(
        copy[r],
        ncols,
    ) by {
        assert(copy_of(rows[r], copy[r]));
        assert(sorted(rows[r]) && bounded(rows[r], ncols));
        assert forall|a: int, b: int| 0 <= a < b < copy[r].len() implies copy[r][a].0
            < copy[r][b].0 by {
            assert(rows[r][a].0 < rows[r][b].0);
        }
        assert forall|a: int| 0 <= a < copy[r].len() implies (#[trigger] copy[r][a]).0
            < ncols by {
            assert(rows[r][a].0 < ncols);
        }
    }
    if rows.len() > 0 {
        assert forall|r: int| 0 <= r < rows.drop_last().len() implies copy_of(
            rows.drop_last()[r],
            #[trigger] copy.drop_last()[r],
        ) by {
            assert(copy_of(rows[r], copy[r]));
        }
        assert(grid_wf(rows.drop_last(), ncols)) by {
            assert forall|r: int| 0 <= r < rows.drop_last().len() implies sorted(
                #[trigger] rows.drop_last()[r],
            ) && bounded(rows.drop_last()[r], ncols) by {
                assert(rows.drop_last()[r] == rows[r]);
            }
        }
        lemma_copy(rows.drop_last(), copy.drop_last(), ncols);
        assert(copy_of(rows.last(), copy.last()));
    }
    assert forall|p: (usize, usize)| grid_map(copy).contains_key(p) <==> grid_map(
        rows,
    ).contains_key(p) by {
        if p.0 < rows.len() {
            let a = rows[p.0 as int];
            let b = copy[p.0 as int];
            assert(copy_of(a, b));
            if row_map(a).contains_key(p.1) {
                let i = place(a, p.1);
                assert(b[i].0 == p.1);
            }
            if row_map(b).contains_key(p.1) {
                let i = place(b, p.1);
                assert(a[i].0 == p.1);
            }
        }
    }
    assert forall|p: (usize, usize)| #[trigger] grid_map(rows).contains_key(p) implies cloned(
        grid_map(rows)[p],
        grid_map(copy)[p],
    ) by {
        let a = rows[p.0 as int];
        let b = copy[p.0 as int];
        assert(copy_of(a, b));
        assert(sorted(a) && sorted(b));
        let i = place(a, p.1);
        lemma_row_map_at(a, i);
        assert(b[i].0 == p.1);
        lemma_row_map_at(b, i);
    }
}

/// Column `c` is among the first `j` pairs of `row`.
pub open spec fn among<T>(row: Seq<(usize, T)>, j: int, c: usize) -> bool {
    exists|i: int| 0 <= i < j && i < row.len() && (#[trigger] row[i]).0 == c
}

/// `rs`, `cs` and `vs` list, in row-major order and with a clone of each
/// value, what the rows before row `r` store and what the first `j` pairs
/// of row `r` store.
pub open spec fn listed<T: Clone>(
    rs: Seq<usize>,
    cs: Seq<usize>,
    vs: Seq<T>,
    rows: Seq<Seq<(usize, T)>>,
    r: int,
    j: int,
) -> bool {
    &&& rs.len() == cs.len()
    &&& rs.len() == vs.len()
    &&& forall|a: int, b: int|
        0 <= a < b < rs.len() ==> rs[a] < rs[b] || (rs[a] == rs[b] && cs[a] < cs[b])
    &&& forall|a: int|
        0 <= a < rs.len() ==> {
            &&& (#[trigger] rs[a] < r || (rs[a] == r && among(rows[r], j, cs[a])))
            &&& grid_map(rows).contains_key((rs[a], cs[a]))
            &&& cloned(grid_map(rows)[(rs[a], cs[a])], vs[a])
        }
    &&& forall|p: (usize, usize)|
        grid_map(rows).contains_key(p) && (p.0 < r || (p.0 == r && among(rows[r], j, p.1)))
            ==> exists|a: int|
            0 <= a < rs.len() && (#[trigger] rs[a], cs[a]) == p
}

/// Listing pair `j` of row `r` after what came before it.
pub proof fn lemma_listed_step<T: Clone>(
    rs: Seq<usize>,
    cs: Seq<usize>,
    vs: Seq<T>,
    rows: Seq<Seq<(usize, T)>>,
    r: int,
    j: int,
    v: T,
)
    requires
        0 <= r < rows.len() <= usize::MAX,
        0 <= j < rows[r].len(),
        sorted(rows[r]),
        listed(rs, cs, vs, rows, r, j),
        cloned(rows[r][j].1, v),
    ensures
        listed(rs.push(r as usize), cs.push(rows[r][j].0), vs.push(v), rows, r, j + 1),
{
    let c = rows[r][j].0;
    let rs2 = rs.push(r as usize);
    let cs2 = cs.push(c);
    let vs2 = vs.push(v);
    let n = rs.len() as int;
    lemma_row_map_at(rows[r], j);
    assert(grid_map(rows).contains_key((r as usize, c)));
    assert forall|a: int, b: int| 0 <= a < b < rs2.len() implies rs2[a] < rs2[b] || (rs2[a]
        == rs2[b] && cs2[a] < cs2[b]) by {
        if b == n {
            assert(rs[a] < r || (rs[a] == r && among(rows[r], j, cs[a])));
            if rs[a] == r {
                let i = choose|i: int| 0 <= i < j && i < rows[r].len() && rows[r][i].0 == cs[a];
                assert(rows[r][i].0 < rows[r][j].0);
            }
        }
    }
    assert forall|a: int| 0 <= a < rs2.len() implies {
        &&& (#[trigger] rs2[a] < r || (rs2[a] == r && among(rows[r], j + 1, cs2[a])))
        &&& grid_map(rows).contains_key((rs2[a], cs2[a]))
        &&& cloned(grid_map(rows)[(rs2[a], cs2[a])], vs2[a])
    } by {
        if a < n {
            assert(rs[a] < r || (rs[a] == r && among(rows[r], j, cs[a])));
            if rs[a] == r {
                let i = choose|i: int| 0 <= i < j && i < rows[r].len() && rows[r][i].0 == cs[a];
                assert(0 <= i < j + 1 && i < rows[r].len() && rows[r][i].0 == cs2[a]);
            }
        } else {
            assert(0 <= j < j + 1 && j < rows[r].len() && rows[r][j].0 == cs2[a]);
        }
    }
    assert forall|p: (usize, usize)|
        grid_map(rows).contains_key(p) && (p.0 < r || (p.0 == r
            && among(rows[r], j + 1, p.1))) implies exists|a: int|
        0 <= a < rs2.len() && (#[trigger] rs2[a], cs2[a]) == p by {
        if p.0 == r {
            let i = choose|i: int| 0 <= i < j + 1 && i < rows[r].len() && rows[r][i].0 == p.1;
            if i == j {
                assert((rs2[n], cs2[n]) == p);
            } else {
                assert(0 <= i < j && i < rows[r].len() && rows[r][i].0 == p.1);
                let a = choose|a: int| 0 <= a < rs.len() && (#[trigger] rs[a], cs[a]) == p;
                assert((rs2[a], cs2[a]) == p);
            }
        } else {
            let a = choose|a: int| 0 <= a < rs.len() && (#[trigger] rs[a], cs[a]) == p;
            assert((rs2[a], cs2[a]) == p);
        }
    }
}

/// Once all pairs of row `r` are listed, what comes before row `r + 1` is.
pub proof fn lemma_listed_row<T: Clone>(
    rs: Seq<usize>,
    cs: Seq<usize>,
    vs: Seq<T>,
    rows: Seq<Seq<(usize, T)>>,
    r: int,
)
    requires
        0 <= r < rows.len(),
        listed(rs, cs, vs, rows, r, rows[r].len() as int),
    ensures
        listed(rs, cs, vs, rows, r + 1, 0),
{
    assert forall|a: int| 0 <= a < rs.len() implies {
        &&& (#[trigger] rs[a] < r + 1 || (rs[a] == r + 1 && among(rows[r + 1], 0, cs[a])))
        &&& grid_map(rows).contains_key((rs[a], cs[a]))
        &&& cloned(grid_map(rows)[(rs[a], cs[a])], vs[a])
    } by {
        assert(rs[a] < r || (rs[a] == r && among(rows[r], rows[r].len() as int, cs[a])));
    }
    assert forall|p: (usize, usize)|
        grid_map(rows).contains_key(p) && (p.0 < r + 1 || (p.0 == r + 1
            && among(rows[r + 1], 0, p.1))) implies exists|a: int|
        0 <= a < rs.len() && (#[trigger] rs[a], cs[a]) == p by {
        if p.0 == r {
            let i = place(rows[r], p.1);
            assert(0 <= i < rows[r].len() && rows[r][i].0 == p.1);
            assert(among(rows[r], rows[r].len() as int, p.1));
        }
    }
}

/// Once every row is listed, the lists hold what the rows store.
pub proof fn lemma_listed_all<T: Clone>(
    rs: Seq<usize>,
    cs: Seq<usize>,
    vs: Seq<T>,
    rows: Seq<Seq<(usize, T)>>,
)
    requires
        listed(rs, cs, vs, rows, rows.len() as int, 0),
    ensures
        crate::matrix::triples_of(rs, cs, vs, grid_map(rows)),
{
    assert forall|a: int| 0 <= a < rs.len() implies grid_map(rows).contains_key(
        (#[trigger] rs[a], cs[a]),
    ) && cloned(grid_map(rows)[(rs[a], cs[a])], vs[a]) by {
        assert(rs[a] < rows.len() || (rs[a] == rows.len()
            && among(rows[rows.len() as int], 0, cs[a])));
    }
}

/// Row `r` of the rows, or the empty row where they have no such row.
pub open spec fn row_at<T>(rows: Seq<Seq<(usize, T)>>, r: int) -> Seq<(usize, T)> {
    if 0 <= r < rows.len() {
        rows[r]
    } else {
        Seq::empty()
    }
}

/// The columns of row `r` that lie in a set of positions.
pub open spec fn row_slice(positions: Set<(usize, usize)>, r: usize) -> Set<usize> {
    Set::new(|k: usize| positions.contains((r, k)))
}

/// Rows written one by one are the rows of the matrix written as a whole:
/// what the first `n` rows of the output store is what the whole output
/// stores in those rows.
pub proof fn lemma_written_rows<T, Acc: BinaryOperator<T, Output = T>>(
    c: Seq<Seq<(usize, T)>>,
    t: Seq<Seq<(usize, T)>>,
    fresh: Seq<Seq<(usize, T)>>,
    admitted: Set<(usize, usize)>,
    region: Set<(usize, usize)>,
    accum: Option<Acc>,
    replace: bool,
)
    requires
        fresh.len() <= usize::MAX,
        forall|r: int|
            0 <= r < fresh.len() ==> row_map(#[trigger] fresh[r]) == assigned(
                row_map(row_at(c, r)),
                row_map(row_at(t, r)),
                row_slice(admitted, r as usize),
                row_slice(region, r as usize),
                accum,
                replace,
            ),
    ensures
        grid_map(fresh) =~= assigned(
            grid_map(c),
            grid_map(t),
            admitted,
            region,
            accum,
            replace,
        ).restrict(
            Set::new(|p: (usize, usize)| p.0 < fresh.len()),
        ),
        fresh.len() >= c.len() && fresh.len() >= t.len() ==> grid_map(fresh) =~= assigned(
            grid_map(c),
            grid_map(t),
            admitted,
            region,
            accum,
            replace,
        ),
{
    let whole = assigned(grid_map(c), grid_map(t), admitted, region, accum, replace);
    let part = whole.restrict(Set::new(|p: (usize, usize)| p.0 < fresh.len()));
    lemma_row_map_empty::<T>();
    assert forall|p: (usize, usize)| #[trigger] grid_map(fresh).contains_key(p)
        <==> part.contains_key(
        p,
    ) by {
        if p.0 < fresh.len() {
            let r = p.0 as int;
            assert(row_map(fresh[r]) == assigned(
                row_map(row_at(c, r)),
                row_map(row_at(t, r)),
                row_slice(admitted, r as usize),
                row_slice(region, r as usize),
                accum,
                replace,
            ));
        }
    }
    assert forall|p: (usize, usize)| #[trigger] grid_map(fresh).contains_key(p) implies grid_map(
        fresh,
    )[p] == part[p] by {
        let r = p.0 as int;
        assert(row_map(fresh[r]) == assigned(
            row_map(row_at(c, r)),
            row_map(row_at(t, r)),
            row_slice(admitted, r as usize),
            row_slice(region, r as usize),
            accum,
            replace,
        ));
    }
    if fresh.len() >= c.len() && fresh.len() >= t.len() {
        assert(part =~= whole);
    }
}

/// Where writing the whole matrix applies the accumulator, writing row `r`
/// does.
pub proof fn lemma_accumulable_row<T, Acc: BinaryOperator<T, Output = T>>(
    c: Seq<Seq<(usize, T)>>,
    t: Seq<Seq<(usize, T)>>,
    admitted: Set<(usize, usize)>,
    accum: Option<Acc>,
    r: usize,
)
    requires
        accumulable(grid_map(c), grid_map(t), admitted, accum),
    ensures
        accumulable(
            row_map(row_at(c, r as int)),
            row_map(row_at(t, r as int)),
            row_slice(admitted, r),
            accum,
        ),
{
    lemma_row_map_empty::<T>();
    if accum is Some {
        let op = accum->Some_0;
        assert forall|k: usize|
            row_slice(admitted, r).contains(k) && row_map(row_at(c, r as int)).contains_key(k)
                && row_map(row_at(t, r as int)).contains_key(k) implies #[trigger] op.defined(
            row_map(row_at(c, r as int))[k],
            row_map(row_at(t, r as int))[k],
        ) by {
            assert(grid_map(c).contains_key((r, k)));
            assert(grid_map(t).contains_key((r, k)));
            assert(op.defined(grid_map(c)[(r, k)], grid_map(t)[(r, k)]));
        }
    }
}

} // verus!
