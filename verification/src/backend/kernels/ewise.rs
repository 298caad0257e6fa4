//! Element-wise union and intersection, row by row.
use vstd::prelude::*;
use crate::algebra::{BinaryOperator, Monoid, Semiring, UnaryOperator};
use crate::backend::grid::{grid_map, grid_wf, row_at, rows_of};
use crate::backend::kernels::write::lemma_above;
use crate::backend::row::{
    bounded, gap, lemma_gap_absent, lemma_row_insert, lemma_row_map_at, lemma_row_map_empty,
    lemma_row_take_next, place, row_map, sorted,
};
use crate::backend::utils::ewise_or_accum_vec;
use crate::mask::{MatMask, VecMask};
use crate::matrix::Matrix;
use crate::operations::{combinable, intersect_with, union_with};
use crate::types::{clones_exactly, duplicate, IndexType};
use crate::vector::Vector;

verus! {

/// The element-wise intersection of the sorted rows `v1` and `v2`: a
/// two-pointer merge that keeps what both rows store.
pub fn ewise_and_vec<T: Clone, Op: BinaryOperator<T, Output = T>>(
    v1: &Vec<(IndexType, T)>,
    v2: &Vec<(IndexType, T)>,
    bin_op: &Op,
) -> (res: Vec<(IndexType, T)>)
    requires
        clones_exactly::<T>(),
        sorted(v1@),
        sorted(v2@),
        combinable(row_map(v1@), row_map(v2@), *bin_op),
    ensures
        sorted(res@),
        row_map(res@) == intersect_with(row_map(v1@), row_map(v2@), *bin_op),
        forall|limit: usize| bounded(v1@, limit) ==> bounded(res@, limit),
{
    let mut res: Vec<(IndexType, T)> = Vec::new();
    let mut i: usize = 0;
    let mut j: usize = 0;
    proof {
        lemma_row_map_empty::<T>();
        assert(v1@.take(0) =~= Seq::<(usize, T)>::empty());
        assert(v2@.take(0) =~= Seq::<(usize, T)>::empty());
        assert(row_map(res@) =~= intersect_with(
            row_map(v1@.take(0)),
            row_map(v2@.take(0)),
            *bin_op,
        ));
    }
    while i < v1.len() && j < v2.len()
        invariant
            i <= v1@.len(),
            j <= v2@.len(),
            clones_exactly::<T>(),
            sorted(v1@),
            sorted(v2@),
            sorted(res@),
            combinable(row_map(v1@), row_map(v2@), *bin_op),
            forall|a: int| 0 <= a < i && j < v2@.len() ==> (#[trigger] v1@[a]).0 < v2@[j as int].0,
            forall|b: int| 0 <= b < j && i < v1@.len() ==> (#[trigger] v2@[b]).0 < v1@[i as int].0,
            forall|a: int|
                0 <= a < res@.len() && i < v1@.len() ==> (#[trigger] res@[a]).0 < v1@[i as int].0,
            forall|a: int|
                0 <= a < res@.len() && j < v2@.len() ==> (#[trigger] res@[a]).0 < v2@[j as int].0,
            row_map(res@) == intersect_with(
                row_map(v1@.take(i as int)),
                row_map(v2@.take(j as int)),
                *bin_op,
            ),
            // what is left of either row meets nothing that has been read of the other
            forall|k: usize|
                row_map(v1@).contains_key(k) && row_map(v2@).contains_key(k) && !row_map(
                    res@,
                ).contains_key(k) ==> exists|a: int, b: int|
                    i <= a < v1@.len() && j <= b < v2@.len() && (#[trigger] v1@[a]).0 == k && (
                    #[trigger] v2@[b]).0 == k,
            forall|limit: usize| bounded(v1@, limit) ==> bounded(res@, limit),
        decreases (v1@.len() - i) + (v2@.len() - j),
    {
        let ghost before = res@;
        let ghost i0 = i as int;
        let ghost j0 = j as int;
        let k1: usize = v1[i].0;
        let k2: usize = v2[j].0;
        proof {
            lemma_row_take_next(v1@, i0);
            lemma_row_take_next(v2@, j0);
            lemma_row_map_at(v1@, i0);
            lemma_row_map_at(v2@, j0);
            lemma_above(v1@.take(i0), k2);
            lemma_above(v2@.take(j0), k1);
        }
        if k1 == k2 {
            let value = bin_op.op(duplicate(&v1[i].1), duplicate(&v2[j].1));
            proof {
                assert(gap(before, before.len() as int, k1));
                lemma_gap_absent(before, before.len() as int, k1);
                lemma_row_insert(before, before.len() as int, k1, value);
            }
            res.push((k1, value));
            proof {
                assert(res@ =~= before.insert(before.len() as int, (k1, value)));
            }
            i += 1;
            j += 1;
        } else if k1 < k2 {
            i += 1;
        } else {
            j += 1;
        }
        proof {
            assert(row_map(res@) =~= intersect_with(
                row_map(v1@.take(i as int)),
                row_map(v2@.take(j as int)),
                *bin_op,
            ));
            assert forall|a: int| 0 <= a < i && j < v2@.len() implies (#[trigger] v1@[a]).0
                < v2@[j as int].0 by {
                if j > j0 {
                    assert(v2@[j0].0 < v2@[j as int].0);
                }
                if a < i0 {
                    assert(v1@[a].0 < v2@[j0].0);
                }
            }
            assert forall|b: int| 0 <= b < j && i < v1@.len() implies (#[trigger] v2@[b]).0
                < v1@[i as int].0 by {
                if i > i0 {
                    assert(v1@[i0].0 < v1@[i as int].0);
                }
                if b < j0 {
                    assert(v2@[b].0 < v1@[i0].0);
                }
            }
            assert forall|a: int| 0 <= a < res@.len() && i < v1@.len() implies (
            #[trigger] res@[a]).0 < v1@[i as int].0 by {
                if i > i0 {
                    assert(v1@[i0].0 < v1@[i as int].0);
                }
                if a < before.len() {
                    assert(res@[a] == before[a]);
                }
            }
            assert forall|a: int| 0 <= a < res@.len() && j < v2@.len() implies (
            #[trigger] res@[a]).0 < v2@[j as int].0 by {
                if j > j0 {
                    assert(v2@[j0].0 < v2@[j as int].0);
                }
                if a < before.len() {
                    assert(res@[a] == before[a]);
                }
            }
            assert forall|k: usize|
                row_map(v1@).contains_key(k) && row_map(v2@).contains_key(k) && !row_map(
                    res@,
                ).contains_key(k) implies exists|a: int, b: int|
                i <= a < v1@.len() && j <= b < v2@.len() && (#[trigger] v1@[a]).0 == k && (
                #[trigger] v2@[b]).0 == k by {
                assert(!row_map(before).contains_key(k));
                let (a, b) = choose|a: int, b: int|
                    i0 <= a < v1@.len() && j0 <= b < v2@.len() && (#[trigger] v1@[a]).0 == k && (
                    #[trigger] v2@[b]).0 == k;
                if a == i0 && i > i0 {
                    // the key of `v1` that was passed is below what is left of `v2`
                    if b > j0 {
                        assert(v2@[j0].0 < v2@[b].0);
                    }
                }
                if b == j0 && j > j0 {
                    if a > i0 {
                        assert(v1@[i0].0 < v1@[a].0);
                    }
                }
                assert(i <= a && j <= b);
            }
            assert forall|limit: usize| bounded(v1@, limit) implies bounded(res@, limit) by {
                assert(bounded(before, limit));
                assert forall|a: int| 0 <= a < res@.len() implies (#[trigger] res@[a]).0
                    < limit by {
                    if a < before.len() {
                        assert(res@[a] == before[a]);
                    } else {
                        assert(v1@[i0].0 < limit);
                    }
                }
            }
        }
    }
    proof {
        let got = row_map(res@);
        let want = intersect_with(row_map(v1@), row_map(v2@), *bin_op);
        assert forall|k: usize| got.contains_key(k) <==> want.contains_key(k) by {
            if got.contains_key(k) {
                lemma_take_within(v1@, i as int, k);
                lemma_take_within(v2@, j as int, k);
            }
        }
        assert forall|k: usize| got.contains_key(k) implies got[k] == want[k] by {
            lemma_take_within(v1@, i as int, k);
            lemma_take_within(v2@, j as int, k);
        }
        assert(got =~= want);
    }
    res
}

/// What the first `n` pairs of a sorted row store, the row stores.
pub proof fn lemma_take_within<T>(row: Seq<(usize, T)>, n: int, k: usize)
    requires
        sorted(row),
        0 <= n <= row.len(),
        row_map(row.take(n)).contains_key(k),
    ensures
        row_map(row).contains_key(k),
        row_map(row)[k] == row_map(row.take(n))[k],
{
    let part = row.take(n);
    let p = place(part, k);
    assert(row[p].0 == k);
    assert(sorted(part)) by {
        assert forall|a: int, b: int| 0 <= a < b < part.len() implies part[a].0 < part[b].0 by {
            assert(row[a].0 < row[b].0);
        }
    }
    lemma_row_map_at(part, p);
    lemma_row_map_at(row, p);
}

/// The element-wise union of the rows `a` and `b`, row by row.
pub fn union_rows<T: Clone, Op: BinaryOperator<T, Output = T>>(
    a: &Vec<Vec<(IndexType, T)>>,
    b: &Vec<Vec<(IndexType, T)>>,
    op: &Op,
    width: IndexType,
) -> (out: Vec<Vec<(IndexType, T)>>)
    requires
        clones_exactly::<T>(),
        grid_wf(rows_of(a@), width),
        grid_wf(rows_of(b@), width),
        combinable(grid_map(rows_of(a@)), grid_map(rows_of(b@)), *op),
    ensures
        out@.len() <= a@.len() || out@.len() <= b@.len(),
        grid_wf(rows_of(out@), width),
        grid_map(rows_of(out@)) == union_with(grid_map(rows_of(a@)), grid_map(rows_of(b@)), *op),
{
    let height = if a.len() < b.len() {
        b.len()
    } else {
        a.len()
    };
    let empty: Vec<(IndexType, T)> = Vec::new();
    let mut out: Vec<Vec<(IndexType, T)>> = Vec::new();
    let mut r: usize = 0;
    while r < height
        invariant
            r <= height,
            height >= a@.len() && height >= b@.len() && (height == a@.len() || height == b@.len()),
            out@.len() == r,
            empty@.len() == 0,
            clones_exactly::<T>(),
            grid_wf(rows_of(a@), width),
            grid_wf(rows_of(b@), width),
            combinable(grid_map(rows_of(a@)), grid_map(rows_of(b@)), *op),
            grid_wf(rows_of(out@), width),
            forall|x: int|
                0 <= x < r ==> row_map(#[trigger] rows_of(out@)[x]) == union_with(
                    row_map(row_at(rows_of(a@), x)),
                    row_map(row_at(rows_of(b@), x)),
                    *op,
                ),
        decreases height - r,
    {
        let a_row = if r < a.len() {
            &a[r]
        } else {
            &empty
        };
        let b_row = if r < b.len() {
            &b[r]
        } else {
            &empty
        };
        proof {
            lemma_row_map_empty::<T>();
            assert(a_row@ == row_at(rows_of(a@), r as int));
            assert(b_row@ == row_at(rows_of(b@), r as int));
            if r < a@.len() {
                assert(sorted(rows_of(a@)[r as int]) && bounded(rows_of(a@)[r as int], width));
            }
            if r < b@.len() {
                assert(sorted(rows_of(b@)[r as int]) && bounded(rows_of(b@)[r as int], width));
            }
            assert forall|k: usize|
                row_map(a_row@).contains_key(k) && row_map(b_row@).contains_key(
                    k,
                ) implies #[trigger] op.defined(row_map(a_row@)[k], row_map(b_row@)[k]) by {
                assert(r < a@.len() && r < b@.len());
                assert(grid_map(rows_of(a@)).contains_key((r, k)));
                assert(grid_map(rows_of(b@)).contains_key((r, k)));
                assert(op.defined(
                    grid_map(rows_of(a@))[(r, k)],
                    grid_map(rows_of(b@))[(r, k)],
                ));
            }
        }
        let mut row: Vec<(IndexType, T)> = Vec::new();
        ewise_or_accum_vec(&mut row, a_row.as_slice(), b_row.as_slice(), op);
        let ghost before = rows_of(out@);
        out.push(row);
        proof {
            let after = rows_of(out@);
            assert(after =~= before.push(row@));
            assert forall|x: int| 0 <= x < after.len() implies sorted(#[trigger] after[x])
                && bounded(after[x], width) by {
                if x < r {
                    assert(after[x] == before[x]);
                }
            }
            assert forall|x: int| 0 <= x < r + 1 implies row_map(#[trigger] after[x]) == union_with(
                row_map(row_at(rows_of(a@), x)),
                row_map(row_at(rows_of(b@), x)),
                *op,
            ) by {
                if x < r {
                    assert(after[x] == before[x]);
                }
            }
        }
        r += 1;
    }
    proof {
        let got = grid_map(rows_of(out@));
        let want = union_with(grid_map(rows_of(a@)), grid_map(rows_of(b@)), *op);
        lemma_row_map_empty::<T>();
        assert forall|p: (usize, usize)| got.contains_key(p) <==> want.contains_key(p) by {
            if p.0 < out@.len() {
                assert(row_map(rows_of(out@)[p.0 as int]) == union_with(
                    row_map(row_at(rows_of(a@), p.0 as int)),
                    row_map(row_at(rows_of(b@), p.0 as int)),
                    *op,
                ));
            }
        }
        assert forall|p: (usize, usize)| got.contains_key(p) implies got[p] == want[p] by {
            assert(row_map(rows_of(out@)[p.0 as int]) == union_with(
                row_map(row_at(rows_of(a@), p.0 as int)),
                row_map(row_at(rows_of(b@), p.0 as int)),
                *op,
            ));
        }
        assert(got =~= want);
    }
    out
}

/// The element-wise intersection of the rows `a` and `b`, row by row.
pub fn intersect_rows<T: Clone, Op: BinaryOperator<T, Output = T>>(
    a: &Vec<Vec<(IndexType, T)>>,
    b: &Vec<Vec<(IndexType, T)>>,
    op: &Op,
    width: IndexType,
) -> (out: Vec<Vec<(IndexType, T)>>)
    requires
        clones_exactly::<T>(),
        grid_wf(rows_of(a@), width),
        grid_wf(rows_of(b@), width),
        combinable(grid_map(rows_of(a@)), grid_map(rows_of(b@)), *op),
    ensures
        out@.len() <= a@.len() || out@.len() <= b@.len(),
        grid_wf(rows_of(out@), width),
        grid_map(rows_of(out@))
            == intersect_with(grid_map(rows_of(a@)), grid_map(rows_of(b@)), *op),
{
    let height = if a.len() < b.len() {
        a.len()
    } else {
        b.len()
    };
    let empty: Vec<(IndexType, T)> = Vec::new();
    let mut out: Vec<Vec<(IndexType, T)>> = Vec::new();
    let mut r: usize = 0;
    while r < height
        invariant
            r <= height,
            height <= a@.len() && height <= b@.len(),
            out@.len() == r,
            empty@.len() == 0,
            clones_exactly::<T>(),
            grid_wf(rows_of(a@), width),
            grid_wf(rows_of(b@), width),
            combinable(grid_map(rows_of(a@)), grid_map(rows_of(b@)), *op),
            grid_wf(rows_of(out@), width),
            forall|x: int|
                0 <= x < r ==> row_map(#[trigger] rows_of(out@)[x]) == intersect_with(
                    row_map(row_at(rows_of(a@), x)),
                    row_map(row_at(rows_of(b@), x)),
                    *op,
                ),
        decreases height - r,
    {
        let a_row = if r < a.len() {
            &a[r]
        } else {
            &empty
        };
        let b_row = if r < b.len() {
            &b[r]
        } else {
            &empty
        };
        proof {
            lemma_row_map_empty::<T>();
            assert(a_row@ == row_at(rows_of(a@), r as int));
            assert(b_row@ == row_at(rows_of(b@), r as int));
            if r < a@.len() {
                assert(sorted(rows_of(a@)[r as int]) && bounded(rows_of(a@)[r as int], width));
            }
            if r < b@.len() {
                assert(sorted(rows_of(b@)[r as int]) && bounded(rows_of(b@)[r as int], width));
            }
            assert forall|k: usize|
                row_map(a_row@).contains_key(k) && row_map(b_row@).contains_key(
                    k,
                ) implies #[trigger] op.defined(row_map(a_row@)[k], row_map(b_row@)[k]) by {
                assert(r < a@.len() && r < b@.len());
                assert(grid_map(rows_of(a@)).contains_key((r, k)));
                assert(grid_map(rows_of(b@)).contains_key((r, k)));
                assert(op.defined(
                    grid_map(rows_of(a@))[(r, k)],
                    grid_map(rows_of(b@))[(r, k)],
                ));
            }
        }
        let row = ewise_and_vec(a_row, b_row, op);
        let ghost before = rows_of(out@);
        out.push(row);
        proof {
            let after = rows_of(out@);
            assert(after =~= before.push(row@));
            assert forall|x: int| 0 <= x < after.len() implies sorted(#[trigger] after[x])
                && bounded(after[x], width) by {
                if x < r {
                    assert(after[x] == before[x]);
                }
            }
            assert forall|x: int| 0 <= x < r + 1 implies
                row_map(#[trigger] after[x]) == intersect_with(
                row_map(row_at(rows_of(a@), x)),
                row_map(row_at(rows_of(b@), x)),
                *op,
            ) by {
                if x < r {
                    assert(after[x] == before[x]);
                }
            }
        }
        r += 1;
    }
    proof {
        let got = grid_map(rows_of(out@));
        let want = intersect_with(grid_map(rows_of(a@)), grid_map(rows_of(b@)), *op);
        lemma_row_map_empty::<T>();
        assert forall|p: (usize, usize)| got.contains_key(p) <==> want.contains_key(p) by {
            if p.0 < out@.len() {
                assert(row_map(rows_of(out@)[p.0 as int]) == intersect_with(
                    row_map(row_at(rows_of(a@), p.0 as int)),
                    row_map(row_at(rows_of(b@), p.0 as int)),
                    *op,
                ));
            }
        }
        assert forall|p: (usize, usize)| got.contains_key(p) implies got[p] == want[p] by {
            assert(row_map(rows_of(out@)[p.0 as int]) == intersect_with(
                row_map(row_at(rows_of(a@), p.0 as int)),
                row_map(row_at(rows_of(b@), p.0 as int)),
                *op,
            ));
        }
        assert(got =~= want);
    }
    out
}

} // verus!
