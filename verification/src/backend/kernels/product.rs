//! The generalized product of sparse rows, one row at a time.
use vstd::prelude::*;
use crate::algebra::{BinaryOperator, Monoid, Semiring, UnaryOperator};
use crate::backend::grid::{grid_map, grid_wf, rows_of};
use crate::backend::row::{bounded, lemma_row_map_at, lemma_row_map_empty, place, row_map, sorted};
use crate::backend::utils::accum_mult_vec;
use crate::mask::{MatMask, VecMask};
use crate::matrix::Matrix;
use crate::operations::{dot, dot_defined, multipliable, product_map};
use crate::types::{clones_exactly, IndexType};
use crate::vector::Vector;

verus! {

/// A dot product that is defined up to `n` is defined up to every `m`
/// below `n`.
pub proof fn lemma_dot_defined_below<T, S: Semiring<T, Output = T>>(
    a: Map<(usize, usize), T>,
    b: Map<(usize, usize), T>,
    op: S,
    i: usize,
    j: usize,
    m: nat,
    n: nat,
)
    requires
        m <= n,
        dot_defined(a, b, op, i, j, n),
    ensures
        dot_defined(a, b, op, i, j, m),
    decreases n,
{
    if m < n {
        lemma_dot_defined_below(a, b, op, i, j, m, (n - 1) as nat);
    }
}

/// Inner indices at which row `i` of `a` stores nothing add nothing to a
/// dot product.
pub proof fn lemma_dot_skip<T, S: Semiring<T, Output = T>>(
    a: Map<(usize, usize), T>,
    b: Map<(usize, usize), T>,
    op: S,
    i: usize,
    j: usize,
    m: nat,
    n: nat,
)
    requires
        m <= n <= usize::MAX + 1,
        forall|k: usize| m <= k < n ==> !a.contains_key((i, k)),
    ensures
        dot(a, b, op, i, j, n) == dot(a, b, op, i, j, m),
    decreases n,
{
    if m < n {
        lemma_dot_skip(a, b, op, i, j, m, (n - 1) as nat);
        assert(!a.contains_key((i, (n - 1) as usize)));
    }
}

/// The inner index up to which the first `n` pairs of a row reach.
pub open spec fn reach<T>(row: Seq<(usize, T)>, n: int) -> nat {
    if n <= 0 {
        0
    } else {
        (row[n - 1].0 + 1) as nat
    }
}

/// The product of the rows `a` with the rows `b` over the semiring `op`,
/// row by row: every stored value of a row of `a` scales the row of `b`
/// that its column names, and the scaled rows are added up.
pub fn multiply_rows<T: Clone, S: Semiring<T, Output = T>>(
    a: &Vec<Vec<(IndexType, T)>>,
    b: &Vec<Vec<(IndexType, T)>>,
    op: &S,
    inner: IndexType,
    width: IndexType,
) -> (out: Vec<Vec<(IndexType, T)>>)
    requires
        clones_exactly::<T>(),
        grid_wf(rows_of(a@), inner),
        grid_wf(rows_of(b@), width),
        multipliable(grid_map(rows_of(a@)), grid_map(rows_of(b@)), *op, inner),
    ensures
        out@.len() == a@.len(),
        grid_wf(rows_of(out@), width),
        grid_map(rows_of(out@)) == product_map(
            grid_map(rows_of(a@)),
            grid_map(rows_of(b@)),
            *op,
            inner,
        ),
{
    let ghost am = grid_map(rows_of(a@));
    let ghost bm = grid_map(rows_of(b@));
    let mut out: Vec<Vec<(IndexType, T)>> = Vec::new();
    let mut i: usize = 0;
    while i < a.len()
        invariant
            i <= a@.len(),
            out@.len() == i,
            clones_exactly::<T>(),
            am == grid_map(rows_of(a@)),
            bm == grid_map(rows_of(b@)),
            grid_wf(rows_of(a@), inner),
            grid_wf(rows_of(b@), width),
            multipliable(am, bm, *op, inner),
            grid_wf(rows_of(out@), width),
            forall|x: int, j: usize|
                0 <= x < i ==> #[trigger] row_map(rows_of(out@)[x]).get(j) == dot(
                    am,
                    bm,
                    *op,
                    x as usize,
                    j,
                    inner as nat,
                ),
        decreases a@.len() - i,
    {
        let a_row = &a[i];
        let ghost arow = a_row@;
        let mut acc: Vec<(IndexType, T)> = Vec::new();
        let mut n: usize = 0;
        proof {
            lemma_row_map_empty::<T>();
            assert(arow == rows_of(a@)[i as int]);
            assert(sorted(arow) && bounded(arow, inner));
        }
        while n < a_row.len()
            invariant
                n <= arow.len(),
                i < a@.len(),
                arow == a_row@,
                arow == rows_of(a@)[i as int],
                sorted(arow),
                bounded(arow, inner),
                clones_exactly::<T>(),
                am == grid_map(rows_of(a@)),
                bm == grid_map(rows_of(b@)),
                grid_wf(rows_of(b@), width),
                multipliable(am, bm, *op, inner),
                sorted(acc@),
                bounded(acc@, width),
                forall|j: usize| #[trigger]
                    row_map(acc@).get(j) == dot(am, bm, *op, i, j, reach(arow, n as int)),
            decreases arow.len() - n,
        {
            let k: usize = a_row[n].0;
            let ghost before = row_map(acc@);
            let ghost lo = reach(arow, n as int);
            let ghost hi = (k + 1) as nat;
            proof {
                lemma_row_map_at(arow, n as int);
                assert(arow[n as int].0 < inner);
                // nothing is stored in row `i` between the last pair and this one
                assert forall|x: usize| lo <= x < k implies !am.contains_key((i, x)) by {
                    if row_map(arow).contains_key(x) {
                        let p = place(arow, x);
                        if p < n {
                            if n > 0 {
                                assert(arow[p].0 <= arow[n - 1].0) by {
                                    if p < n - 1 {
                                        assert(arow[p].0 < arow[n - 1].0);
                                    }
                                }
                            }
                        } else if p > n {
                            assert(arow[n as int].0 < arow[p].0);
                        }
                    }
                }
                if n > 0 {
                    assert(arow[n - 1].0 < arow[n as int].0);
                }
                assert forall|j: usize| dot(am, bm, *op, i, j, k as nat) == before.get(j) by {
                    lemma_dot_skip(am, bm, *op, i, j, lo, k as nat);
                    assert(row_map(acc@).get(j) == dot(am, bm, *op, i, j, lo));
                }
                assert forall|j: usize| dot_defined(am, bm, *op, i, j, hi) by {
                    assert(dot_defined(am, bm, *op, i, j, inner as nat));
                    lemma_dot_defined_below(am, bm, *op, i, j, hi, inner as nat);
                }
            }
            if k < b.len() {
                let b_row = &b[k];
                proof {
                    let brow = b_row@;
                    assert(brow == rows_of(b@)[k as int]);
                    assert(sorted(brow) && bounded(brow, width));
                    assert forall|x: int| 0 <= x < brow.len() implies op.mult_defined(
                        a_row@[n as int].1,
                        (#[trigger] brow[x]).1,
                    ) by {
                        lemma_row_map_at(brow, x);
                        assert(bm.contains_key((k, brow[x].0)));
                        assert(dot_defined(am, bm, *op, i, brow[x].0, hi));
                    }
                    assert forall|j: usize|
                        before.contains_key(j) && row_map(brow).contains_key(j) implies
                            op.add_defined(
                        before[j],
                        #[trigger] op.product(a_row@[n as int].1, row_map(brow)[j]),
                    ) by {
                        assert(bm.contains_key((k, j)));
                        assert(dot_defined(am, bm, *op, i, j, hi));
                        assert(dot(am, bm, *op, i, j, k as nat) == before.get(j));
                    }
                }
                accum_mult_vec(&mut acc, b_row.as_slice(), &a_row[n].1, op);
            }
            proof {
                assert forall|j: usize| #[trigger]
                    row_map(acc@).get(j) == dot(am, bm, *op, i, j, hi) by {
                    assert(dot(am, bm, *op, i, j, k as nat) == before.get(j));
                    assert(am.contains_key((i, k)) && am[(i, k)] == arow[n as int].1);
                    if k < b@.len() {
                        assert(bm.contains_key((k, j))
                            == row_map(rows_of(b@)[k as int]).contains_key(
                            j,
                        ));
                    } else {
                        assert(!bm.contains_key((k, j)));
                    }
                }
            }
            n += 1;
        }
        let ghost before = rows_of(out@);
        proof {
            let hi = reach(arow, arow.len() as int);
            assert forall|x: usize| hi <= x < inner implies !am.contains_key((i, x)) by {
                if row_map(arow).contains_key(x) {
                    let p = place(arow, x);
                    assert(arow[p].0 <= arow[arow.len() - 1].0) by {
                        if p < arow.len() - 1 {
                            assert(arow[p].0 < arow[arow.len() - 1].0);
                        }
                    }
                }
            }
            if arow.len() > 0 {
                assert(arow[arow.len() - 1].0 < inner);
            }
            assert forall|j: usize| #[trigger]
                row_map(acc@).get(j) == dot(am, bm, *op, i, j, inner as nat) by {
                lemma_dot_skip(am, bm, *op, i, j, hi, inner as nat);
                assert(row_map(acc@).get(j) == dot(am, bm, *op, i, j, hi));
            }
        }
        out.push(acc);
        proof {
            let after = rows_of(out@);
            assert(after =~= before.push(acc@));
            assert forall|x: int| 0 <= x < after.len() implies sorted(#[trigger] after[x])
                && bounded(after[x], width) by {
                if x < i {
                    assert(after[x] == before[x]);
                }
            }
            assert forall|x: int, j: usize| 0 <= x < i + 1 implies #[trigger] row_map(
                after[x],
            ).get(j) == dot(am, bm, *op, x as usize, j, inner as nat) by {
                if x < i {
                    assert(after[x] == before[x]);
                    assert(row_map(before[x]).get(j)
                        == dot(am, bm, *op, x as usize, j, inner as nat));
                } else {
                    assert(row_map(acc@).get(j) == dot(am, bm, *op, i, j, inner as nat));
                }
            }
        }
        i += 1;
    }
    proof {
        let got = grid_map(rows_of(out@));
        let want = product_map(am, bm, *op, inner);
        assert forall|p: (usize, usize)| got.contains_key(p) <==> want.contains_key(p) by {
            if p.0 < out@.len() {
                assert(row_map(rows_of(out@)[p.0 as int]).get(p.1) == dot(
                    am,
                    bm,
                    *op,
                    p.0,
                    p.1,
                    inner as nat,
                ));
            } else {
                assert forall|x: usize| 0 <= x < inner implies !am.contains_key((p.0, x)) by {}
                lemma_dot_skip(am, bm, *op, p.0, p.1, 0, inner as nat);
            }
        }
        assert forall|p: (usize, usize)| got.contains_key(p) implies got[p] == want[p] by {
            assert(row_map(rows_of(out@)[p.0 as int]).get(p.1) == dot(
                am,
                bm,
                *op,
                p.0,
                p.1,
                inner as nat,
            ));
        }
        assert(got =~= want);
    }
    out
}

} // verus!
