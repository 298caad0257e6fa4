//! The Kronecker product of sparse rows.
use vstd::prelude::*;
use crate::algebra::{BinaryOperator, Monoid, Semiring, UnaryOperator};
use crate::backend::grid::{grid_map, grid_wf, row_at, rows_of};
use crate::backend::kernels::product::reach;
use crate::backend::row::{
    bounded, gap, lemma_gap_absent, lemma_row_insert, lemma_row_map_at, lemma_row_map_empty, place,
    row_map, sorted,
};
use crate::mask::{MatMask, VecMask};
use crate::matrix::Matrix;
use crate::operations::{kronecker, pairable, written};
use crate::types::{clones_exactly, duplicate, IndexType};
use crate::vector::Vector;

verus! {

/// A number written as a multiple of `d` and a rest below `d` has that
/// multiple for quotient and that rest for remainder.
pub proof fn lemma_join(q: int, r: int, d: int)
    requires
        0 <= r < d,
        0 <= q,
    ensures
        (q * d + r) / d == q,
        (q * d + r) % d == r,
        q * d + r >= 0,
{
    vstd::arithmetic::div_mod::lemma_fundamental_div_mod_converse(q * d + r, d, q, r);
    assert(q * d >= 0) by (nonlinear_arith)
        requires
            q >= 0,
            d > 0,
    ;
}

/// Every number is its quotient by `d` times `d` and its remainder.
pub proof fn lemma_split(k: int, d: int)
    requires
        0 <= k,
        0 < d,
    ensures
        k == (k / d) * d + k % d,
        0 <= k % d < d,
        0 <= k / d,
{
    vstd::arithmetic::div_mod::lemma_fundamental_div_mod(k, d);
    vstd::arithmetic::div_mod::lemma_mod_bound(k, d);
    vstd::arithmetic::div_mod::lemma_div_pos_is_pos(k, d);
    assert(d * (k / d) == (k / d) * d) by (nonlinear_arith);
}

/// Numbers written in that way compare as the pairs of multiple and rest
/// do, the multiple first.
pub proof fn lemma_lex(q1: int, r1: int, q2: int, r2: int, d: int)
    requires
        0 <= r1 < d,
        0 <= r2 <= d,
    ensures
        q1 * d + r1 < q2 * d + r2 <==> q1 < q2 || (q1 == q2 && r1 < r2),
{
    if q1 < q2 {
        assert(q1 * d + d <= q2 * d) by (nonlinear_arith)
            requires
                q1 < q2,
                d > 0,
        ;
    } else if q1 > q2 {
        assert(q2 * d + d <= q1 * d) by (nonlinear_arith)
            requires
                q2 < q1,
                d > 0,
        ;
    }
}

/// The Kronecker product of two sorted rows: every value of `a` with every
/// value of `b`, the pair at columns `ja` and `jb` at column
/// `ja * b_cols + jb`.
pub fn kron_vec<T: Clone, Op: BinaryOperator<T, Output = T>>(
    a: &Vec<(IndexType, T)>,
    b: &Vec<(IndexType, T)>,
    op: &Op,
    a_cols: IndexType,
    b_cols: IndexType,
) -> (res: Vec<(IndexType, T)>)
    requires
        clones_exactly::<T>(),
        sorted(a@),
        sorted(b@),
        bounded(a@, a_cols),
        bounded(b@, b_cols),
        a_cols * b_cols <= usize::MAX,
        pairable(row_map(a@), row_map(b@), *op),
    ensures
        sorted(res@),
        forall|x: int| 0 <= x < res@.len() ==> (#[trigger] res@[x]).0 < a_cols * b_cols,
        forall|k: usize| #[trigger]
            row_map(res@).contains_key(k) <==> b_cols > 0 && row_map(a@).contains_key(k / b_cols)
                && row_map(b@).contains_key(k % b_cols),
        forall|k: usize|
            row_map(res@).contains_key(k) ==> #[trigger] row_map(res@)[k] == op.apply(
                row_map(a@)[k / b_cols],
                row_map(b@)[k % b_cols],
            ),
{
    let mut res: Vec<(IndexType, T)> = Vec::new();
    if b_cols == 0 {
        proof {
            lemma_row_map_empty::<T>();
        }
        return res;
    }
    let ghost d = b_cols as int;
    let mut i: usize = 0;
    proof {
        lemma_row_map_empty::<T>();
        // nothing is stored before the first block
        assert forall|k: usize| #[trigger]
            row_map(res@).contains_key(k) <==> row_map(a@).contains_key(k / b_cols) && row_map(
                b@,
            ).contains_key(k % b_cols) && (0 < a@.len() ==> k < a@[0].0 * d) by {
            if row_map(a@).contains_key(k / b_cols) {
                let p = place(a@, k / b_cols);
                lemma_split(k as int, d);
                lemma_lex((k / b_cols) as int, (k % b_cols) as int, a@[0].0 as int, 0, d);
                if p > 0 {
                    assert(a@[0].0 < a@[p].0);
                }
            }
        }
    }
    while i < a.len()
        invariant
            i <= a@.len(),
            d == b_cols,
            d > 0,
            clones_exactly::<T>(),
            sorted(a@),
            sorted(b@),
            bounded(a@, a_cols),
            bounded(b@, b_cols),
            a_cols * b_cols <= usize::MAX,
            pairable(row_map(a@), row_map(b@), *op),
            sorted(res@),
            forall|x: int| 0 <= x < res@.len() ==> (#[trigger] res@[x]).0 < a_cols * b_cols,
            forall|x: int|
                0 <= x < res@.len() && i < a@.len() ==> (#[trigger] res@[x]).0 < a@[i as int].0 * d,
            forall|k: usize| #[trigger]
                row_map(res@).contains_key(k) <==> row_map(a@).contains_key(k / b_cols)
                    && row_map(b@).contains_key(k % b_cols) && (i < a@.len() ==> k
                    < a@[i as int].0 * d),
            forall|k: usize|
                row_map(res@).contains_key(k) ==> #[trigger] row_map(res@)[k] == op.apply(
                    row_map(a@)[k / b_cols],
                    row_map(b@)[k % b_cols],
                ),
        decreases a@.len() - i,
    {
        let ka: usize = a[i].0;
        let ghost q = ka as int;
        let mut j: usize = 0;
        proof {
            lemma_row_map_at(a@, i as int);
            assert(a@[i as int].0 < a_cols);
            assert(q * d + d <= a_cols * d) by (nonlinear_arith)
                requires
                    q < a_cols,
                    d > 0,
            ;
            // nothing is stored between the start of this block and its first pair
            assert forall|k: usize| #[trigger]
                row_map(res@).contains_key(k) <==> row_map(a@).contains_key(k / b_cols)
                    && row_map(b@).contains_key(k % b_cols) && k < q * d + reach_col(b@, 0, d) by {
                lemma_split(k as int, d);
                lemma_lex((k / b_cols) as int, (k % b_cols) as int, q, reach_col(b@, 0, d), d);
                lemma_lex((k / b_cols) as int, (k % b_cols) as int, q, 0, d);
                if row_map(b@).contains_key(k % b_cols) && k / b_cols == ka {
                    let p = place(b@, k % b_cols);
                    if p > 0 {
                        assert(b@[0].0 < b@[p].0);
                    }
                }
            }
        }
        while j < b.len()
            invariant
                j <= b@.len(),
                i < a@.len(),
                ka == a@[i as int].0,
                q == ka,
                d == b_cols,
                d > 0,
                clones_exactly::<T>(),
                sorted(a@),
                sorted(b@),
                bounded(a@, a_cols),
                bounded(b@, b_cols),
                q * d + d <= a_cols * d,
                a_cols * b_cols <= usize::MAX,
                pairable(row_map(a@), row_map(b@), *op),
                row_map(a@).contains_key(ka),
                row_map(a@)[ka] == a@[i as int].1,
                sorted(res@),
                forall|x: int| 0 <= x < res@.len() ==> (#[trigger] res@[x]).0 < a_cols * b_cols,
                forall|x: int|
                    0 <= x < res@.len() ==> (#[trigger] res@[x]).0 < q * d + reach_col(
                        b@,
                        j as int,
                        d,
                    ),
                forall|k: usize| #[trigger]
                    row_map(res@).contains_key(k) <==> row_map(a@).contains_key(k / b_cols)
                        && row_map(b@).contains_key(k % b_cols) && k < q * d + reach_col(
                        b@,
                        j as int,
                        d,
                    ),
                forall|k: usize|
                    row_map(res@).contains_key(k) ==> #[trigger] row_map(res@)[k] == op.apply(
                        row_map(a@)[k / b_cols],
                        row_map(b@)[k % b_cols],
                    ),
            decreases b@.len() - j,
        {
            let kb: usize = b[j].0;
            let ghost before = res@;
            proof {
                lemma_row_map_at(b@, j as int);
                assert(b@[j as int].0 < b_cols);
                lemma_join(q, kb as int, d);
                assert(q * d + kb < a_cols * d);
            }
            let key: usize = ka * b_cols + kb;
            let value = op.op(duplicate(&a[i].1), duplicate(&b[j].1));
            proof {
                assert(gap(before, before.len() as int, key));
                lemma_gap_absent(before, before.len() as int, key);
                lemma_row_insert(before, before.len() as int, key, value);
            }
            res.push((key, value));
            proof {
                assert(res@ =~= before.insert(before.len() as int, (key, value)));
                let next = reach_col(b@, j + 1, d);
                if j + 1 < b@.len() {
                    assert(b@[j as int].0 < b@[j + 1].0);
                }
                assert forall|x: int| 0 <= x < res@.len() implies (#[trigger] res@[x]).0
                    < a_cols * b_cols by {
                    if x < before.len() {
                        assert(res@[x] == before[x]);
                    }
                }
                assert forall|x: int| 0 <= x < res@.len() implies (#[trigger] res@[x]).0 < q * d
                    + next by {
                    if x < before.len() {
                        assert(res@[x] == before[x]);
                    }
                }
                assert forall|k: usize| #[trigger]
                    row_map(res@).contains_key(k) <==> row_map(a@).contains_key(k / b_cols)
                        && row_map(b@).contains_key(k % b_cols) && k < q * d + next by {
                    lemma_split(k as int, d);
                    lemma_lex((k / b_cols) as int, (k % b_cols) as int, q, next, d);
                    lemma_lex((k / b_cols) as int, (k % b_cols) as int, q, kb as int, d);
                    if row_map(b@).contains_key(k % b_cols) && k / b_cols == ka {
                        let p = place(b@, k % b_cols);
                        if p < j {
                            assert(b@[p].0 < b@[j as int].0);
                        } else if p > j {
                            assert(b@[j + 1].0 <= b@[p].0) by {
                                if p > j + 1 {
                                    assert(b@[j + 1].0 < b@[p].0);
                                }
                            }
                        }
                    }
                }
                assert forall|k: usize| row_map(res@).contains_key(k) implies #[trigger] row_map(
                    res@,
                )[k] == op.apply(row_map(a@)[k / b_cols], row_map(b@)[k % b_cols]) by {
                    if k != key {
                        assert(row_map(before).contains_key(k));
                    }
                }
            }
            j += 1;
        }
        proof {
            // nothing is stored between the end of this block and the next one
            if i + 1 < a@.len() {
                assert(a@[i as int].0 < a@[i + 1].0);
                let q2 = a@[i + 1].0 as int;
                assert(q * d + d <= q2 * d) by (nonlinear_arith)
                    requires
                        q < q2,
                        d > 0,
                ;
                assert forall|k: usize| #[trigger]
                    row_map(res@).contains_key(k) <==> row_map(a@).contains_key(k / b_cols)
                        && row_map(b@).contains_key(k % b_cols) && k < q2 * d by {
                    lemma_split(k as int, d);
                    lemma_lex((k / b_cols) as int, (k % b_cols) as int, q, d, d);
                    lemma_lex((k / b_cols) as int, (k % b_cols) as int, q2, 0, d);
                    if row_map(a@).contains_key(k / b_cols) {
                        let p = place(a@, k / b_cols);
                        if p < i {
                            assert(a@[p].0 < a@[i as int].0);
                        } else if p > i + 1 {
                            assert(a@[i + 1].0 < a@[p].0);
                        }
                    }
                }
            } else {
                assert forall|k: usize| #[trigger]
                    row_map(res@).contains_key(k) <==> row_map(a@).contains_key(k / b_cols)
                        && row_map(b@).contains_key(k % b_cols) by {
                    lemma_split(k as int, d);
                    lemma_lex((k / b_cols) as int, (k % b_cols) as int, q, d, d);
                    if row_map(a@).contains_key(k / b_cols) {
                        let p = place(a@, k / b_cols);
                        if p < i {
                            assert(a@[p].0 < a@[i as int].0);
                        }
                    }
                }
            }
        }
        i += 1;
    }
    res
}

/// The column up to which the first `j` pairs of a row of `d` columns
/// reach: that of pair `j`, or `d` past the last pair.
pub open spec fn reach_col<T>(row: Seq<(usize, T)>, j: int, d: int) -> int {
    if 0 <= j < row.len() {
        row[j].0 as int
    } else {
        d
    }
}

/// `row` is the Kronecker product of the rows `a` and `b`.
pub open spec fn kron_of<T, Op: BinaryOperator<T, Output = T>>(
    row: Seq<(usize, T)>,
    a: Seq<(usize, T)>,
    b: Seq<(usize, T)>,
    op: Op,
    b_cols: usize,
) -> bool {
    &&& forall|k: usize| #[trigger]
        row_map(row).contains_key(k) <==> b_cols > 0 && row_map(a).contains_key(k / b_cols)
            && row_map(b).contains_key(k % b_cols)
    &&& forall|k: usize|
        row_map(row).contains_key(k) ==> #[trigger] row_map(row)[k] == op.apply(
            row_map(a)[k / b_cols],
            row_map(b)[k % b_cols],
        )
}

/// The place of row `y` of block `x` among blocks of `b_rows` rows.
pub open spec fn block_row(x: int, y: int, b_rows: int) -> int {
    x * b_rows + y
}

/// The Kronecker product of the rows `a` with the rows `b` of a matrix of
/// `b_rows` rows and `b_cols` columns.
pub fn kron_rows<T: Clone, Op: BinaryOperator<T, Output = T>>(
    a: &Vec<Vec<(IndexType, T)>>,
    b: &Vec<Vec<(IndexType, T)>>,
    op: &Op,
    a_cols: IndexType,
    b_rows: IndexType,
    b_cols: IndexType,
) -> (out: Vec<Vec<(IndexType, T)>>)
    requires
        clones_exactly::<T>(),
        grid_wf(rows_of(a@), a_cols),
        grid_wf(rows_of(b@), b_cols),
        b@.len() <= b_rows,
        0 < b_rows,
        0 < b_cols,
        a_cols * b_cols <= usize::MAX,
        pairable(grid_map(rows_of(a@)), grid_map(rows_of(b@)), *op),
    ensures
        out@.len() == a@.len() * b_rows,
        grid_wf(rows_of(out@), (a_cols * b_cols) as usize),
        grid_map(rows_of(out@)) == kronecker(
            grid_map(rows_of(a@)),
            grid_map(rows_of(b@)),
            *op,
            b_rows,
            b_cols,
        ),
{
    let ghost am = grid_map(rows_of(a@));
    let ghost bm = grid_map(rows_of(b@));
    let ghost h = b_rows as int;
    let ghost width = (a_cols * b_cols) as usize;
    let empty: Vec<(IndexType, T)> = Vec::new();
    let mut out: Vec<Vec<(IndexType, T)>> = Vec::new();
    let mut x: usize = 0;
    while x < a.len()
        invariant
            x <= a@.len(),
            h == b_rows,
            h > 0,
            b_cols > 0,
            width == a_cols * b_cols,
            am == grid_map(rows_of(a@)),
            bm == grid_map(rows_of(b@)),
            empty@.len() == 0,
            clones_exactly::<T>(),
            grid_wf(rows_of(a@), a_cols),
            grid_wf(rows_of(b@), b_cols),
            b@.len() <= b_rows,
            a_cols * b_cols <= usize::MAX,
            pairable(am, bm, *op),
            out@.len() == x * h,
            grid_wf(rows_of(out@), width),
            forall|u: int, v: int|
                0 <= u < x && 0 <= v < h ==> kron_of(
                    rows_of(out@)[#[trigger] block_row(u, v, h)],
                    rows_of(a@)[u],
                    row_at(rows_of(b@), v),
                    *op,
                    b_cols,
                ),
        decreases a@.len() - x,
    {
        let a_row = &a[x];
        let mut y: usize = 0;
        proof {
            assert(a_row@ == rows_of(a@)[x as int]);
            assert(sorted(a_row@) && bounded(a_row@, a_cols));
        }
        while y < b_rows
            invariant
                y <= b_rows,
                x < a@.len(),
                h == b_rows,
                h > 0,
                b_cols > 0,
                width == a_cols * b_cols,
                am == grid_map(rows_of(a@)),
                bm == grid_map(rows_of(b@)),
                empty@.len() == 0,
                a_row@ == rows_of(a@)[x as int],
                sorted(a_row@),
                bounded(a_row@, a_cols),
                clones_exactly::<T>(),
                grid_wf(rows_of(b@), b_cols),
                b@.len() <= b_rows,
                a_cols * b_cols <= usize::MAX,
                pairable(am, bm, *op),
                out@.len() == x * h + y,
                grid_wf(rows_of(out@), width),
                forall|u: int, v: int|
                    0 <= u < x && 0 <= v < h ==> kron_of(
                        rows_of(out@)[#[trigger] block_row(u, v, h)],
                        rows_of(a@)[u],
                        row_at(rows_of(b@), v),
                        *op,
                        b_cols,
                    ),
                forall|v: int|
                    0 <= v < y ==> kron_of(
                        rows_of(out@)[#[trigger] block_row(x as int, v, h)],
                        a_row@,
                        row_at(rows_of(b@), v),
                        *op,
                        b_cols,
                    ),
            decreases b_rows - y,
        {
            let b_row = if y < b.len() {
                &b[y]
            } else {
                &empty
            };
            proof {
                lemma_row_map_empty::<T>();
                assert(b_row@ == row_at(rows_of(b@), y as int));
                if y < b@.len() {
                    assert(sorted(rows_of(b@)[y as int]) && bounded(rows_of(b@)[y as int], b_cols));
                }
                assert forall|p: usize, q: usize|
                    row_map(a_row@).contains_key(p) && row_map(b_row@).contains_key(
                        q,
                    ) implies #[trigger] op.defined(row_map(a_row@)[p], row_map(b_row@)[q]) by {
                    assert(am.contains_key((x, p)));
                    assert(bm.contains_key((y, q)));
                    assert(op.defined(am[(x, p)], bm[(y, q)]));
                }
            }
            let row = kron_vec(a_row, b_row, op, a_cols, b_cols);
            let ghost before = rows_of(out@);
            out.push(row);
            proof {
                let after = rows_of(out@);
                assert(after =~= before.push(row@));
                assert(block_row(x as int, y as int, h) == before.len());
                assert forall|z: int| 0 <= z < after.len() implies sorted(#[trigger] after[z])
                    && bounded(after[z], width) by {
                    if z < before.len() {
                        assert(after[z] == before[z]);
                    }
                }
                assert forall|u: int, v: int| 0 <= u < x && 0 <= v < h implies kron_of(
                    after[#[trigger] block_row(u, v, h)],
                    rows_of(a@)[u],
                    row_at(rows_of(b@), v),
                    *op,
                    b_cols,
                ) by {
                    lemma_lex(u, v, x as int, y as int, h);
                    assert(after[block_row(u, v, h)] == before[block_row(u, v, h)]);
                }
                assert forall|v: int| 0 <= v < y + 1 implies kron_of(
                    after[#[trigger] block_row(x as int, v, h)],
                    a_row@,
                    row_at(rows_of(b@), v),
                    *op,
                    b_cols,
                ) by {
                    if v < y {
                        assert(after[block_row(x as int, v, h)] == before[block_row(
                            x as int,
                            v,
                            h,
                        )]);
                    }
                }
            }
            y += 1;
        }
        proof {
            assert((x + 1) * h == x * h + h) by (nonlinear_arith);
        }
        x += 1;
    }
    proof {
        let got = grid_map(rows_of(out@));
        let want = kronecker(am, bm, *op, b_rows, b_cols);
        lemma_row_map_empty::<T>();
        assert forall|p: (usize, usize)| got.contains_key(p) <==> want.contains_key(p) by {
            lemma_split(p.0 as int, h);
            let u = (p.0 / b_rows) as int;
            let v = (p.0 % b_rows) as int;
            lemma_lex(u, v, a@.len() as int, 0, h);
            if p.0 < out@.len() {
                assert(block_row(u, v, h) == p.0);
                assert(kron_of(
                    rows_of(out@)[block_row(u, v, h)],
                    rows_of(a@)[u],
                    row_at(rows_of(b@), v),
                    *op,
                    b_cols,
                ));
            }
        }
        assert forall|p: (usize, usize)| got.contains_key(p) implies got[p] == want[p] by {
            lemma_split(p.0 as int, h);
            let u = (p.0 / b_rows) as int;
            let v = (p.0 % b_rows) as int;
            lemma_lex(u, v, a@.len() as int, 0, h);
            assert(block_row(u, v, h) == p.0);
            assert(kron_of(
                rows_of(out@)[block_row(u, v, h)],
                rows_of(a@)[u],
                row_at(rows_of(b@), v),
                *op,
                b_cols,
            ));
        }
        assert(got =~= want);
    }
    out
}

} // verus!
