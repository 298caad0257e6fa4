use vstd::prelude::*;
use crate::algebra::{BinaryOperator, Semiring};
use crate::backend::row::{
    bounded, gap, lemma_gap_absent, lemma_row_insert, lemma_row_map_at, lemma_row_map_empty,
    lemma_row_take_next, lemma_row_update, row_map, search, sorted,
};
use crate::error::{ApiError, GblasError};
use crate::operations::union_with;
use crate::types::{clones_exactly, duplicate, IndexType, NoValue};

verus! {

/// Succeeds where the two dimensions agree.
pub fn check_vals(n1: IndexType, n2: IndexType) -> (r: Result<NoValue, GblasError>)
    ensures
        n1 == n2 ==> r is Ok,
        n1 != n2 ==> r == Err::<NoValue, GblasError>(
            GblasError::ApiError(ApiError::DimensionMismatch),
        ),
{
    if n1 != n2 {
        return Err(GblasError::ApiError(ApiError::DimensionMismatch));
    }
    Ok(())
}

/// What `c` holds once `a` times every value of `b` has been added to it:
/// where only `c` stores a value it stays, where only `b` does the product
/// is stored, and where both do the sum of the stored value and the
/// product.
pub open spec fn accumulated<T, S: Semiring<T, Output = T>>(
    c: Map<usize, T>,
    b: Map<usize, T>,
    a: T,
    op: S,
) -> Map<usize, T> {
    Map::new(
        |k: usize| c.contains_key(k) || b.contains_key(k),
        |k: usize|
            if !b.contains_key(k) {
                c[k]
            } else if c.contains_key(k) {
                op.sum(c[k], op.product(a, b[k]))
            } else {
                op.product(a, b[k])
            },
    )
}

/// `c += a * b`: scales the sparse row `b` by `a` with the multiplication
/// of `op`, and merges it into the sorted row `c` with the addition of `op`.
pub fn accum_mult_vec<T: Clone, S: Semiring<T, Output = T>>(
    c: &mut Vec<(IndexType, T)>,
    b: &[(IndexType, T)],
    a: &T,
    op: &S,
)
    requires
        clones_exactly::<T>(),
        sorted(old(c)@),
        sorted(b@),
        forall|j: int| 0 <= j < b@.len() ==> op.mult_defined(*a, (#[trigger] b@[j]).1),
        forall|k: usize|
            row_map(old(c)@).contains_key(k) && row_map(b@).contains_key(k) ==> op.add_defined(
                row_map(old(c)@)[k],
                #[trigger] op.product(*a, row_map(b@)[k]),
            ),
    ensures
        sorted(final(c)@),
        row_map(final(c)@) == accumulated(row_map(old(c)@), row_map(b@), *a, *op),
        forall|limit: usize|
            bounded(old(c)@, limit) && bounded(b@, limit) ==> bounded(final(c)@, limit),
{
    let ghost start = c@;
    let mut n: usize = 0;
    proof {
        lemma_row_map_empty::<T>();
        assert(b@.take(0) =~= Seq::<(usize, T)>::empty());
        assert(row_map(c@) =~= accumulated(row_map(start), row_map(b@.take(0)), *a, *op));
    }
    while n < b.len()
        invariant
            n <= b@.len(),
            clones_exactly::<T>(),
            sorted(start),
            sorted(b@),
            sorted(c@),
            forall|j: int| 0 <= j < b@.len() ==> op.mult_defined(*a, (#[trigger] b@[j]).1),
            forall|k: usize|
                row_map(start).contains_key(k) && row_map(b@).contains_key(k) ==> op.add_defined(
                    row_map(start)[k],
                    #[trigger] op.product(*a, row_map(b@)[k]),
                ),
            row_map(c@) == accumulated(row_map(start), row_map(b@.take(n as int)), *a, *op),
            forall|limit: usize|
                bounded(start, limit) && bounded(b@, limit) ==> bounded(c@, limit),
        decreases b@.len() - n,
    {
        let key: usize = b[n].0;
        let ghost before = c@;
        proof {
            lemma_row_take_next(b@, n as int);
            lemma_row_map_at(b@, n as int);
        }
        let val = op.mult(duplicate(a), duplicate(&b[n].1));
        let (idx, found) = search(c, key);
        if found {
            proof {
                lemma_row_map_at(before, idx as int);
            }
            let cur = duplicate(&c[idx].1);
            let sum = op.add(cur, val);
            c.set(idx, (key, sum));
            proof {
                lemma_row_update(before, idx as int, sum);
            }
        } else {
            c.insert(idx, (key, val));
            proof {
                lemma_gap_absent(before, idx as int, key);
                lemma_row_insert(before, idx as int, key, val);
            }
        }
        proof {
            assert(row_map(c@) =~= accumulated(
                row_map(start),
                row_map(b@.take(n + 1)),
                *a,
                *op,
            ));
            assert forall|limit: usize| bounded(start, limit) && bounded(b@, limit) implies bounded(
                c@,
                limit,
            ) by {
                assert(bounded(before, limit));
                assert(b@[n as int].0 < limit);
                assert forall|j: int| 0 <= j < c@.len() implies (#[trigger] c@[j]).0 < limit by {
                    if j < idx {
                        assert(c@[j] == before[j]);
                    } else if j > idx {
                        if found {
                            assert(c@[j] == before[j]);
                        } else {
                            assert(c@[j] == before[j - 1]);
                        }
                    }
                }
            }
        }
        n += 1;
    }
    proof {
        assert(b@.take(b@.len() as int) =~= b@);
    }
}

/// The element-wise union of the sorted rows `v1` and `v2`, written to
/// `res` in place of what it held: a two-pointer merge.
pub fn ewise_or_accum_vec<T: Clone, Op: BinaryOperator<T, Output = T>>(
    res: &mut Vec<(IndexType, T)>,
    v1: &[(IndexType, T)],
    v2: &[(IndexType, T)],
    bin_op: &Op,
)
    requires
        clones_exactly::<T>(),
        sorted(v1@),
        sorted(v2@),
        forall|k: usize|
            row_map(v1@).contains_key(k) && row_map(v2@).contains_key(k)
                ==> #[trigger] bin_op.defined(row_map(v1@)[k], row_map(v2@)[k]),
    ensures
        sorted(final(res)@),
        row_map(final(res)@) == union_with(row_map(v1@), row_map(v2@), *bin_op),
        forall|limit: usize|
            bounded(v1@, limit) && bounded(v2@, limit) ==> bounded(final(res)@, limit),
{
    res.clear();
    let mut i: usize = 0;
    let mut j: usize = 0;
    proof {
        lemma_row_map_empty::<T>();
        assert(v1@.take(0) =~= Seq::<(usize, T)>::empty());
        assert(v2@.take(0) =~= Seq::<(usize, T)>::empty());
        assert(row_map(res@) =~= union_with(row_map(v1@.take(0)), row_map(v2@.take(0)), *bin_op));
    }
    while i < v1.len() || j < v2.len()
        invariant
            i <= v1@.len(),
            j <= v2@.len(),
            clones_exactly::<T>(),
            sorted(v1@),
            sorted(v2@),
            sorted(res@),
            forall|k: usize|
                row_map(v1@).contains_key(k) && row_map(v2@).contains_key(k)
                    ==> #[trigger] bin_op.defined(row_map(v1@)[k], row_map(v2@)[k]),
            // what is written lies before what is left of either row
            forall|a: int|
                0 <= a < res@.len() && i < v1@.len() ==> (#[trigger] res@[a]).0 < v1@[i as int].0,
            forall|a: int|
                0 <= a < res@.len() && j < v2@.len() ==> (#[trigger] res@[a]).0 < v2@[j as int].0,
            row_map(res@) == union_with(
                row_map(v1@.take(i as int)),
                row_map(v2@.take(j as int)),
                *bin_op,
            ),
            forall|limit: usize|
                bounded(v1@, limit) && bounded(v2@, limit) ==> bounded(res@, limit),
        decreases (v1@.len() - i) + (v2@.len() - j),
    {
        let ghost before = res@;
        let ghost i0 = i as int;
        let ghost j0 = j as int;
        let first = j >= v2.len() || (i < v1.len() && v1[i].0 <= v2[j].0);
        let second = i >= v1.len() || (j < v2.len() && v2[j].0 <= v1[i].0);
        proof {
            if first {
                lemma_row_take_next(v1@, i0);
                lemma_row_map_at(v1@, i0);
            }
            if second {
                lemma_row_take_next(v2@, j0);
                lemma_row_map_at(v2@, j0);
            }
            // a key that is written now was not met in the other row before
            if first && !second {
                lemma_not_met(before, v2@.take(j0), row_map(v1@.take(i0)), *bin_op, v1@[i0].0);
            }
            if second && !first {
                lemma_not_met(before, v1@.take(i0), row_map(v2@.take(j0)), *bin_op, v2@[j0].0);
            }
        }
        let value = if first && second {
            let combined = bin_op.op(duplicate(&v1[i].1), duplicate(&v2[j].1));
            let key: usize = v1[i].0;
            i += 1;
            j += 1;
            (key, combined)
        } else if first {
            let out = (v1[i].0, duplicate(&v1[i].1));
            i += 1;
            out
        } else {
            let out = (v2[j].0, duplicate(&v2[j].1));
            j += 1;
            out
        };
        let ghost key = value.0;
        proof {
            assert(gap(before, before.len() as int, key));
            lemma_gap_absent(before, before.len() as int, key);
            lemma_row_insert(before, before.len() as int, key, value.1);
        }
        res.push(value);
        proof {
            assert(res@ =~= before.insert(before.len() as int, value));
            assert(row_map(res@) =~= union_with(
                row_map(v1@.take(i as int)),
                row_map(v2@.take(j as int)),
                *bin_op,
            ));
            assert forall|a: int| 0 <= a < res@.len() && i < v1@.len() implies (
            #[trigger] res@[a]).0 < v1@[i as int].0 by {
                if a < before.len() {
                    assert(res@[a] == before[a]);
                    if i > i0 {
                        assert(v1@[i0].0 < v1@[i as int].0);
                    }
                } else if i > i0 {
                    assert(v1@[i0].0 < v1@[i as int].0);
                }
            }
            assert forall|a: int| 0 <= a < res@.len() && j < v2@.len() implies (
            #[trigger] res@[a]).0 < v2@[j as int].0 by {
                if a < before.len() {
                    assert(res@[a] == before[a]);
                    if j > j0 {
                        assert(v2@[j0].0 < v2@[j as int].0);
                    }
                } else if j > j0 {
                    assert(v2@[j0].0 < v2@[j as int].0);
                }
            }
            assert forall|limit: usize| bounded(v1@, limit) && bounded(v2@, limit) implies bounded(
                res@,
                limit,
            ) by {
                assert(bounded(before, limit));
                assert forall|a: int| 0 <= a < res@.len() implies (#[trigger] res@[a]).0
                    < limit by {
                    if a < before.len() {
                        assert(res@[a] == before[a]);
                    } else if i > i0 {
                        assert(v1@[i0].0 < limit);
                    } else {
                        assert(v2@[j0].0 < limit);
                    }
                }
            }
        }
    }
    proof {
        assert(v1@.take(v1@.len() as int) =~= v1@);
        assert(v2@.take(v2@.len() as int) =~= v2@);
    }
}

/// A key above every key written so far was met in neither row: what was
/// met has been written.
proof fn lemma_not_met<T, Op: BinaryOperator<T, Output = T>>(
    written: Seq<(usize, T)>,
    met: Seq<(usize, T)>,
    other: Map<usize, T>,
    op: Op,
    key: usize,
)
    requires
        forall|a: int| 0 <= a < written.len() ==> (#[trigger] written[a]).0 < key,
        row_map(written) == union_with(other, row_map(met), op) || row_map(written) == union_with(
            row_map(met),
            other,
            op,
        ),
    ensures
        !row_map(met).contains_key(key),
{
    if row_map(met).contains_key(key) {
        assert(row_map(written).contains_key(key));
        let a = crate::backend::row::place(written, key);
        assert(written[a].0 < key);
    }
}

} // verus!
