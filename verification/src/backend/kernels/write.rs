//! Writing a result row into an output row under mask, accumulator and
//! replacement, and reading a mask along a row.
use vstd::prelude::*;
use crate::algebra::{BinaryOperator, Monoid, Semiring, UnaryOperator};
use crate::backend::row::{
    bounded, gap, lemma_gap_absent, lemma_row_insert, lemma_row_map_at, lemma_row_map_empty,
    lemma_row_take_next, row_map, sorted,
};
use crate::descriptor::Descriptor;
use crate::indices::IndexSet;
use crate::mask::{MatMask, VecMask};
use crate::matrix::Matrix;
use crate::operations::{
    accumulable, assigned, complemented, mat_admitted, region, vec_admitted, written,
};
use crate::types::{clones_exactly, duplicate, IndexType};
use crate::vector::Vector;

verus! {

/// The accumulator by value, as contracts name it.
pub open spec fn deref_op<Acc>(accum: Option<&Acc>) -> Option<Acc> {
    match accum {
        Some(op) => Some(*op),
        None => None,
    }
}

/// For every pair of `row`, whether the mask admits its column in row `r`
/// of a matrix.
pub(crate) fn mat_flags<M, Mk: MatMask<M>, T>(
    mask: &Option<Mk>,
    desc: Option<Descriptor>,
    r: IndexType,
    row: &Vec<(IndexType, T)>,
) -> (flags: Vec<bool>)
    requires
        mask matches Some(m) ==> m.readable(),
    ensures
        flags@.len() == row@.len(),
        forall|i: int|
            0 <= i < row@.len() ==> flags@[i] == mat_admitted(*mask, desc).contains(
                (r, (#[trigger] row@[i]).0),
            ),
{
    let complement = match desc {
        Some(d) => d.mask_complement,
        None => false,
    };
    let mut flags: Vec<bool> = Vec::new();
    let mut i: usize = 0;
    while i < row.len()
        invariant
            i <= row@.len(),
            flags@.len() == i,
            complement == complemented(desc),
            mask matches Some(m) ==> m.readable(),
            forall|a: int|
                0 <= a < i ==> flags@[a] == mat_admitted(*mask, desc).contains(
                    (r, (#[trigger] row@[a]).0),
                ),
        decreases row@.len() - i,
    {
        let flag = match mask {
            None => true,
            Some(m) => {
                proof {
                    m.lemma_reading((r, row@[i as int].0), &true);
                }
                let read = m[(r, row[i].0)];
                proof {
                    m.lemma_reading((r, row@[i as int].0), &read);
                }
                read != complement
            },
        };
        flags.push(flag);
        i += 1;
    }
    flags
}

/// For every pair of `row`, whether the mask admits its index in a vector.
pub(crate) fn vec_flags<V, Mk: VecMask<V>, T>(
    mask: &Option<Mk>,
    desc: Option<Descriptor>,
    row: &Vec<(IndexType, T)>,
) -> (flags: Vec<bool>)
    requires
        mask matches Some(m) ==> m.readable(),
    ensures
        flags@.len() == row@.len(),
        forall|i: int|
            0 <= i < row@.len() ==> flags@[i] == vec_admitted(*mask, desc).contains(
                (#[trigger] row@[i]).0,
            ),
{
    let complement = match desc {
        Some(d) => d.mask_complement,
        None => false,
    };
    let mut flags: Vec<bool> = Vec::new();
    let mut i: usize = 0;
    while i < row.len()
        invariant
            i <= row@.len(),
            flags@.len() == i,
            complement == complemented(desc),
            mask matches Some(m) ==> m.readable(),
            forall|a: int|
                0 <= a < i ==> flags@[a] == vec_admitted(*mask, desc).contains(
                    (#[trigger] row@[a]).0,
                ),
        decreases row@.len() - i,
    {
        let flag = match mask {
            None => true,
            Some(m) => {
                proof {
                    m.lemma_reading(row@[i as int].0, &true);
                }
                let read = m[row[i].0];
                proof {
                    m.lemma_reading(row@[i as int].0, &read);
                }
                read != complement
            },
        };
        flags.push(flag);
        i += 1;
    }
    flags
}

/// Writes the result row `t` into the output row `c` and returns the new
/// output row. `c_ok[i]` and `t_ok[j]` tell whether the column of `c[i]`
/// and of `t[j]` is admitted, `c_in[i]` whether the column of `c[i]` lies
/// in the region that the operation reaches.
pub(crate) fn write_row<T: Clone, Acc: BinaryOperator<T, Output = T>>(
    c: &Vec<(IndexType, T)>,
    c_ok: &Vec<bool>,
    c_in: &Vec<bool>,
    t: &Vec<(IndexType, T)>,
    t_ok: &Vec<bool>,
    accum: Option<&Acc>,
    replace: bool,
    Ghost(admitted): Ghost<Set<usize>>,
    Ghost(region): Ghost<Set<usize>>,
) -> (out: Vec<(IndexType, T)>)
    requires
        clones_exactly::<T>(),
        sorted(c@),
        sorted(t@),
        c_ok@.len() == c@.len(),
        c_in@.len() == c@.len(),
        t_ok@.len() == t@.len(),
        forall|i: int| 0 <= i < c@.len() ==> c_ok@[i] == admitted.contains((#[trigger] c@[i]).0),
        forall|i: int| 0 <= i < c@.len() ==> c_in@[i] == region.contains((#[trigger] c@[i]).0),
        forall|j: int| 0 <= j < t@.len() ==> t_ok@[j] == admitted.contains((#[trigger] t@[j]).0),
        forall|j: int| 0 <= j < t@.len() ==> region.contains((#[trigger] t@[j]).0),
        accumulable(row_map(c@), row_map(t@), admitted, deref_op(accum)),
    ensures
        sorted(out@),
        row_map(out@) == assigned(
            row_map(c@),
            row_map(t@),
            admitted,
            region,
            deref_op(accum),
            replace,
        ),
        forall|limit: usize| bounded(c@, limit) && bounded(t@, limit) ==> bounded(out@, limit),
{
    let mut out: Vec<(IndexType, T)> = Vec::new();
    let mut i: usize = 0;
    let mut j: usize = 0;
    let ghost acc = deref_op(accum);
    proof {
        lemma_row_map_empty::<T>();
        assert(c@.take(0) =~= Seq::<(usize, T)>::empty());
        assert(t@.take(0) =~= Seq::<(usize, T)>::empty());
        assert(row_map(out@) =~= assigned(
            row_map(c@.take(0)),
            row_map(t@.take(0)),
            admitted,
            region,
            acc,
            replace,
        ));
    }
    while i < c.len() || j < t.len()
        invariant
            i <= c@.len(),
            j <= t@.len(),
            clones_exactly::<T>(),
            sorted(c@),
            sorted(t@),
            sorted(out@),
            c_ok@.len() == c@.len(),
            c_in@.len() == c@.len(),
            t_ok@.len() == t@.len(),
            acc == deref_op(accum),
            forall|a: int| 0 <= a < c@.len()
                ==> c_ok@[a] == admitted.contains((#[trigger] c@[a]).0),
            forall|a: int| 0 <= a < c@.len() ==> c_in@[a] == region.contains((#[trigger] c@[a]).0),
            forall|b: int| 0 <= b < t@.len()
                ==> t_ok@[b] == admitted.contains((#[trigger] t@[b]).0),
            forall|b: int| 0 <= b < t@.len() ==> region.contains((#[trigger] t@[b]).0),
            accumulable(row_map(c@), row_map(t@), admitted, acc),
            // what has been read and what is written lie before what is left
            forall|a: int| 0 <= a < i && j < t@.len() ==> (#[trigger] c@[a]).0 < t@[j as int].0,
            forall|b: int| 0 <= b < j && i < c@.len() ==> (#[trigger] t@[b]).0 < c@[i as int].0,
            forall|a: int|
                0 <= a < out@.len() && i < c@.len() ==> (#[trigger] out@[a]).0 < c@[i as int].0,
            forall|a: int|
                0 <= a < out@.len() && j < t@.len() ==> (#[trigger] out@[a]).0 < t@[j as int].0,
            row_map(out@) == assigned(
                row_map(c@.take(i as int)),
                row_map(t@.take(j as int)),
                admitted,
                region,
                acc,
                replace,
            ),
            forall|limit: usize| bounded(c@, limit) && bounded(t@, limit) ==> bounded(out@, limit),
        decreases (c@.len() - i) + (t@.len() - j),
    {
        let ghost before = out@;
        let ghost i0 = i as int;
        let ghost j0 = j as int;
        let first = j >= t.len() || (i < c.len() && c[i].0 <= t[j].0);
        let second = i >= c.len() || (j < t.len() && t[j].0 <= c[i].0);
        let key: usize = if first {
            c[i].0
        } else {
            t[j].0
        };
        let ok = if first {
            c_ok[i]
        } else {
            t_ok[j]
        };
        proof {
            if first {
                lemma_row_take_next(c@, i0);
                lemma_row_map_at(c@, i0);
            }
            if second {
                lemma_row_take_next(t@, j0);
                lemma_row_map_at(t@, j0);
            }
            if first && !second {
                lemma_above(t@.take(j0), key);
            }
            if second && !first {
                lemma_above(c@.take(i0), key);
            }
        }
        let item: Option<T> = if ok {
            if second {
                if first {
                    match accum {
                        Some(op) => Some(op.op(duplicate(&c[i].1), duplicate(&t[j].1))),
                        None => Some(duplicate(&t[j].1)),
                    }
                } else {
                    Some(duplicate(&t[j].1))
                }
            } else if c_in[i] {
                match accum {
                    Some(_) => Some(duplicate(&c[i].1)),
                    None => None,
                }
            } else {
                Some(duplicate(&c[i].1))
            }
        } else {
            if first && !replace {
                Some(duplicate(&c[i].1))
            } else {
                None
            }
        };
        if first {
            i += 1;
        }
        if second {
            j += 1;
        }
        match item {
            Some(value) => {
                proof {
                    assert(gap(before, before.len() as int, key));
                    lemma_gap_absent(before, before.len() as int, key);
                    lemma_row_insert(before, before.len() as int, key, value);
                }
                out.push((key, value));
                proof {
                    assert(out@ =~= before.insert(before.len() as int, (key, value)));
                }
            },
            None => {
                proof {
                    lemma_above(before, key);
                }
            },
        }
        proof {
            assert(row_map(out@) =~= assigned(
                row_map(c@.take(i as int)),
                row_map(t@.take(j as int)),
                admitted,
                region,
                acc,
                replace,
            ));
            assert forall|a: int| 0 <= a < i && j < t@.len() implies (#[trigger] c@[a]).0
                < t@[j as int].0 by {
                if j > j0 {
                    assert(t@[j0].0 < t@[j as int].0);
                }
                if a == i0 {
                } else {
                    assert(c@[a].0 < t@[j0].0);
                }
            }
            assert forall|b: int| 0 <= b < j && i < c@.len() implies (#[trigger] t@[b]).0
                < c@[i as int].0 by {
                if i > i0 {
                    assert(c@[i0].0 < c@[i as int].0);
                }
                if b == j0 {
                } else {
                    assert(t@[b].0 < c@[i0].0);
                }
            }
            assert forall|a: int| 0 <= a < out@.len() && i < c@.len() implies (
            #[trigger] out@[a]).0 < c@[i as int].0 by {
                if i > i0 {
                    assert(c@[i0].0 < c@[i as int].0);
                }
                if a < before.len() {
                    assert(out@[a] == before[a]);
                }
            }
            assert forall|a: int| 0 <= a < out@.len() && j < t@.len() implies (
            #[trigger] out@[a]).0 < t@[j as int].0 by {
                if j > j0 {
                    assert(t@[j0].0 < t@[j as int].0);
                }
                if a < before.len() {
                    assert(out@[a] == before[a]);
                }
            }
            assert forall|limit: usize| bounded(c@, limit) && bounded(t@, limit) implies bounded(
                out@,
                limit,
            ) by {
                assert(bounded(before, limit));
                assert forall|a: int| 0 <= a < out@.len() implies (#[trigger] out@[a]).0
                    < limit by {
                    if a < before.len() {
                        assert(out@[a] == before[a]);
                    } else if first {
                        assert(c@[i0].0 < limit);
                    } else {
                        assert(t@[j0].0 < limit);
                    }
                }
            }
        }
    }
    proof {
        assert(c@.take(c@.len() as int) =~= c@);
        assert(t@.take(t@.len() as int) =~= t@);
    }
    out
}

/// For every pair of `row`, whether its column lies in the region that
/// the sets of rows and of columns span, given whether the row does.
pub(crate) fn region_flags<T>(row_in: bool, cols_in: &IndexSet, row: &Vec<(IndexType, T)>) ->
    (flags:
    Vec<bool>)
    requires
        cols_in.wf(),
    ensures
        flags@.len() == row@.len(),
        forall|i: int|
            0 <= i < row@.len() ==> (#[trigger] flags@[i]) == (row_in && cols_in.holds(row@[i].0)),
{
    let mut flags: Vec<bool> = Vec::new();
    let mut i: usize = 0;
    while i < row.len()
        invariant
            i <= row@.len(),
            flags@.len() == i,
            cols_in.wf(),
            forall|a: int|
                0 <= a < i ==> (#[trigger] flags@[a]) == (row_in && cols_in.holds(row@[a].0)),
        decreases row@.len() - i,
    {
        let flag = row_in && cols_in.contains(row[i].0);
        let ghost before = flags@;
        flags.push(flag);
        proof {
            assert forall|a: int| 0 <= a < i + 1 implies (#[trigger] flags@[a]) == (row_in
                && cols_in.holds(row@[a].0)) by {
                if a < i {
                    assert(flags@[a] == before[a]);
                }
            }
        }
        i += 1;
    }
    flags
}

/// A row whose indices all lie below `key` does not store `key`.
pub proof fn lemma_above<T>(row: Seq<(usize, T)>, key: usize)
    requires
        forall|a: int| 0 <= a < row.len() ==> (#[trigger] row[a]).0 < key,
    ensures
        !row_map(row).contains_key(key),
{
    assert(gap(row, row.len() as int, key));
    lemma_gap_absent(row, row.len() as int, key);
}

} // verus!
