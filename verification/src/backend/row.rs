//! Sparse rows: sequences of `(index, value)` pairs in strictly increasing
//! order of index, and the map from index to value that such a row stands
//! for.
use vstd::prelude::*;
use crate::algebra::BinaryOperator;
use crate::triplet::merge_one;

verus! {

/// The indices of `row` increase strictly, so none occurs twice.
pub open spec fn sorted<T>(row: Seq<(usize, T)>) -> bool {
    forall|i: int, j: int| 0 <= i < j < row.len() ==> row[i].0 < row[j].0
}

/// Every index of `row` is below `limit`.
pub open spec fn bounded<T>(row: Seq<(usize, T)>, limit: usize) -> bool {
    forall|i: int| 0 <= i < row.len() ==> (#[trigger] row[i]).0 < limit
}

/// `row` stores a value at index `k`.
pub open spec fn stores<T>(row: Seq<(usize, T)>, k: usize) -> bool {
    exists|i: int| 0 <= i < row.len() && (#[trigger] row[i]).0 == k
}

/// A place in `row` where index `k` is stored.
pub open spec fn place<T>(row: Seq<(usize, T)>, k: usize) -> int {
    choose|i: int| 0 <= i < row.len() && (#[trigger] row[i]).0 == k
}

/// The map from index to value that `row` stands for.
pub open spec fn row_map<T>(row: Seq<(usize, T)>) -> Map<usize, T> {
    Map::new(|k: usize| stores(row, k), |k: usize| row[place(row, k)].1)
}

/// In a sorted row, the pair at place `i` is what the map holds at its index.
pub proof fn lemma_row_map_at<T>(row: Seq<(usize, T)>, i: int)
    requires
        sorted(row),
        0 <= i < row.len(),
    ensures
        stores(row, row[i].0),
        place(row, row[i].0) == i,
        row_map(row).contains_key(row[i].0),
        row_map(row)[row[i].0] == row[i].1,
{
    let k = row[i].0;
    assert(stores(row, k));
    let p = place(row, k);
    if p < i {
        assert(row[p].0 < row[i].0);
    } else if i < p {
        assert(row[i].0 < row[p].0);
    }
}

/// The empty row stands for the empty map.
pub proof fn lemma_row_map_empty<T>()
    ensures
        sorted(Seq::<(usize, T)>::empty()),
        row_map(Seq::<(usize, T)>::empty()) =~= Map::<usize, T>::empty(),
{
}

/// `i` is where index `k` belongs in `row`: what comes before is less, what
/// stands there or later is greater.
pub open spec fn gap<T>(row: Seq<(usize, T)>, i: int, k: usize) -> bool {
    &&& 0 <= i <= row.len()
    &&& forall|j: int| 0 <= j < i ==> (#[trigger] row[j]).0 < k
    &&& forall|j: int| i <= j < row.len() ==> (#[trigger] row[j]).0 > k
}

/// Where `gap(row, i, k)` holds, `row` stores nothing at `k`.
pub proof fn lemma_gap_absent<T>(row: Seq<(usize, T)>, i: int, k: usize)
    requires
        gap(row, i, k),
    ensures
        !stores(row, k),
        !row_map(row).contains_key(k),
{
    if stores(row, k) {
        let p = place(row, k);
        if p < i {
            assert(row[p].0 < k);
        } else {
            assert(row[p].0 > k);
        }
    }
}

/// Inserting a new index at its gap keeps the row sorted and inserts into
/// the map.
pub proof fn lemma_row_insert<T>(row: Seq<(usize, T)>, i: int, k: usize, v: T)
    requires
        sorted(row),
        gap(row, i, k),
    ensures
        sorted(row.insert(i, (k, v))),
        row_map(row.insert(i, (k, v))) =~= row_map(row).insert(k, v),
{
    let next = row.insert(i, (k, v));
    assert forall|a: int, b: int| 0 <= a < b < next.len() implies next[a].0 < next[b].0 by {
        if a < i && b > i {
            assert(next[a] == row[a]);
            assert(next[b] == row[b - 1]);
        } else if a < i && b < i {
            assert(next[a] == row[a] && next[b] == row[b]);
        } else if a > i {
            assert(next[a] == row[a - 1] && next[b] == row[b - 1]);
        } else if a == i {
            assert(next[b] == row[b - 1]);
        } else {
            assert(next[a] == row[a]);
        }
    }
    assert forall|x: usize| #[trigger] row_map(next).contains_key(x) <==> row_map(row).insert(
        k,
        v,
    ).contains_key(x) by {
        if stores(next, x) {
            let p = place(next, x);
            if p < i {
                assert(row[p].0 == x);
            } else if p > i {
                assert(row[p - 1].0 == x);
            }
        }
        if stores(row, x) {
            let p = place(row, x);
            if p < i {
                assert(next[p].0 == x);
            } else {
                assert(next[p + 1].0 == x);
            }
        }
        if x == k {
            assert(next[i].0 == x);
        }
    }
    assert forall|x: usize| #[trigger]
        row_map(next).contains_key(x) implies row_map(next)[x] == row_map(row).insert(k, v)[x] by {
        let p = place(next, x);
        lemma_row_map_at(next, p);
        if p < i {
            assert(next[p] == row[p]);
            lemma_row_map_at(row, p);
        } else if p > i {
            assert(next[p] == row[p - 1]);
            lemma_row_map_at(row, p - 1);
        }
    }
}

/// Replacing the value at place `i` keeps the row sorted and overwrites in
/// the map.
pub proof fn lemma_row_update<T>(row: Seq<(usize, T)>, i: int, v: T)
    requires
        sorted(row),
        0 <= i < row.len(),
    ensures
        sorted(row.update(i, (row[i].0, v))),
        row_map(row.update(i, (row[i].0, v))) =~= row_map(row).insert(row[i].0, v),
{
    let k = row[i].0;
    let next = row.update(i, (k, v));
    assert forall|a: int, b: int| 0 <= a < b < next.len() implies next[a].0 < next[b].0 by {
        assert(next[a].0 == row[a].0 && next[b].0 == row[b].0);
    }
    assert forall|x: usize| #[trigger] row_map(next).contains_key(x) <==> row_map(row).insert(
        k,
        v,
    ).contains_key(x) by {
        if stores(next, x) {
            let p = place(next, x);
            assert(row[p].0 == x);
        }
        if stores(row, x) {
            let p = place(row, x);
            assert(next[p].0 == x);
        }
    }
    assert forall|x: usize| #[trigger]
        row_map(next).contains_key(x) implies row_map(next)[x] == row_map(row).insert(k, v)[x] by {
        let p = place(next, x);
        lemma_row_map_at(next, p);
        if p != i {
            assert(next[p] == row[p]);
            lemma_row_map_at(row, p);
        }
    }
}

/// Removing the pair at place `i` keeps the row sorted and removes from the
/// map.
pub proof fn lemma_row_remove<T>(row: Seq<(usize, T)>, i: int)
    requires
        sorted(row),
        0 <= i < row.len(),
    ensures
        sorted(row.remove(i)),
        row_map(row.remove(i)) =~= row_map(row).remove(row[i].0),
{
    let k = row[i].0;
    let next = row.remove(i);
    assert forall|a: int, b: int| 0 <= a < b < next.len() implies next[a].0 < next[b].0 by {
        let a0 = if a < i { a } else { a + 1 };
        let b0 = if b < i { b } else { b + 1 };
        assert(next[a] == row[a0] && next[b] == row[b0]);
    }
    assert forall|x: usize| #[trigger] row_map(next).contains_key(x) <==> row_map(row).remove(
        k,
    ).contains_key(x) by {
        if stores(next, x) {
            let p = place(next, x);
            let src = if p < i { p } else { p + 1 };
            assert(next[p] == row[src]);
            assert(row[src].0 == x);
            if src < i {
                assert(row[src].0 < row[i].0);
            } else {
                assert(row[i].0 < row[src].0);
            }
        }
        if stores(row, x) && x != k {
            let p = place(row, x);
            let dst = if p < i { p } else { p - 1 };
            assert(next[dst] == row[p]);
        }
    }
    assert forall|x: usize| #[trigger]
        row_map(next).contains_key(x) implies row_map(next)[x] == row_map(row).remove(k)[x] by {
        let p = place(next, x);
        lemma_row_map_at(next, p);
        let src = if p < i { p } else { p + 1 };
        assert(next[p] == row[src]);
        lemma_row_map_at(row, src);
    }
}

/// Keeping the first `n` pairs of a sorted row, where `n` is the gap of
/// `limit`, keeps exactly the indices below `limit`.
pub proof fn lemma_row_take<T>(row: Seq<(usize, T)>, n: int, limit: usize)
    requires
        sorted(row),
        0 <= n <= row.len(),
        forall|j: int| 0 <= j < n ==> (#[trigger] row[j]).0 < limit,
        forall|j: int| n <= j < row.len() ==> (#[trigger] row[j]).0 >= limit,
    ensures
        sorted(row.take(n)),
        bounded(row.take(n), limit),
        row_map(row.take(n)) =~= row_map(row).restrict(Set::new(|k: usize| k < limit)),
{
    let next = row.take(n);
    assert forall|x: usize| #[trigger] row_map(next).contains_key(x) <==> row_map(row).restrict(
        Set::new(|k: usize| k < limit),
    ).contains_key(x) by {
        if stores(next, x) {
            let p = place(next, x);
            assert(row[p].0 == x);
        }
        if stores(row, x) && x < limit {
            let p = place(row, x);
            assert(p < n);
            assert(next[p].0 == x);
        }
    }
    assert forall|x: usize| #[trigger] row_map(next).contains_key(x) implies row_map(next)[x]
        == row_map(row).restrict(Set::new(|k: usize| k < limit))[x] by {
        let p = place(next, x);
        lemma_row_map_at(next, p);
        lemma_row_map_at(row, p);
    }
}

/// The first `n + 1` pairs of a sorted row stand for the map of the first
/// `n` with pair `n` inserted, at an index that map does not hold.
pub proof fn lemma_row_take_next<T>(row: Seq<(usize, T)>, n: int)
    requires
        sorted(row),
        0 <= n < row.len(),
    ensures
        sorted(row.take(n)),
        sorted(row.take(n + 1)),
        !row_map(row.take(n)).contains_key(row[n].0),
        row_map(row.take(n + 1)) =~= row_map(row.take(n)).insert(row[n].0, row[n].1),
{
    let done = row.take(n);
    assert forall|j: int| 0 <= j < n implies (#[trigger] done[j]).0 < row[n].0 by {
        assert(row[j].0 < row[n].0);
    }
    assert(gap(done, n, row[n].0));
    lemma_gap_absent(done, n, row[n].0);
    lemma_row_insert(done, n, row[n].0, row[n].1);
    assert(row.take(n + 1) =~= done.insert(n, row[n]));
}

/// A sorted row stores as many indices as it has pairs.
pub proof fn lemma_row_map_len<T>(row: Seq<(usize, T)>)
    requires
        sorted(row),
    ensures
        row_map(row).dom().finite(),
        row_map(row).dom().len() == row.len(),
    decreases row.len(),
{
    if row.len() == 0 {
        assert(row_map(row).dom() =~= Set::<usize>::empty());
    } else {
        let last = row.len() - 1;
        let rest = row.remove(last);
        lemma_row_remove(row, last);
        lemma_row_map_len(rest);
        lemma_row_map_at(row, last);
        assert(row_map(row).dom() =~= row_map(rest).dom().insert(row[last].0));
    }
}

/// In a sorted row whose indices are below `limit`, there are at most
/// `limit` pairs.
pub proof fn lemma_row_len_bounded<T>(row: Seq<(usize, T)>, limit: usize)
    requires
        sorted(row),
        bounded(row, limit),
    ensures
        row.len() <= limit,
    decreases row.len(),
{
    if row.len() > 0 {
        lemma_row_index_lower_bound(row, row.len() - 1);
    }
}

/// In a sorted row, the index at place `i` is at least `i`.
pub proof fn lemma_row_index_lower_bound<T>(row: Seq<(usize, T)>, i: int)
    requires
        sorted(row),
        0 <= i < row.len(),
    ensures
        row[i].0 >= i,
    decreases i,
{
    if i > 0 {
        lemma_row_index_lower_bound(row, i - 1);
    }
}

/// Two sorted rows that stand for the same map are the same row.
pub proof fn lemma_row_map_injective<T>(a: Seq<(usize, T)>, b: Seq<(usize, T)>)
    requires
        sorted(a),
        sorted(b),
        row_map(a) == row_map(b),
    ensures
        a == b,
    decreases a.len(),
{
    lemma_row_map_len(a);
    lemma_row_map_len(b);
    if a.len() > 0 {
        let la = a.len() - 1;
        let lb = b.len() - 1;
        lemma_row_map_at(a, la);
        lemma_row_map_at(b, lb);
        // the last index of each row is the greatest key of the common map
        assert(stores(b, a[la].0));
        assert(stores(a, b[lb].0));
        let pa = place(a, b[lb].0);
        let pb = place(b, a[la].0);
        assert(a[la].0 == b[lb].0) by {
            if pa < la {
                assert(a[pa].0 < a[la].0);
            }
            if pb < lb {
                assert(b[pb].0 < b[lb].0);
            }
        }
        assert(a[la].1 == b[lb].1);
        lemma_row_remove(a, la);
        lemma_row_remove(b, lb);
        lemma_row_map_injective(a.remove(la), b.remove(lb));
        assert(a =~= a.remove(la).push(a[la]));
        assert(b =~= b.remove(lb).push(b[lb]));
    } else {
        assert(a =~= b);
    }
}

/// Where `key` is stored in a sorted row, or else the place where it
/// belongs: the first place whose index is not below `key`.
pub fn locate<T>(row: &Vec<(usize, T)>, key: usize) -> (r: (usize, bool))
    requires
        sorted(row@),
    ensures
        r.1 ==> r.0 < row@.len() && row@[r.0 as int].0 == key,
        !r.1 ==> gap(row@, r.0 as int, key),
        r.1 <==> stores(row@, key),
{
    let mut i: usize = 0;
    while i < row.len()
        invariant
            i <= row@.len(),
            sorted(row@),
            forall|j: int| 0 <= j < i ==> (#[trigger] row@[j]).0 < key,
        decreases row@.len() - i,
    {
        let c: usize = row[i].0;
        if c == key {
            return (i, true);
        }
        if c > key {
            proof {
                assert forall|j: int| i <= j < row@.len() implies (#[trigger] row@[j]).0 > key by {
                    if j > i {
                        assert(row@[i as int].0 < row@[j].0);
                    }
                }
                lemma_gap_absent(row@, i as int, key);
            }
            return (i, false);
        }
        i += 1;
    }
    proof {
        lemma_gap_absent(row@, i as int, key);
    }
    (i, false)
}

/// What `locate` finds, found by bisection.
pub fn search<T>(row: &Vec<(usize, T)>, key: usize) -> (r: (usize, bool))
    requires
        sorted(row@),
    ensures
        r.1 ==> r.0 < row@.len() && row@[r.0 as int].0 == key,
        !r.1 ==> gap(row@, r.0 as int, key),
        r.1 <==> stores(row@, key),
{
    let mut lo: usize = 0;
    let mut hi: usize = row.len();
    while lo < hi
        invariant
            lo <= hi <= row@.len(),
            sorted(row@),
            forall|j: int| 0 <= j < lo ==> (#[trigger] row@[j]).0 < key,
            forall|j: int| hi <= j < row@.len() ==> (#[trigger] row@[j]).0 > key,
        decreases hi - lo,
    {
        let mid: usize = lo + (hi - lo) / 2;
        let c: usize = row[mid].0;
        if c == key {
            return (mid, true);
        }
        if c < key {
            proof {
                assert forall|j: int| 0 <= j < mid + 1 implies (#[trigger] row@[j]).0 < key by {
                    if j < mid {
                        assert(row@[j].0 < row@[mid as int].0);
                    }
                }
            }
            lo = mid + 1;
        } else {
            proof {
                assert forall|j: int| mid <= j < row@.len() implies (#[trigger] row@[j]).0
                    > key by {
                    if j > mid {
                        assert(row@[mid as int].0 < row@[j].0);
                    }
                }
            }
            hi = mid;
        }
    }
    proof {
        lemma_gap_absent(row@, lo as int, key);
    }
    (lo, false)
}

/// Stores `value` at `key` in a sorted row. Where a value is stored there
/// already, it is replaced by `dup` of the stored value and `value` if `dup`
/// is given, and by `value` if not. Returns whether the row has grown.
pub fn upsert<T, Op: BinaryOperator<T, Output = T>>(
    row: &mut Vec<(usize, T)>,
    key: usize,
    value: T,
    dup: Option<&Op>,
) -> (grown: bool)
    requires
        sorted(old(row)@),
        dup matches Some(op) ==> (row_map(old(row)@).contains_key(key) ==> op.defined(
            row_map(old(row)@)[key],
            value,
        )),
    ensures
        sorted(final(row)@),
        grown == !row_map(old(row)@).contains_key(key),
        final(row)@.len() == old(row)@.len() + (if grown { 1int } else { 0int }),
        row_map(final(row)@) == (match dup {
            Some(op) => merge_one(row_map(old(row)@), key, value, *op),
            None => row_map(old(row)@).insert(key, value),
        }),
        forall|limit: usize| key < limit && bounded(old(row)@, limit)
            ==> bounded(final(row)@, limit),
{
    let ghost before = row@;
    let (i, found) = locate(row, key);
    if found {
        proof {
            lemma_row_map_at(before, i as int);
        }
        match dup {
            Some(bin) => {
                let (k, stored) = row.remove(i);
                let combined = bin.op(stored, value);
                row.insert(i, (k, combined));
                proof {
                    assert(row@ =~= before.update(i as int, (key, combined)));
                    lemma_row_update(before, i as int, combined);
                }
            },
            None => {
                row.set(i, (key, value));
                proof {
                    lemma_row_update(before, i as int, value);
                }
            },
        }
    } else {
        row.insert(i, (key, value));
        proof {
            lemma_gap_absent(before, i as int, key);
            lemma_row_insert(before, i as int, key, value);
        }
    }
    proof {
        assert forall|limit: usize| key < limit && bounded(before, limit) implies bounded(
            row@,
            limit,
        ) by {
            assert forall|j: int| 0 <= j < row@.len() implies (#[trigger] row@[j]).0 < limit by {
                if j < i {
                    assert(row@[j] == before[j]);
                } else if j > i {
                    if found {
                        assert(row@[j] == before[j]);
                    } else {
                        assert(row@[j] == before[j - 1]);
                    }
                }
            }
        }
    }
    !found
}

/// Removes what a sorted row stores at `key`, if anything. Returns whether
/// the row has shrunk.
pub fn erase<T>(row: &mut Vec<(usize, T)>, key: usize) -> (shrunk: bool)
    requires
        sorted(old(row)@),
    ensures
        sorted(final(row)@),
        shrunk == row_map(old(row)@).contains_key(key),
        final(row)@.len() == old(row)@.len() - (if shrunk { 1int } else { 0int }),
        row_map(final(row)@) == row_map(old(row)@).remove(key),
        forall|limit: usize| bounded(old(row)@, limit) ==> bounded(final(row)@, limit),
{
    let ghost before = row@;
    let (i, found) = locate(row, key);
    if found {
        let _ = row.remove(i);
        proof {
            lemma_row_map_at(before, i as int);
            lemma_row_remove(before, i as int);
            assert forall|limit: usize| bounded(before, limit) implies bounded(row@, limit) by {
                assert forall|j: int| 0 <= j < row@.len() implies (#[trigger] row@[j]).0
                    < limit by {
                    if j < i {
                        assert(row@[j] == before[j]);
                    } else {
                        assert(row@[j] == before[j + 1]);
                    }
                }
            }
        }
    } else {
        proof {
            assert(row_map(before).remove(key) =~= row_map(before));
        }
    }
    found
}

/// Drops from a sorted row what it stores at `limit` or beyond. Returns how
/// many pairs were dropped.
pub fn cut<T>(row: &mut Vec<(usize, T)>, limit: usize) -> (dropped: usize)
    requires
        sorted(old(row)@),
    ensures
        sorted(final(row)@),
        bounded(final(row)@, limit),
        final(row)@.len() + dropped == old(row)@.len(),
        row_map(final(row)@) == row_map(old(row)@).restrict(Set::new(|k: usize| k < limit)),
{
    let ghost before = row@;
    let len = row.len();
    let (keep, found) = locate(row, limit);
    row.truncate(keep);
    proof {
        assert forall|j: int| keep <= j < before.len() implies (#[trigger] before[j]).0
            >= limit by {
            if found && j > keep {
                assert(before[keep as int].0 < before[j].0);
            }
        }
        assert(row@ =~= before.take(keep as int));
        lemma_row_take(before, keep as int, limit);
    }
    len - keep
}

/// What a sorted row stores at `key`, if anything.
pub fn lookup<T>(row: &Vec<(usize, T)>, key: usize) -> (r: Option<&T>)
    requires
        sorted(row@),
    ensures
        (r is Some) == row_map(row@).contains_key(key),
        r matches Some(v) ==> *v == row_map(row@)[key],
{
    let (i, found) = locate(row, key);
    if found {
        proof {
            lemma_row_map_at(row@, i as int);
        }
        Some(&row[i].1)
    } else {
        None
    }
}

} // verus!
