//! Bulk construction: what a container holds after a stream of triplets has
//! been merged into it, one after the other.
use vstd::prelude::*;
use crate::algebra::{Addition, BinaryOperator};

verus! {

/// What `m` holds after `(k, v)` has been merged into it: `v` where nothing
/// was stored at `k`, else the stored value combined with `v` by `dup`, the
/// stored value first.
pub open spec fn merge_one<K, T, Op: BinaryOperator<T, Output = T>>(
    m: Map<K, T>,
    k: K,
    v: T,
    dup: Op,
) -> Map<K, T> {
    if m.contains_key(k) {
        m.insert(k, dup.apply(m[k], v))
    } else {
        m.insert(k, v)
    }
}

/// What `m` holds after the first `n` triplets `(keys[i], vals[i])` have
/// been merged into it in the order of `i`.
pub open spec fn merged<K, T, Op: BinaryOperator<T, Output = T>>(
    m: Map<K, T>,
    keys: Seq<K>,
    vals: Seq<T>,
    dup: Op,
    n: nat,
) -> Map<K, T>
    decreases n,
{
    if n == 0 {
        m
    } else {
        merge_one(merged(m, keys, vals, dup, (n - 1) as nat), keys[n - 1], vals[n - 1], dup)
    }
}

/// Triplet `n` can be merged once those before it have been: `dup` is
/// defined on the value it meets, if it meets one.
pub open spec fn mergeable<K, T, Op: BinaryOperator<T, Output = T>>(
    m: Map<K, T>,
    keys: Seq<K>,
    vals: Seq<T>,
    dup: Op,
    n: nat,
) -> bool {
    let before = merged(m, keys, vals, dup, n);
    before.contains_key(keys[n as int]) ==> dup.defined(before[keys[n as int]], vals[n as int])
}

/// The number of triplets that two sequences of their parts give.
pub open spec fn triplet_count(keys: int, vals: int) -> nat {
    if keys <= vals {
        keys as nat
    } else {
        vals as nat
    }
}

/// Merging one triplet adds one position at most.
pub proof fn lemma_merge_one_len<K, T, Op: BinaryOperator<T, Output = T>>(
    m: Map<K, T>,
    k: K,
    v: T,
    dup: Op,
)
    requires
        m.dom().finite(),
    ensures
        merge_one(m, k, v, dup).dom().finite(),
        merge_one(m, k, v, dup).dom().len() <= m.dom().len() + 1,
        merge_one(m, k, v, dup).dom() == m.dom().insert(k),
{
    assert(merge_one(m, k, v, dup).dom() =~= m.dom().insert(k));
}

/// Two triplets that meet at one position leave one value there: `dup` of
/// the first and the second.
pub proof fn lemma_merged_pair<K, T, Op: BinaryOperator<T, Output = T>>(
    k: K,
    a: T,
    b: T,
    dup: Op,
)
    ensures
        merged(Map::<K, T>::empty(), seq![k, k], seq![a, b], dup, 2) == Map::<K, T>::empty().insert(
            k,
            dup.apply(a, b),
        ),
{
    let keys = seq![k, k];
    let vals = seq![a, b];
    let empty = Map::<K, T>::empty();
    reveal_with_fuel(merged, 3);
    assert(merged(empty, keys, vals, dup, 0) == empty);
    assert(merged(empty, keys, vals, dup, 1) == empty.insert(k, a));
    assert(merged(empty, keys, vals, dup, 2) =~= empty.insert(k, dup.apply(a, b)));
}

/// Two integers that meet at one position, merged by addition, leave their
/// sum there, whichever of them comes first.
pub proof fn lemma_merged_pair_by_addition<K>(k: K, a: i64, b: i64)
    requires
        i64::MIN <= a + b <= i64::MAX,
    ensures
        merged(Map::<K, i64>::empty(), seq![k, k], seq![a, b], Addition::<i64>::new(), 2) == Map::<
            K,
            i64,
        >::empty().insert(k, (a + b) as i64),
        merged(Map::<K, i64>::empty(), seq![k, k], seq![b, a], Addition::<i64>::new(), 2) == Map::<
            K,
            i64,
        >::empty().insert(k, (a + b) as i64),
{
    lemma_merged_pair(k, a, b, Addition::<i64>::new());
    lemma_merged_pair(k, b, a, Addition::<i64>::new());
}

} // verus!
