//! What the operations compute and what they write: the meaning of every
//! operation as a map from position to value.
use vstd::prelude::*;
use crate::algebra::{BinaryOperator, Monoid, Semiring, UnaryOperator};
use crate::backend::row::{row_map, sorted};
use crate::descriptor::Descriptor;
use crate::error::{refused, ApiError, ExecutionError, GblasError};
use crate::mask::{MatMask, VecMask};
use crate::matrix::Matrix;
use crate::types::{IndexType, NoValue};
use crate::vector::Vector;

verus! {

/// Whether the descriptor asks to read the negation of the mask.
pub open spec fn complemented(desc: Option<Descriptor>) -> bool {
    desc matches Some(d) && d.mask_complement
}

/// Whether the descriptor asks to clear the output where the mask does not
/// admit a write.
pub open spec fn replaces(desc: Option<Descriptor>) -> bool {
    desc matches Some(d) && d.replace_output
}

/// Whether the descriptor asks to read the first operand transposed.
pub open spec fn transposes_first(desc: Option<Descriptor>) -> bool {
    desc matches Some(d) && d.transpose_a
}

/// Whether the descriptor asks to read the second operand transposed.
pub open spec fn transposes_second(desc: Option<Descriptor>) -> bool {
    desc matches Some(d) && d.transpose_b
}

/// The positions at which an operation on a matrix may write: all of them
/// where no mask is given, else those where the mask reports `true`, or
/// `false` if the descriptor complements it.
pub open spec fn mat_admitted<M, Mk: MatMask<M>>(
    mask: Option<Mk>,
    desc: Option<Descriptor>,
) -> Set<(IndexType, IndexType)> {
    Set::new(
        |p: (IndexType, IndexType)|
            match mask {
                None => true,
                Some(m) => m.reports(p) != complemented(desc),
            },
    )
}

/// The positions at which an operation on a vector may write.
pub open spec fn vec_admitted<V, Mk: VecMask<V>>(
    mask: Option<Mk>,
    desc: Option<Descriptor>,
) -> Set<IndexType> {
    Set::new(
        |i: IndexType|
            match mask {
                None => true,
                Some(m) => m.reports(i) != complemented(desc),
            },
    )
}

/// A matrix read with rows and columns swapped.
pub open spec fn transposed<T>(m: Map<(IndexType, IndexType), T>) ->
    Map<(IndexType, IndexType), T> {
    Map::new(
        |p: (IndexType, IndexType)| m.contains_key((p.1, p.0)),
        |p: (IndexType, IndexType)| m[(p.1, p.0)],
    )
}

/// An operand as an operation reads it: transposed if `swap` is set.
pub open spec fn operand<T>(m: Map<(IndexType, IndexType), T>, swap: bool) -> Map<
    (IndexType, IndexType),
    T,
> {
    if swap {
        transposed(m)
    } else {
        m
    }
}

/// The dot product of row `i` of `a` with column `j` of `b` over the inner
/// indices below `n`, taken in increasing order: the products of the values
/// stored at `(i, k)` and at `(k, j)`, added up from the first; nothing
/// where no two stored values meet.
pub open spec fn dot<T, S: Semiring<T, Output = T>>(
    a: Map<(IndexType, IndexType), T>,
    b: Map<(IndexType, IndexType), T>,
    op: S,
    i: IndexType,
    j: IndexType,
    n: nat,
) -> Option<T>
    decreases n,
{
    if n == 0 {
        None
    } else {
        let k = (n - 1) as usize;
        let before = dot(a, b, op, i, j, (n - 1) as nat);
        if a.contains_key((i, k)) && b.contains_key((k, j)) {
            match before {
                Some(x) => Some(op.sum(x, op.product(a[(i, k)], b[(k, j)]))),
                None => Some(op.product(a[(i, k)], b[(k, j)])),
            }
        } else {
            before
        }
    }
}

/// Every multiplication and every addition that `dot` makes is defined.
pub open spec fn dot_defined<T, S: Semiring<T, Output = T>>(
    a: Map<(IndexType, IndexType), T>,
    b: Map<(IndexType, IndexType), T>,
    op: S,
    i: IndexType,
    j: IndexType,
    n: nat,
) -> bool
    decreases n,
{
    n == 0 || {
        let k = (n - 1) as usize;
        let before = dot(a, b, op, i, j, (n - 1) as nat);
        &&& dot_defined(a, b, op, i, j, (n - 1) as nat)
        &&& a.contains_key((i, k)) && b.contains_key((k, j)) ==> {
            &&& op.mult_defined(a[(i, k)], b[(k, j)])
            &&& before matches Some(x) ==> op.add_defined(x, op.product(a[(i, k)], b[(k, j)]))
        }
    }
}

/// The product of `a` and `b` over the semiring `op`, where `inner` is
/// their common dimension: at every position the dot product of the row of
/// `a` with the column of `b`, where there is one.
pub open spec fn product_map<T, S: Semiring<T, Output = T>>(
    a: Map<(IndexType, IndexType), T>,
    b: Map<(IndexType, IndexType), T>,
    op: S,
    inner: IndexType,
) -> Map<(IndexType, IndexType), T> {
    Map::new(
        |p: (IndexType, IndexType)| dot(a, b, op, p.0, p.1, inner as nat) is Some,
        |p: (IndexType, IndexType)| dot(a, b, op, p.0, p.1, inner as nat)->Some_0,
    )
}

/// Every operation of the semiring that the product of `a` and `b` takes is
/// defined.
pub open spec fn multipliable<T, S: Semiring<T, Output = T>>(
    a: Map<(IndexType, IndexType), T>,
    b: Map<(IndexType, IndexType), T>,
    op: S,
    inner: IndexType,
) -> bool {
    forall|i: IndexType, j: IndexType| #[trigger] dot_defined(a, b, op, i, j, inner as nat)
}

/// What the output holds once the result `t` of an operation that reaches
/// the positions of `region` only has been written into `c`. Where a
/// position is admitted and lies in the region, the output takes what `t`
/// stores there; with an accumulator it keeps what only `c` stores and
/// takes the accumulation, the value of `c` first, where both store a
/// value. Where a position is admitted and lies outside the region, the
/// output keeps what `c` stores. Where a position is not admitted, the
/// output keeps what `c` stores, or nothing if `replace` is set.
pub open spec fn assigned<P, T, Acc: BinaryOperator<T, Output = T>>(
    c: Map<P, T>,
    t: Map<P, T>,
    admitted: Set<P>,
    region: Set<P>,
    accum: Option<Acc>,
    replace: bool,
) -> Map<P, T> {
    Map::new(
        |p: P|
            if !admitted.contains(p) {
                !replace && c.contains_key(p)
            } else if !region.contains(p) {
                c.contains_key(p)
            } else {
                t.contains_key(p) || (accum is Some && c.contains_key(p))
            },
        |p: P|
            if !admitted.contains(p) || !region.contains(p) || !t.contains_key(p) {
                c[p]
            } else if c.contains_key(p) && accum is Some {
                accum->Some_0.apply(c[p], t[p])
            } else {
                t[p]
            },
    )
}

/// What the output holds once the result `t` of an operation that reaches
/// every position has been written into `c`.
pub open spec fn written<P, T, Acc: BinaryOperator<T, Output = T>>(
    c: Map<P, T>,
    t: Map<P, T>,
    admitted: Set<P>,
    accum: Option<Acc>,
    replace: bool,
) -> Map<P, T> {
    assigned(c, t, admitted, Set::full(), accum, replace)
}

/// The accumulator is defined wherever writing `t` into `c` applies it.
pub open spec fn accumulable<P, T, Acc: BinaryOperator<T, Output = T>>(
    c: Map<P, T>,
    t: Map<P, T>,
    admitted: Set<P>,
    accum: Option<Acc>,
) -> bool {
    accum matches Some(op) ==> forall|p: P|
        admitted.contains(p) && c.contains_key(p) && t.contains_key(p) ==> #[trigger] op.defined(
            c[p],
            t[p],
        )
}

/// The element-wise union of `v1` and `v2`: where only one of them stores
/// a value it passes through, where both do the two values are combined,
/// that of `v1` first.
pub open spec fn union_with<K, T, Op: BinaryOperator<T, Output = T>>(
    v1: Map<K, T>,
    v2: Map<K, T>,
    op: Op,
) -> Map<K, T> {
    Map::new(
        |k: K| v1.contains_key(k) || v2.contains_key(k),
        |k: K|
            if !v2.contains_key(k) {
                v1[k]
            } else if v1.contains_key(k) {
                op.apply(v1[k], v2[k])
            } else {
                v2[k]
            },
    )
}

/// The element-wise intersection of `v1` and `v2`: where both store a
/// value the two are combined, that of `v1` first; nothing elsewhere.
pub open spec fn intersect_with<K, T, Op: BinaryOperator<T, Output = T>>(
    v1: Map<K, T>,
    v2: Map<K, T>,
    op: Op,
) -> Map<K, T> {
    Map::new(
        |k: K| v1.contains_key(k) && v2.contains_key(k),
        |k: K| op.apply(v1[k], v2[k]),
    )
}

/// `op` is defined wherever `v1` and `v2` both store a value.
pub open spec fn combinable<K, T, Op: BinaryOperator<T, Output = T>>(
    v1: Map<K, T>,
    v2: Map<K, T>,
    op: Op,
) -> bool {
    forall|k: K| v1.contains_key(k) && v2.contains_key(k) ==> #[trigger] op.defined(v1[k], v2[k])
}

/// Every stored value of `m` mapped through the unary operator `Op`.
pub open spec fn applied<K, T, Op: UnaryOperator<T>>(m: Map<K, T>) -> Map<K, T> {
    Map::new(|k: K| m.contains_key(k), |k: K| Op::apply(m[k]))
}

/// `Op` is defined on every stored value of `m`.
pub open spec fn appliable<K, T, Op: UnaryOperator<T>>(m: Map<K, T>) -> bool {
    forall|k: K| m.contains_key(k) ==> Op::defined(#[trigger] m[k])
}

/// Every stored value `x` of `m` mapped to `op(value, x)`.
pub open spec fn applied_first<K, T, Op: BinaryOperator<T, Output = T>>(
    m: Map<K, T>,
    op: Op,
    value: T,
) -> Map<K, T> {
    Map::new(|k: K| m.contains_key(k), |k: K| op.apply(value, m[k]))
}

/// `op(value, x)` is defined for every stored value `x` of `m`.
pub open spec fn appliable_first<K, T, Op: BinaryOperator<T, Output = T>>(
    m: Map<K, T>,
    op: Op,
    value: T,
) -> bool {
    forall|k: K| m.contains_key(k) ==> op.defined(value, #[trigger] m[k])
}

/// Every stored value `x` of `m` mapped to `op(x, value)`.
pub open spec fn applied_second<K, T, Op: BinaryOperator<T, Output = T>>(
    m: Map<K, T>,
    op: Op,
    value: T,
) -> Map<K, T> {
    Map::new(|k: K| m.contains_key(k), |k: K| op.apply(m[k], value))
}

/// `op(x, value)` is defined for every stored value `x` of `m`.
pub open spec fn appliable_second<K, T, Op: BinaryOperator<T, Output = T>>(
    m: Map<K, T>,
    op: Op,
    value: T,
) -> bool {
    forall|k: K| m.contains_key(k) ==> op.defined(#[trigger] m[k], value)
}

/// The selection of `a` at the rows `rows` and the columns `cols`: at
/// `(i, j)` what `a` stores at `(rows[i], cols[j])`.
pub open spec fn extracted<T>(
    a: Map<(IndexType, IndexType), T>,
    rows: Seq<IndexType>,
    cols: Seq<IndexType>,
) -> Map<(IndexType, IndexType), T> {
    Map::new(
        |p: (IndexType, IndexType)|
            p.0 < rows.len() && p.1 < cols.len() && a.contains_key(
                (rows[p.0 as int], cols[p.1 as int]),
            ),
        |p: (IndexType, IndexType)| a[(rows[p.0 as int], cols[p.1 as int])],
    )
}

/// The Kronecker product of `a` and `b`, where `b` has `b_rows` rows and
/// `b_cols` columns: at `(ia * b_rows + ib, ja * b_cols + jb)` the value
/// `op` of what `a` stores at `(ia, ja)` and what `b` stores at `(ib, jb)`.
pub open spec fn kronecker<T, Op: BinaryOperator<T, Output = T>>(
    a: Map<(IndexType, IndexType), T>,
    b: Map<(IndexType, IndexType), T>,
    op: Op,
    b_rows: IndexType,
    b_cols: IndexType,
) -> Map<(IndexType, IndexType), T> {
    Map::new(
        |p: (IndexType, IndexType)|
            b_rows > 0 && b_cols > 0 && a.contains_key((p.0 / b_rows, p.1 / b_cols))
                && b.contains_key((p.0 % b_rows, p.1 % b_cols)),
        |p: (IndexType, IndexType)|
            op.apply(a[(p.0 / b_rows, p.1 / b_cols)], b[(p.0 % b_rows, p.1 % b_cols)]),
    )
}

/// `op` is defined on every stored value of `a` with every stored value of
/// `b`.
pub open spec fn pairable<K, T, Op: BinaryOperator<T, Output = T>>(
    a: Map<K, T>,
    b: Map<K, T>,
    op: Op,
) -> bool {
    forall|p: K, q: K| a.contains_key(p) && b.contains_key(q) ==> #[trigger] op.defined(a[p], b[q])
}

/// The positions that lists of rows and of columns name together.
pub open spec fn region(rows: Seq<IndexType>, cols: Seq<IndexType>) -> Set<
    (IndexType, IndexType),
> {
    Set::new(|p: (IndexType, IndexType)| rows.contains(p.0) && cols.contains(p.1))
}

/// `(i, j)` is where `a` stores the value that goes to position `p`.
pub open spec fn sent<T>(
    a: Map<(IndexType, IndexType), T>,
    rows: Seq<IndexType>,
    cols: Seq<IndexType>,
    p: (IndexType, IndexType),
    i: IndexType,
    j: IndexType,
) -> bool {
    i < rows.len() && j < cols.len() && rows[i as int] == p.0 && cols[j as int] == p.1
        && a.contains_key((i, j))
}

/// `a` scattered to the rows `rows` and the columns `cols`: at
/// `(rows[i], cols[j])` what `a` stores at `(i, j)`. No row and no column
/// is to be named twice.
pub open spec fn scattered<T>(
    a: Map<(IndexType, IndexType), T>,
    rows: Seq<IndexType>,
    cols: Seq<IndexType>,
) -> Map<(IndexType, IndexType), T> {
    Map::new(
        |p: (IndexType, IndexType)|
            exists|i: IndexType, j: IndexType| #[trigger] sent(a, rows, cols, p, i, j),
        |p: (IndexType, IndexType)|
            a[choose|q: (IndexType, IndexType)| #[trigger] sent(a, rows, cols, p, q.0, q.1)],
    )
}

/// One value at every position of a region.
pub open spec fn filled<T>(value: T, region: Set<(IndexType, IndexType)>) -> Map<
    (IndexType, IndexType),
    T,
> {
    Map::new(|p: (IndexType, IndexType)| region.contains(p), |p: (IndexType, IndexType)| value)
}

/// The first `n` values combined by a monoid, from its identity on and in
/// the order of the sequence.
pub open spec fn folded<T, Mo: Monoid<T>>(values: Seq<T>, op: Mo, n: nat) -> T
    decreases n,
{
    if n == 0 {
        op.unit()
    } else {
        op.combine(folded(values, op, (n - 1) as nat), values[n - 1])
    }
}

/// The monoid is defined wherever folding the first `n` values applies it.
pub open spec fn foldable<T, Mo: Monoid<T>>(values: Seq<T>, op: Mo, n: nat) -> bool
    decreases n,
{
    n == 0 || (foldable(values, op, (n - 1) as nat) && op.defined(
        folded(values, op, (n - 1) as nat),
        values[n - 1],
    ))
}

/// The values combined by a binary operator, from the first on and in the
/// order of the sequence. The sequence is not to be empty.
pub open spec fn chained<T, Op: BinaryOperator<T, Output = T>>(
    values: Seq<T>,
    op: Op,
    n: nat,
) -> T
    decreases n,
{
    if n <= 1 {
        values[0]
    } else {
        op.apply(chained(values, op, (n - 1) as nat), values[n - 1])
    }
}

/// The operator is defined wherever chaining the first `n` values applies
/// it.
pub open spec fn chainable<T, Op: BinaryOperator<T, Output = T>>(
    values: Seq<T>,
    op: Op,
    n: nat,
) -> bool
    decreases n,
{
    n <= 1 || (chainable(values, op, (n - 1) as nat) && op.defined(
        chained(values, op, (n - 1) as nat),
        values[n - 1],
    ))
}

/// The sorted row that stands for what a vector stores.
pub open spec fn listed_row<T>(m: Map<IndexType, T>) -> Seq<(IndexType, T)> {
    choose|row: Seq<(IndexType, T)>| sorted(row) && row_map(row) == m
}

/// The values of a row, in its order.
pub open spec fn row_values<T>(row: Seq<(IndexType, T)>) -> Seq<T> {
    Seq::new(row.len(), |i: int| row[i].1)
}

/// The stored values of a vector in increasing order of position.
pub open spec fn listed_values<T>(m: Map<IndexType, T>) -> Seq<T> {
    row_values(listed_row(m))
}

/// Every row of a matrix that stores a value, folded into one value by a
/// monoid, in increasing order of column.
pub open spec fn rows_folded<T, Mo: Monoid<T>>(m: Map<(IndexType, IndexType), T>, op: Mo) -> Map<
    IndexType,
    T,
> {
    Map::new(
        |i: IndexType| exists|j: IndexType| m.contains_key((i, j)),
        |i: IndexType|
            folded(listed_values(row_of(m, i)), op, listed_values(row_of(m, i)).len()),
    )
}

/// Every row of a matrix that stores a value, chained into one value by a
/// binary operator, in increasing order of column.
pub open spec fn rows_chained<T, Op: BinaryOperator<T, Output = T>>(
    m: Map<(IndexType, IndexType), T>,
    op: Op,
) -> Map<IndexType, T> {
    Map::new(
        |i: IndexType| exists|j: IndexType| m.contains_key((i, j)),
        |i: IndexType|
            chained(listed_values(row_of(m, i)), op, listed_values(row_of(m, i)).len()),
    )
}

/// All the values combined by a monoid, from its identity on.
pub open spec fn folded_all<T, Mo: Monoid<T>>(values: Seq<T>, op: Mo) -> T {
    folded(values, op, values.len())
}

/// The monoid is defined wherever folding all the values applies it.
pub open spec fn foldable_all<T, Mo: Monoid<T>>(values: Seq<T>, op: Mo) -> bool {
    foldable(values, op, values.len())
}

/// The operator is defined wherever chaining all the values applies it.
pub open spec fn chainable_all<T, Op: BinaryOperator<T, Output = T>>(
    values: Seq<T>,
    op: Op,
) -> bool {
    chainable(values, op, values.len())
}

/// What a reduction leaves in the scalar that it is given: the reduced
/// value, or with an accumulator the accumulation of the old value and the
/// reduced one.
pub open spec fn reduced<T, Acc: BinaryOperator<T, Output = T>>(
    old: T,
    got: T,
    accum: Option<Acc>,
) -> T {
    match accum {
        Some(f) => f.apply(old, got),
        None => got,
    }
}

/// How an operation on a matrix ends once its operands conform: with the
/// matrix well formed and of the same dimensions, `target` stored where a
/// count can tell how many values that is, and the matrix unchanged with
/// an out-of-memory failure where none can.
pub open spec fn mat_outcome<M: Matrix>(
    before: M,
    after: M,
    r: Result<NoValue, GblasError>,
    target: Map<(IndexType, IndexType), M::Scalar>,
) -> bool {
    &&& after.wf()
    &&& after.row_dim() == before.row_dim()
    &&& after.col_dim() == before.col_dim()
    &&& target.dom().finite()
    &&& target.dom().len() <= usize::MAX ==> r is Ok && after.entries() == target
    &&& target.dom().len() > usize::MAX ==> r == Err::<NoValue, GblasError>(
        GblasError::ExecutionError(ExecutionError::OutOfMemory),
    ) && after == before
}

/// An operation refused an index list that names a position twice: the
/// failure is an invalid value and the output is unchanged.
pub open spec fn repeated<C>(before: C, after: C, r: Result<NoValue, GblasError>) -> bool {
    refused(before, after, r, ApiError::InvalidValue)
}

/// An operation refused an index list: the failure is an invalid index and
/// the output is unchanged.
pub open spec fn misindexed<C>(before: C, after: C, r: Result<NoValue, GblasError>) -> bool {
    refused(before, after, r, ApiError::InvalidIndex)
}

/// An operation refused its operands: the failure is a dimension mismatch
/// and the output is unchanged.
pub open spec fn mismatch<C>(before: C, after: C, r: Result<NoValue, GblasError>) -> bool {
    refused(before, after, r, ApiError::DimensionMismatch)
}

/// The rows of a matrix as an operation reads it.
pub open spec fn operand_rows<M: Matrix>(m: &M, swap: bool) -> IndexType {
    if swap {
        m.col_dim()
    } else {
        m.row_dim()
    }
}

/// The columns of a matrix as an operation reads it.
pub open spec fn operand_cols<M: Matrix>(m: &M, swap: bool) -> IndexType {
    if swap {
        m.row_dim()
    } else {
        m.col_dim()
    }
}

/// Every position of the list lies below `dim`.
pub open spec fn named_within(list: Seq<IndexType>, dim: IndexType) -> bool {
    forall|i: int| 0 <= i < list.len() ==> list[i] < dim
}

/// No position is in the list twice.
pub open spec fn named_once(list: Seq<IndexType>) -> bool {
    forall|i: int, j: int| 0 <= i < j < list.len() ==> list[i] != list[j]
}

/// How an assignment of `a` to the rows `rows` and the columns `cols` of a
/// matrix ends. It is refused with a dimension mismatch where `a` has not
/// as many rows and columns as the lists name, else with an invalid index
/// where a position named lies outside the matrix, else with an invalid
/// value where a list names a position twice. Else the values of `a` are
/// written to the positions named, and the matrix keeps what it stores
/// elsewhere.
pub open spec fn assignment<C: Matrix, Acc: BinaryOperator<C::Scalar, Output = C::Scalar>>(
    before: C,
    after: C,
    r: Result<NoValue, GblasError>,
    a: Map<(IndexType, IndexType), C::Scalar>,
    a_rows: IndexType,
    a_cols: IndexType,
    rows: Seq<IndexType>,
    cols: Seq<IndexType>,
    admitted: Set<(IndexType, IndexType)>,
    accum: Option<Acc>,
    replace: bool,
) -> bool {
    if !(rows.len() == a_rows && cols.len() == a_cols) {
        mismatch(before, after, r)
    } else if !(named_within(rows, before.row_dim()) && named_within(cols, before.col_dim())) {
        misindexed(before, after, r)
    } else if !(named_once(rows) && named_once(cols)) {
        repeated(before, after, r)
    } else {
        mat_outcome(
            before,
            after,
            r,
            assigned(
                before.entries(),
                scattered(a, rows, cols),
                admitted,
                region(rows, cols),
                accum,
                replace,
            ),
        )
    }
}

/// How an operation on a vector ends once its operands conform: with the
/// vector well formed and of the same dimension, and `target` stored.
pub open spec fn vec_outcome<V: Vector>(
    before: V,
    after: V,
    r: Result<NoValue, GblasError>,
    target: Map<IndexType, V::Scalar>,
) -> bool {
    &&& r is Ok
    &&& after.wf()
    &&& after.dim() == before.dim()
    &&& after.entries() == target
}

/// A vector as the one row of a matrix.
pub open spec fn as_row<T>(u: Map<IndexType, T>) -> Map<(IndexType, IndexType), T> {
    Map::new(|p: (IndexType, IndexType)| p.0 == 0
        && u.contains_key(p.1), |p: (IndexType, IndexType)| u[p.1])
}

/// A vector as the one column of a matrix.
pub open spec fn as_col<T>(u: Map<IndexType, T>) -> Map<(IndexType, IndexType), T> {
    Map::new(|p: (IndexType, IndexType)| p.1 == 0
        && u.contains_key(p.0), |p: (IndexType, IndexType)| u[p.0])
}

/// The one row of a matrix as a vector.
pub open spec fn row_zero<T>(m: Map<(IndexType, IndexType), T>) -> Map<IndexType, T> {
    Map::new(|j: IndexType| m.contains_key((0, j)), |j: IndexType| m[(0, j)])
}

/// The one column of a matrix as a vector.
pub open spec fn col_zero<T>(m: Map<(IndexType, IndexType), T>) -> Map<IndexType, T> {
    Map::new(|i: IndexType| m.contains_key((i, 0)), |i: IndexType| m[(i, 0)])
}

/// The Kronecker product of the vectors `a` and `b`, where `b` has the
/// dimension `b_dim`: at `ia * b_dim + ib` the value `op` of what `a`
/// stores at `ia` and what `b` stores at `ib`.
pub open spec fn vec_kronecker<T, Op: BinaryOperator<T, Output = T>>(
    a: Map<IndexType, T>,
    b: Map<IndexType, T>,
    op: Op,
    b_dim: IndexType,
) -> Map<IndexType, T> {
    Map::new(
        |k: IndexType| b_dim > 0 && a.contains_key(k / b_dim) && b.contains_key(k % b_dim),
        |k: IndexType| op.apply(a[k / b_dim], b[k % b_dim]),
    )
}

/// The selection of the vector `u` at the positions `list`: at `i` what
/// `u` stores at `list[i]`.
pub open spec fn vec_extracted<T>(u: Map<IndexType, T>, list: Seq<IndexType>) -> Map<
    IndexType,
    T,
> {
    Map::new(
        |i: IndexType| i < list.len() && u.contains_key(list[i as int]),
        |i: IndexType| u[list[i as int]],
    )
}

/// Column `j` of a matrix as a vector.
pub open spec fn column_of<T>(m: Map<(IndexType, IndexType), T>, j: IndexType) -> Map<
    IndexType,
    T,
> {
    Map::new(|i: IndexType| m.contains_key((i, j)), |i: IndexType| m[(i, j)])
}

/// Row `i` of a matrix as a vector.
pub open spec fn row_of<T>(m: Map<(IndexType, IndexType), T>, i: IndexType) -> Map<
    IndexType,
    T,
> {
    Map::new(|j: IndexType| m.contains_key((i, j)), |j: IndexType| m[(i, j)])
}

/// `i` is where `u` stores the value that goes to position `k`.
pub open spec fn vec_sent<T>(
    u: Map<IndexType, T>,
    list: Seq<IndexType>,
    k: IndexType,
    i: IndexType,
) -> bool {
    i < list.len() && list[i as int] == k && u.contains_key(i)
}

/// The vector `u` scattered to the positions `list`: at `list[i]` what `u`
/// stores at `i`. No position is to be named twice.
pub open spec fn vec_scattered<T>(u: Map<IndexType, T>, list: Seq<IndexType>) -> Map<
    IndexType,
    T,
> {
    Map::new(
        |k: IndexType| exists|i: IndexType| #[trigger] vec_sent(u, list, k, i),
        |k: IndexType| u[choose|i: IndexType| #[trigger] vec_sent(u, list, k, i)],
    )
}

/// The positions that a list names.
pub open spec fn vec_region(list: Seq<IndexType>) -> Set<IndexType> {
    Set::new(|k: IndexType| list.contains(k))
}

/// One value at every position of a region of a vector.
pub open spec fn vec_filled<T>(value: T, region: Set<IndexType>) -> Map<IndexType, T> {
    Map::new(|k: IndexType| region.contains(k), |k: IndexType| value)
}

/// How an assignment of the vector `u` to the positions `list` of a vector
/// ends. It is refused with a dimension mismatch where `u` has not as many
/// positions as the list names, else with an invalid index where a
/// position named lies outside the vector, else with an invalid value
/// where the list names a position twice. Else the values of `u` are
/// written to the positions named, and the vector keeps what it stores
/// elsewhere.
pub open spec fn vec_assignment<C: Vector, Acc: BinaryOperator<C::Scalar, Output = C::Scalar>>(
    before: C,
    after: C,
    r: Result<NoValue, GblasError>,
    u: Map<IndexType, C::Scalar>,
    u_dim: IndexType,
    list: Seq<IndexType>,
    admitted: Set<IndexType>,
    accum: Option<Acc>,
    replace: bool,
) -> bool {
    if list.len() != u_dim {
        mismatch(before, after, r)
    } else if !named_within(list, before.dim()) {
        misindexed(before, after, r)
    } else if !named_once(list) {
        repeated(before, after, r)
    } else {
        vec_outcome(
            before,
            after,
            r,
            assigned(
                before.entries(),
                vec_scattered(u, list),
                admitted,
                vec_region(list),
                accum,
                replace,
            ),
        )
    }
}

/// The first operand as an operation reads it: transposed if the
/// descriptor says so of the first operand.
pub open spec fn first_operand<A: Matrix>(a: &A, desc: Option<Descriptor>) -> Map<
    (IndexType, IndexType),
    A::Scalar,
> {
    operand(a.entries(), transposes_first(desc))
}

/// The second operand as an operation reads it: transposed if the
/// descriptor says so of the second operand.
pub open spec fn second_operand<B: Matrix>(b: &B, desc: Option<Descriptor>) -> Map<
    (IndexType, IndexType),
    B::Scalar,
> {
    operand(b.entries(), transposes_second(desc))
}

/// The rows of the first operand as an operation reads it.
pub open spec fn first_rows<A: Matrix>(a: &A, desc: Option<Descriptor>) -> IndexType {
    operand_rows(a, transposes_first(desc))
}

/// The columns of the first operand as an operation reads it.
pub open spec fn first_cols<A: Matrix>(a: &A, desc: Option<Descriptor>) -> IndexType {
    operand_cols(a, transposes_first(desc))
}

/// The rows of the second operand as an operation reads it.
pub open spec fn second_rows<B: Matrix>(b: &B, desc: Option<Descriptor>) -> IndexType {
    operand_rows(b, transposes_second(desc))
}

/// The columns of the second operand as an operation reads it.
pub open spec fn second_cols<B: Matrix>(b: &B, desc: Option<Descriptor>) -> IndexType {
    operand_cols(b, transposes_second(desc))
}

/// The first operand, as an operation reads it, has the dimensions of the
/// output.
pub open spec fn shaped_as_first<C: Matrix, A: Matrix>(
    c: &C,
    a: &A,
    desc: Option<Descriptor>,
) -> bool {
    same_shape(c, a, transposes_first(desc))
}

/// The second operand, as an operation reads it, has the dimensions of the
/// output.
pub open spec fn shaped_as_second<C: Matrix, B: Matrix>(
    c: &C,
    b: &B,
    desc: Option<Descriptor>,
) -> bool {
    same_shape(c, b, transposes_second(desc))
}

/// What a matrix holds once the result `t` has been written into it under
/// the mask, the accumulator and the descriptor.
pub open spec fn mat_written<C: Matrix, Mk: MatMask<C>, Acc: BinaryOperator<
    C::Scalar,
    Output = C::Scalar,
>>(
    before: C,
    t: Map<(IndexType, IndexType), C::Scalar>,
    mask: Option<Mk>,
    accum: Option<Acc>,
    desc: Option<Descriptor>,
) -> Map<(IndexType, IndexType), C::Scalar> {
    written(before.entries(), t, mat_admitted(mask, desc), accum, replaces(desc))
}

/// The accumulator is defined wherever writing `t` into the matrix applies
/// it.
pub open spec fn mat_writable<C: Matrix, Mk: MatMask<C>, Acc: BinaryOperator<
    C::Scalar,
    Output = C::Scalar,
>>(
    before: C,
    t: Map<(IndexType, IndexType), C::Scalar>,
    mask: Option<Mk>,
    accum: Option<Acc>,
    desc: Option<Descriptor>,
) -> bool {
    accumulable(before.entries(), t, mat_admitted(mask, desc), accum)
}

/// What a matrix holds once the result `t`, which reaches the positions of
/// `region` only, has been written into it under the mask, the
/// accumulator and the descriptor.
pub open spec fn mat_assigned<C: Matrix, Mk: MatMask<C>, Acc: BinaryOperator<
    C::Scalar,
    Output = C::Scalar,
>>(
    before: C,
    t: Map<(IndexType, IndexType), C::Scalar>,
    region: Set<(IndexType, IndexType)>,
    mask: Option<Mk>,
    accum: Option<Acc>,
    desc: Option<Descriptor>,
) -> Map<(IndexType, IndexType), C::Scalar> {
    assigned(before.entries(), t, mat_admitted(mask, desc), region, accum, replaces(desc))
}

/// What a vector holds once the result `t` has been written into it under
/// the mask, the accumulator and the descriptor.
pub open spec fn vec_written<C: Vector, Mk: VecMask<C>, Acc: BinaryOperator<
    C::Scalar,
    Output = C::Scalar,
>>(
    before: C,
    t: Map<IndexType, C::Scalar>,
    mask: Option<Mk>,
    accum: Option<Acc>,
    desc: Option<Descriptor>,
) -> Map<IndexType, C::Scalar> {
    written(before.entries(), t, vec_admitted(mask, desc), accum, replaces(desc))
}

/// The accumulator is defined wherever writing `t` into the vector applies
/// it.
pub open spec fn vec_writable<C: Vector, Mk: VecMask<C>, Acc: BinaryOperator<
    C::Scalar,
    Output = C::Scalar,
>>(
    before: C,
    t: Map<IndexType, C::Scalar>,
    mask: Option<Mk>,
    accum: Option<Acc>,
    desc: Option<Descriptor>,
) -> bool {
    accumulable(before.entries(), t, vec_admitted(mask, desc), accum)
}

/// What a vector holds once the result `t`, which reaches the positions of
/// `region` only, has been written into it under the mask, the
/// accumulator and the descriptor.
pub open spec fn vec_assigned<C: Vector, Mk: VecMask<C>, Acc: BinaryOperator<
    C::Scalar,
    Output = C::Scalar,
>>(
    before: C,
    t: Map<IndexType, C::Scalar>,
    region: Set<IndexType>,
    mask: Option<Mk>,
    accum: Option<Acc>,
    desc: Option<Descriptor>,
) -> Map<IndexType, C::Scalar> {
    assigned(before.entries(), t, vec_admitted(mask, desc), region, accum, replaces(desc))
}

/// An operand, as an operation reads it, has the dimensions of the output.
pub open spec fn same_shape<C: Matrix, A: Matrix>(c: &C, a: &A, swap: bool) -> bool {
    operand_rows(a, swap) == c.row_dim() && operand_cols(a, swap) == c.col_dim()
}

/// Transposing twice gives the matrix back.
pub proof fn lemma_transposed_twice<T>(m: Map<(IndexType, IndexType), T>)
    ensures
        transposed(transposed(m)) == m,
{
    assert(transposed(transposed(m)) =~= m);
}

/// Without a mask every position is admitted, whatever the descriptor
/// says.
pub proof fn lemma_unmasked<M, Mk: MatMask<M>>(desc: Option<Descriptor>)
    ensures
        mat_admitted(None::<Mk>, desc) == Set::<(IndexType, IndexType)>::full(),
{
    assert(mat_admitted(None::<Mk>, desc) =~= Set::<(IndexType, IndexType)>::full());
}

/// A generalized product written without a mask and without an accumulator
/// is the dense triple loop over what the operands store: the output then
/// stores, at every position `(i, j)`, the products of the values that `a`
/// stores at `(i, k)` and `b` at `(k, j)`, added up in increasing order of
/// `k`; and nothing where no two stored values meet.
pub proof fn lemma_plain_product<
    T,
    S: Semiring<T, Output = T>,
    M,
    Mk: MatMask<M>,
    Acc: BinaryOperator<T, Output = T>,
>(
    c: Map<(IndexType, IndexType), T>,
    a: Map<(IndexType, IndexType), T>,
    b: Map<(IndexType, IndexType), T>,
    op: S,
    inner: IndexType,
    desc: Option<Descriptor>,
)
    ensures
        written(
            c,
            product_map(a, b, op, inner),
            mat_admitted(None::<Mk>, desc),
            None::<Acc>,
            replaces(desc),
        ) == product_map(a, b, op, inner),
        forall|i: IndexType, j: IndexType| #[trigger]
            product_map(a, b, op, inner).contains_key((i, j)) <==> dot(
                a,
                b,
                op,
                i,
                j,
                inner as nat,
            ) is Some,
        forall|i: IndexType, j: IndexType|
            product_map(a, b, op, inner).contains_key((i, j)) ==> Some(
                #[trigger] product_map(a, b, op, inner)[(i, j)],
            ) == dot(a, b, op, i, j, inner as nat),
{
    lemma_unmasked::<M, Mk>(desc);
    lemma_written_plainly::<(IndexType, IndexType), T, Acc>(
        c,
        product_map(a, b, op, inner),
        replaces(desc),
    );
}

/// Without a mask and without an accumulator, what is written is the
/// result of the operation.
pub proof fn lemma_written_plainly<P, T, Acc: BinaryOperator<T, Output = T>>(
    c: Map<P, T>,
    t: Map<P, T>,
    replace: bool,
)
    ensures
        written(c, t, Set::<P>::full(), None::<Acc>, replace) == t,
{
    assert(written(c, t, Set::<P>::full(), None::<Acc>, replace) =~= t);
}

} // verus!
