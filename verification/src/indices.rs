use vstd::prelude::*;
use crate::algebra::First;
use crate::backend::row::{lemma_row_map_empty, row_map, search, sorted, upsert};
use crate::types::IndexType;

verus! {

/// The positions that an extraction or an assignment names: all of a
/// dimension in order, or an explicit list.
#[derive(Debug, Clone, PartialEq)]
pub enum Indices {
    /// Every position of the dimension, in order.
    All,
    /// The positions of the list, in its order.
    List(Vec<IndexType>),
}

impl Indices {
    /// The positions named within a dimension of `dim`.
    pub open spec fn resolve(&self, dim: usize) -> Seq<usize> {
        match self {
            Indices::All => Seq::new(dim as nat, |i: int| i as usize),
            Indices::List(list) => list@,
        }
    }

    /// Every position named lies below `dim`.
    pub open spec fn within(&self, dim: usize) -> bool {
        forall|i: int| 0 <= i < self.resolve(dim).len() ==> self.resolve(dim)[i] < dim
    }

    /// How many positions are named within a dimension of `dim`.
    pub fn count(&self, dim: IndexType) -> (n: usize)
        ensures
            n == self.resolve(dim).len(),
    {
        match self {
            Indices::All => dim,
            Indices::List(list) => list.len(),
        }
    }

    /// The `i`-th position named within a dimension of `dim`.
    pub fn get(&self, i: usize, dim: IndexType) -> (k: IndexType)
        requires
            i < self.resolve(dim).len(),
        ensures
            k == self.resolve(dim)[i as int],
    {
        match self {
            Indices::All => i,
            Indices::List(list) => list[i],
        }
    }

    /// Whether every position named lies below `dim`.
    pub fn check(&self, dim: IndexType) -> (ok: bool)
        ensures
            ok == self.within(dim),
    {
        match self {
            Indices::All => true,
            Indices::List(list) => {
                let mut i: usize = 0;
                while i < list.len()
                    invariant
                        i <= list@.len(),
                        self.resolve(dim) == list@,
                        forall|j: int| 0 <= j < i ==> list@[j] < dim,
                    decreases list@.len() - i,
                {
                    if list[i] >= dim {
                        assert(self.resolve(dim)[i as int] >= dim);
                        return false;
                    }
                    i += 1;
                }
                true
            },
        }
    }
}

/// The positions that an index list names, kept for looking one up.
pub struct IndexSet {
    all: bool,
    members: Vec<(IndexType, ())>,
}

impl IndexSet {
    /// The invariant of the representation.
    pub closed spec fn wf(&self) -> bool {
        sorted(self.members@)
    }

    /// Whether the set holds `k`.
    pub closed spec fn holds(&self, k: IndexType) -> bool {
        self.all || row_map(self.members@).contains_key(k)
    }

    /// The set of every position.
    pub fn all() -> (s: Self)
        ensures
            s.wf(),
            forall|k: IndexType| s.holds(k),
    {
        proof {
            lemma_row_map_empty::<()>();
        }
        IndexSet { all: true, members: Vec::new() }
    }

    /// The set of the positions in a list.
    pub fn of(list: &Vec<IndexType>) -> (s: Self)
        ensures
            s.wf(),
            forall|k: IndexType| #[trigger] s.holds(k) == list@.contains(k),
    {
        let mut members: Vec<(IndexType, ())> = Vec::new();
        let mut i: usize = 0;
        proof {
            lemma_row_map_empty::<()>();
        }
        while i < list.len()
            invariant
                i <= list@.len(),
                sorted(members@),
                forall|k: usize| #[trigger]
                    row_map(members@).contains_key(k) <==> exists|a: int|
                        0 <= a < i && list@[a] == k,
            decreases list@.len() - i,
        {
            let ghost before = row_map(members@);
            let _ = upsert(&mut members, list[i], (), Option::<&First<()>>::None);
            proof {
                assert forall|k: usize| #[trigger]
                    row_map(members@).contains_key(k) <==> exists|a: int|
                        0 <= a < i + 1 && list@[a] == k by {
                    if before.contains_key(k) {
                        let a = choose|a: int| 0 <= a < i && list@[a] == k;
                        assert(0 <= a < i + 1 && list@[a] == k);
                    }
                    if k == list@[i as int] {
                        assert(0 <= i < i + 1 && list@[i as int] == k);
                    }
                    if exists|a: int| 0 <= a < i + 1 && list@[a] == k {
                        let a = choose|a: int| 0 <= a < i + 1 && list@[a] == k;
                        if a < i {
                            assert(before.contains_key(k));
                        }
                    }
                }
            }
            i += 1;
        }
        let s = IndexSet { all: false, members };
        proof {
            assert forall|k: IndexType| #[trigger] s.holds(k) == list@.contains(k) by {
                if list@.contains(k) {
                    let a = choose|a: int| 0 <= a < list@.len() && list@[a] == k;
                    assert(0 <= a < i && list@[a] == k);
                }
            }
        }
        s
    }

    /// Whether the set holds `k`.
    pub fn contains(&self, k: IndexType) -> (b: bool)
        requires
            self.wf(),
        ensures
            b == self.holds(k),
    {
        if self.all {
            return true;
        }
        let (_, found) = search(&self.members, k);
        found
    }
}

impl Indices {
    /// No position is named twice.
    pub open spec fn distinct(&self) -> bool {
        match self {
            Indices::All => true,
            Indices::List(list) => forall|i: int, j: int|
                0 <= i < j < list@.len() ==> list@[i] != list@[j],
        }
    }

    /// The set of the positions named, or nothing where a position is named
    /// twice.
    #[verifier::loop_isolation(false)]
    pub fn index_set(&self) -> (r: Option<IndexSet>)
        ensures
            (r is Some) == self.distinct(),
            r matches Some(s) ==> s.wf() && forall|dim: usize, k: usize|
                k < dim ==> #[trigger] self.resolve(dim).contains(k) == s.holds(k),
    {
        match self {
            Indices::All => {
                let s = IndexSet::all();
                proof {
                    assert forall|dim: usize, k: usize| k < dim implies #[trigger] self.resolve(
                        dim,
                    ).contains(k) == s.holds(k) by {
                        assert(self.resolve(dim)[k as int] == k);
                    }
                }
                Some(s)
            },
            Indices::List(list) => {
                let mut members: Vec<(IndexType, ())> = Vec::new();
                let mut i: usize = 0;
                proof {
                    lemma_row_map_empty::<()>();
                }
                while i < list.len()
                    invariant
                        i <= list@.len(),
                        sorted(members@),
                        forall|a: int, b: int| 0 <= a < b < i ==> list@[a] != list@[b],
                        forall|k: usize| #[trigger]
                            row_map(members@).contains_key(k) <==> exists|a: int|
                                0 <= a < i && list@[a] == k,
                    decreases list@.len() - i,
                {
                    let ghost before = row_map(members@);
                    let grown = upsert(&mut members, list[i], (), Option::<&First<()>>::None);
                    if !grown {
                        proof {
                            assert(before.contains_key(list@[i as int]));
                            let a = choose|a: int| 0 <= a < i && list@[a] == list@[i as int];
                            assert(0 <= a < i < list@.len() && list@[a] == list@[i as int]);
                        }
                        return None;
                    }
                    proof {
                        assert forall|a: int, b: int| 0 <= a < b < i + 1 implies list@[a]
                            != list@[b] by {
                            if b == i && list@[a] == list@[b] {
                                assert(before.contains_key(list@[i as int]));
                            }
                        }
                        assert forall|k: usize| #[trigger]
                            row_map(members@).contains_key(k) <==> exists|a: int|
                                0 <= a < i + 1 && list@[a] == k by {
                            if before.contains_key(k) {
                                let a = choose|a: int| 0 <= a < i && list@[a] == k;
                                assert(0 <= a < i + 1 && list@[a] == k);
                            }
                            if exists|a: int| 0 <= a < i + 1 && list@[a] == k {
                                let a = choose|a: int| 0 <= a < i + 1 && list@[a] == k;
                                if a < i {
                                    assert(before.contains_key(k));
                                }
                            }
                        }
                    }
                    i += 1;
                }
                let s = IndexSet { all: false, members };
                proof {
                    assert forall|dim: usize, k: usize| k < dim implies #[trigger] self.resolve(
                        dim,
                    ).contains(k) == s.holds(k) by {
                        if list@.contains(k) {
                            let a = choose|a: int| 0 <= a < list@.len() && list@[a] == k;
                            assert(0 <= a < i && list@[a] == k);
                        }
                        if s.holds(k) {
                            let a = choose|a: int| 0 <= a < i && list@[a] == k;
                            assert(list@[a] == k);
                        }
                    }
                }
                Some(s)
            },
        }
    }
}

} // verus!
