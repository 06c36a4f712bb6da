//! A set of message ids, held in a `HashSet`.
use std::collections::HashSet;
use vstd::prelude::*;

verus! {

broadcast use vstd::std_specs::hash::group_hash_axioms;

/// A finite set of message ids.
pub struct IdSet {
    ids: HashSet<usize>,
}

impl View for IdSet {
    type V = Set<usize>;

    closed spec fn view(&self) -> Set<usize> {
        self.ids@
    }
}

impl IdSet {
    /// The empty set.
    pub fn new() -> (r: Self)
        ensures
            r@ == Set::<usize>::empty(),
    {
        IdSet { ids: HashSet::new() }
    }

    /// The number of ids held.
    pub fn len(&self) -> (r: usize)
        ensures
            r == self@.len(),
    {
        self.ids.len()
    }

    /// Whether `x` is held.
    pub fn contains(&self, x: usize) -> (r: bool)
        ensures
            r == self@.contains(x),
    {
        self.ids.contains(&x)
    }

    /// Adds one id; an id already held leaves the set as it was.
    pub fn insert(&mut self, x: usize)
        ensures
            final(self)@ == old(self)@.insert(x),
    {
        self.ids.insert(x);
    }

    /// Adds every id of `xs`.
    pub fn extend(&mut self, xs: &Vec<usize>)
        ensures
            final(self)@ == old(self)@.union(xs@.to_set()),
    {
        let mut i: usize = 0;
        while i < xs.len()
            invariant
                i <= xs@.len(),
                forall|y: usize| #[trigger] self@.contains(y) <==> (old(self)@.contains(y)
                    || exists|k: int| 0 <= k < i && xs@[k] == y),
            decreases xs@.len() - i,
        {
            let ghost before = self@;
            let x = xs[i];
            self.insert(x);
            assert forall|y: usize| #[trigger] self@.contains(y) <==> (old(self)@.contains(y)
                || exists|k: int| 0 <= k < i + 1 && xs@[k] == y) by {
                if y == x {
                    assert(xs@[i as int] == y);
                }
                if exists|k: int| 0 <= k < i + 1 && xs@[k] == y {
                    let k = choose|k: int| 0 <= k < i + 1 && xs@[k] == y;
                    if k < i {
                        assert(before.contains(y));
                    }
                }
            }
            i = i + 1;
        }
        assert(self@ =~= old(self)@.union(xs@.to_set()));
    }

    /// The ids held, each once, in the set's iteration order.
    pub fn to_vec(&self) -> (r: Vec<usize>)
        ensures
            r@.to_set() == self@,
            r@.no_duplicates(),
    {
        let mut r: Vec<usize> = Vec::new();
        for x in it: self.ids.iter()
            invariant
                r@ == it.seq().unref().take(it.index() as int),
                it.seq().unref().to_set() == self@,
                it.seq().unref().no_duplicates(),
                it.index() == it.seq().len() ==> r@ == it.seq().unref(),
        {
            r.push(*x);
            assert(r@ =~= it.seq().unref().take(it.index() + 1));
        }
        r
    }

    /// The ids of this set that `other` lacks.
    pub fn difference(&self, other: &IdSet) -> (r: Vec<usize>)
        ensures
            r@.to_set() == self@.difference(other@),
            r@.no_duplicates(),
    {
        let all = self.to_vec();
        let mut r: Vec<usize> = Vec::new();
        let mut i: usize = 0;
        while i < all.len()
            invariant
                i <= all@.len(),
                all@.no_duplicates(),
                r@.no_duplicates(),
                forall|y: usize| #[trigger] r@.contains(y) <==> (!other@.contains(y)
                    && exists|k: int| 0 <= k < i && all@[k] == y),
            decreases all@.len() - i,
        {
            let x = all[i];
            let ghost before = r@;
            if !other.contains(x) {
                proof {
                    if before.contains(x) {
                        let k = choose|k: int| 0 <= k < i && all@[k] == x;
                        assert(all@[k] == all@[i as int]);
                    }
                }
                r.push(x);
                proof {
                    assert forall|a: int, b: int| 0 <= a < b < r@.len() implies r@[a] != r@[b] by {
                        if b == r@.len() - 1 {
                            assert(before[a] == r@[a]);
                        } else {
                            assert(before[a] != before[b]);
                        }
                    }
                }
            }
            assert forall|y: usize| #[trigger] r@.contains(y) <==> (!other@.contains(y)
                && exists|k: int| 0 <= k < i + 1 && all@[k] == y) by {
                if y == x {
                    assert(all@[i as int] == y);
                    if !other@.contains(y) {
                        assert(r@[r@.len() - 1] == y);
                    }
                }
                if r@.contains(y) && y != x {
                    let j = choose|j: int| 0 <= j < r@.len() && r@[j] == y;
                    assert(before[j] == y);
                    assert(before.contains(y));
                }
                if y != x && exists|k: int| 0 <= k < i + 1 && all@[k] == y {
                    let k = choose|k: int| 0 <= k < i + 1 && all@[k] == y;
                    assert(k < i);
                    if !other@.contains(y) {
                        assert(before.contains(y));
                        let j = choose|j: int| 0 <= j < before.len() && before[j] == y;
                        assert(r@[j] == y);
                    }
                }
            }
            i = i + 1;
        }
        assert(r@.to_set() =~= self@.difference(other@));
        r
    }
}

} // verus!
