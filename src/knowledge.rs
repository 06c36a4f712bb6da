//! The knowledge table: for each correspondent, the message ids this node
//! believes that correspondent already has.
use vstd::prelude::*;
use crate::idset::IdSet;

verus! {

/// What a table says a peer knows: its entry, or nothing when it has none.
pub open spec fn known_by(table: Map<Seq<char>, Set<usize>>, peer: Seq<char>) -> Set<usize> {
    if table.contains_key(peer) {
        table[peer]
    } else {
        Set::empty()
    }
}

/// An estimate, per peer, of the message ids that peer already knows.
pub struct KnowledgeTable {
    entries: Vec<(String, IdSet)>,
}

impl KnowledgeTable {
    spec fn has_at(&self, i: int, peer: Seq<char>) -> bool {
        0 <= i < self.entries@.len() && self.entries@[i].0@ == peer
    }

    spec fn index_of(&self, peer: Seq<char>) -> int {
        choose|i: int| self.has_at(i, peer)
    }

    /// Well-formed: one entry per peer.
    pub closed spec fn wf(&self) -> bool {
        forall|i: int, j: int|
            0 <= i < self.entries@.len() && 0 <= j < self.entries@.len() && i != j
                ==> self.entries@[i].0@ != self.entries@[j].0@
    }

    proof fn lemma_index_of(&self, i: int)
        requires
            self.wf(),
            0 <= i < self.entries@.len(),
        ensures
            self.index_of(self.entries@[i].0@) == i,
            self@.contains_key(self.entries@[i].0@),
            self@[self.entries@[i].0@] == self.entries@[i].1@,
    {
        let p = self.entries@[i].0@;
        assert(self.has_at(i, p));
        let j = self.index_of(p);
        assert(self.has_at(j, p));
    }

    /// The table without entries.
    pub fn new() -> (r: Self)
        ensures
            r.wf(),
            r@ == Map::<Seq<char>, Set<usize>>::empty(),
    {
        let r = KnowledgeTable { entries: Vec::new() };
        assert(r@ =~= Map::<Seq<char>, Set<usize>>::empty());
        r
    }

    fn find(&self, peer: &String) -> (r: Option<usize>)
        requires
            self.wf(),
        ensures
            r matches Some(i) ==> i < self.entries@.len() && self.entries@[i as int].0@ == peer@,
            r is None ==> !self@.contains_key(peer@),
    {
        let mut i: usize = 0;
        while i < self.entries.len()
            invariant
                i <= self.entries@.len(),
                forall|j: int| 0 <= j < i ==> self.entries@[j].0@ != peer@,
            decreases self.entries@.len() - i,
        {
            if self.entries[i].0 == *peer {
                return Some(i);
            }
            i = i + 1;
        }
        None
    }

    /// The entry of `peer`, if it has one.
    pub fn get(&self, peer: &String) -> (r: Option<&IdSet>)
        requires
            self.wf(),
        ensures
            r is None <==> !self@.contains_key(peer@),
            r matches Some(s) ==> s@ == self@[peer@],
    {
        match self.find(peer) {
            Some(i) => {
                proof {
                    self.lemma_index_of(i as int);
                }
                Some(&self.entries[i].1)
            },
            None => None,
        }
    }

    /// Whether the table believes that `peer` knows `id`; a peer without an
    /// entry is believed to know nothing.
    pub fn knows(&self, peer: &String, id: usize) -> (r: bool)
        requires
            self.wf(),
        ensures
            r == known_by(self@, peer@).contains(id),
    {
        match self.get(peer) {
            Some(s) => s.contains(id),
            None => false,
        }
    }

    /// Gives `peer` an empty entry unless it has one already.
    pub fn ensure_entry(&mut self, peer: &String)
        requires
            old(self).wf(),
        ensures
            final(self).wf(),
            final(self)@ == (if old(self)@.contains_key(peer@) {
                old(self)@
            } else {
                old(self)@.insert(peer@, Set::empty())
            }),
    {
        match self.find(peer) {
            Some(i) => {
                proof {
                    self.lemma_index_of(i as int);
                }
            },
            None => {
                let ghost before = *self;
                self.entries.push((peer.clone(), IdSet::new()));
                let n = self.entries.len() - 1;
                proof {
                    assert forall|i: int, j: int|
                        0 <= i < self.entries@.len() && 0 <= j < self.entries@.len() && i != j
                            implies self.entries@[i].0@ != self.entries@[j].0@ by {
                        if i < n && j < n {
                            assert(before.entries@[i] == self.entries@[i]);
                            assert(before.entries@[j] == self.entries@[j]);
                        } else if i < n {
                            assert(before.entries@[i] == self.entries@[i]);
                            assert(!before.has_at(i, peer@));
                        } else {
                            assert(before.entries@[j] == self.entries@[j]);
                            assert(!before.has_at(j, peer@));
                        }
                    }
                    self.lemma_index_of(n as int);
                    assert forall|p: Seq<char>| #[trigger] self@.contains_key(p) <==> (before@.contains_key(p) || p == peer@) by {
                        if self@.contains_key(p) {
                            let k = self.index_of(p);
                            if k < n {
                                assert(before.has_at(k, p));
                            }
                        }
                        if before@.contains_key(p) {
                            let k = before.index_of(p);
                            assert(self.has_at(k, p));
                        }
                    }
                    assert forall|p: Seq<char>| #[trigger] before@.contains_key(p) implies self@[p] == before@[p] by {
                        let k = before.index_of(p);
                        assert(before.has_at(k, p));
                        before.lemma_index_of(k);
                        assert(self.entries@[k] == before.entries@[k]);
                        self.lemma_index_of(k);
                    }
                    assert(self@ =~= before@.insert(peer@, Set::empty()));
                }
            },
        }
    }

    /// Makes sure `i` indexes the entry of `peer`, adding an empty one if
    /// there is none.
    fn entry_index(&mut self, peer: &String) -> (i: usize)
        requires
            old(self).wf(),
        ensures
            final(self).wf(),
            final(self)@ == (if old(self)@.contains_key(peer@) {
                old(self)@
            } else {
                old(self)@.insert(peer@, Set::empty())
            }),
            i < final(self).entries@.len(),
            final(self).entries@[i as int].0@ == peer@,
    {
        self.ensure_entry(peer);
        match self.find(peer) {
            Some(i) => i,
            None => {
                proof {
                    assert(false);
                }
                0
            },
        }
    }

    /// Replacing the set at `i` changes the map at that entry's peer only.
    proof fn lemma_update(before: KnowledgeTable, after: KnowledgeTable, i: int, s: IdSet)
        requires
            before.wf(),
            0 <= i < before.entries@.len(),
            after.entries@ == before.entries@.update(i, (before.entries@[i].0, s)),
        ensures
            after.wf(),
            after@ == before@.insert(before.entries@[i].0@, s@),
    {
        let peer = before.entries@[i].0@;
        assert forall|a: int, b: int|
            0 <= a < after.entries@.len() && 0 <= b < after.entries@.len() && a != b
                implies after.entries@[a].0@ != after.entries@[b].0@ by {
            assert(after.entries@[a].0 == before.entries@[a].0);
            assert(after.entries@[b].0 == before.entries@[b].0);
        }
        assert forall|p: Seq<char>| #[trigger] after@.contains_key(p) <==> before@.contains_key(p) by {
            if after@.contains_key(p) {
                let k = after.index_of(p);
                assert(before.has_at(k, p));
            }
            if before@.contains_key(p) {
                let k = before.index_of(p);
                assert(after.has_at(k, p));
            }
        }
        after.lemma_index_of(i);
        assert forall|p: Seq<char>| #[trigger] before@.contains_key(p) && p != peer implies after@[p] == before@[p] by {
            let k = before.index_of(p);
            assert(before.has_at(k, p));
            before.lemma_index_of(k);
            assert(after.entries@[k] == before.entries@[k]);
            after.lemma_index_of(k);
        }
        assert(after@ =~= before@.insert(peer, s@));
    }

    /// Records that `peer` knows `id`.
    pub fn record(&mut self, peer: &String, id: usize)
        requires
            old(self).wf(),
        ensures
            final(self).wf(),
            final(self)@ == old(self)@.insert(peer@, known_by(old(self)@, peer@).insert(id)),
    {
        let i = self.entry_index(peer);
        let ghost mid = *self;
        proof {
            mid.lemma_index_of(i as int);
        }
        self.entries[i].1.insert(id);
        proof {
            KnowledgeTable::lemma_update(mid, *self, i as int, self.entries@[i as int].1);
            assert(known_by(mid@, peer@) == known_by(old(self)@, peer@));
        }
    }

    /// Records that `peer` knows every id of `ids`.
    pub fn record_all(&mut self, peer: &String, ids: &Vec<usize>)
        requires
            old(self).wf(),
        ensures
            final(self).wf(),
            final(self)@ == old(self)@.insert(peer@, known_by(old(self)@, peer@).union(ids@.to_set())),
    {
        let i = self.entry_index(peer);
        let ghost mid = *self;
        proof {
            mid.lemma_index_of(i as int);
        }
        self.entries[i].1.extend(ids);
        proof {
            KnowledgeTable::lemma_update(mid, *self, i as int, self.entries@[i as int].1);
            assert(known_by(mid@, peer@) == known_by(old(self)@, peer@));
        }
    }
}

impl View for KnowledgeTable {
    type V = Map<Seq<char>, Set<usize>>;

    closed spec fn view(&self) -> Map<Seq<char>, Set<usize>> {
        Map::new(
            |p: Seq<char>| exists|i: int| self.has_at(i, p),
            |p: Seq<char>| self.entries@[self.index_of(p)].1@,
        )
    }
}

} // verus!
