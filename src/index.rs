use vstd::prelude::*;

verus! {

/// A map from strings to strings, held as a list of entries with distinct keys.
pub struct StrMap {
    entries: Vec<(String, String)>,
}

impl StrMap {
    /// The entries as pairs of character sequences.
    pub closed spec fn pairs(&self) -> Seq<(Seq<char>, Seq<char>)> {
        self.entries@.map_values(|e: (String, String)| (e.0@, e.1@))
    }

    pub closed spec fn wf(&self) -> bool {
        forall|i: int, j: int|
            0 <= i < j < self.pairs().len() ==> #[trigger] self.pairs()[i].0 != #[trigger] self.pairs()[j].0
    }

    pub closed spec fn view(&self) -> Map<Seq<char>, Seq<char>> {
        Map::new(
            |k: Seq<char>| exists|i: int| 0 <= i < self.pairs().len() && #[trigger] self.pairs()[i].0 == k,
            |k: Seq<char>| self.pairs()[choose|i: int| 0 <= i < self.pairs().len() && #[trigger] self.pairs()[i].0 == k].1,
        )
    }

    proof fn lemma_value_at(&self, i: int)
        requires
            self.wf(),
            0 <= i < self.pairs().len(),
        ensures
            self@.contains_key(self.pairs()[i].0),
            self@[self.pairs()[i].0] == self.pairs()[i].1,
    {
        let k = self.pairs()[i].0;
        assert(self@.dom().contains(k));
        let c = choose|j: int| 0 <= j < self.pairs().len() && #[trigger] self.pairs()[j].0 == k;
        assert(c == i);
    }

    proof fn lemma_key_count(p: Seq<(Seq<char>, Seq<char>)>)
        requires
            forall|i: int, j: int| 0 <= i < j < p.len() ==> #[trigger] p[i].0 != #[trigger] p[j].0,
        ensures
            Set::new(|k: Seq<char>| exists|i: int| 0 <= i < p.len() && #[trigger] p[i].0 == k).finite(),
            Set::new(|k: Seq<char>| exists|i: int| 0 <= i < p.len() && #[trigger] p[i].0 == k).len() == p.len(),
        decreases p.len(),
    {
        let all = Set::new(|k: Seq<char>| exists|i: int| 0 <= i < p.len() && #[trigger] p[i].0 == k);
        if p.len() == 0 {
            assert(all =~= Set::empty());
        } else {
            let init = p.drop_last();
            let part = Set::new(|k: Seq<char>| exists|i: int| 0 <= i < init.len() && #[trigger] init[i].0 == k);
            Self::lemma_key_count(init);
            assert forall|k: Seq<char>| #[trigger] all.contains(k) == part.insert(p.last().0).contains(k) by {
                if all.contains(k) {
                    let i = choose|i: int| 0 <= i < p.len() && #[trigger] p[i].0 == k;
                    if i < init.len() {
                        assert(init[i].0 == k);
                    }
                }
                if part.contains(k) {
                    let i = choose|i: int| 0 <= i < init.len() && #[trigger] init[i].0 == k;
                    assert(p[i].0 == k);
                }
                if k == p.last().0 {
                    assert(p[p.len() - 1].0 == k);
                }
            };
            assert(all =~= part.insert(p.last().0));
            if part.contains(p.last().0) {
                let i = choose|i: int| 0 <= i < init.len() && #[trigger] init[i].0 == p.last().0;
                assert(p[i].0 != p[p.len() - 1].0);
            }
        }
    }

    /// The number of keys.
    pub fn len(&self) -> (r: usize)
        requires
            self.wf(),
        ensures
            r == self@.len(),
    {
        proof {
            Self::lemma_key_count(self.pairs());
            assert(self@.dom() =~= Set::new(|k: Seq<char>| exists|i: int| 0 <= i < self.pairs().len() && #[trigger] self.pairs()[i].0 == k));
        }
        self.entries.len()
    }

    /// The empty map.
    pub fn new() -> (r: StrMap)
        ensures
            r.wf(),
            r@ == Map::<Seq<char>, Seq<char>>::empty(),
    {
        let r = StrMap { entries: Vec::new() };
        assert(r@ =~= Map::<Seq<char>, Seq<char>>::empty());
        r
    }

    /// The value stored under `key`, if any.
    pub fn get(&self, key: &String) -> (r: Option<&String>)
        requires
            self.wf(),
        ensures
            match r {
                Some(v) => self@.contains_key(key@) && self@[key@] == v@,
                None => !self@.contains_key(key@),
            },
    {
        let mut i: usize = 0;
        while i < self.entries.len()
            invariant
                0 <= i <= self.entries.len(),
                self.wf(),
                self.pairs().len() == self.entries.len(),
                forall|j: int| 0 <= j < i ==> #[trigger] self.pairs()[j].0 != key@,
            decreases self.entries.len() - i,
        {
            if self.entries[i].0 == *key {
                proof {
                    self.lemma_value_at(i as int);
                }
                return Some(&self.entries[i].1);
            }
            assert(self.pairs()[i as int].0 == self.entries@[i as int].0@);
            i = i + 1;
        }
        None
    }

    /// Stores `value` under `key`, replacing what was there.
    pub fn insert(&mut self, key: String, value: String)
        requires
            old(self).wf(),
        ensures
            final(self).wf(),
            final(self)@ == old(self)@.insert(key@, value@),
    {
        let ghost before = self.pairs();
        let ghost k = key@;
        let ghost v = value@;
        let mut i: usize = 0;
        while i < self.entries.len()
            invariant
                0 <= i <= self.entries.len(),
                self.pairs() == before,
                self@ == old(self)@,
                self.wf(),
                k == key@,
                v == value@,
                self.pairs().len() == self.entries.len(),
                forall|j: int| 0 <= j < i ==> #[trigger] self.pairs()[j].0 != k,
            decreases self.entries.len() - i,
        {
            if self.entries[i].0 == key {
                let ghost old_map = self@;
                let ghost old_entries = self.entries@;
                self.entries.set(i, (key, value));
                proof {
                    let after = self.pairs();
                    assert(self.entries@ =~= old_entries.update(i as int, (key, value)));
                    assert(after =~= before.update(i as int, (k, v)));
                    assert(before[i as int].0 == k);
                    assert forall|j: int| 0 <= j < after.len() implies #[trigger] after[j].0 == before[j].0 by {};
                    assert(self.wf());
                    assert forall|q: Seq<char>| #[trigger] self@.contains_key(q) == old_map.insert(k, v).contains_key(q) by {
                        if q == k {
                            assert(after[i as int].0 == q);
                        } else if old_map.contains_key(q) {
                            let j = choose|j: int| 0 <= j < before.len() && #[trigger] before[j].0 == q;
                            assert(after[j].0 == q);
                        } else if self@.contains_key(q) {
                            let j = choose|j: int| 0 <= j < after.len() && #[trigger] after[j].0 == q;
                            assert(before[j].0 == q);
                        }
                    };
                    assert forall|q: Seq<char>| #[trigger] self@.contains_key(q) implies self@[q] == old_map.insert(k, v)[q] by {
                        let j = choose|j: int| 0 <= j < after.len() && #[trigger] after[j].0 == q;
                        self.lemma_value_at(j);
                        if j != i as int {
                            assert(before[j] == after[j]);
                            assert(old_map.dom().contains(q));
                            let c = choose|c: int| 0 <= c < before.len() && #[trigger] before[c].0 == q;
                            assert(c == j);
                        }
                    };
                    assert(self@ =~= old_map.insert(k, v));
                }
                return;
            }
            assert(self.pairs()[i as int].0 == self.entries@[i as int].0@);
            i = i + 1;
        }
        let ghost old_map = self@;
        let ghost old_entries = self.entries@;
        self.entries.push((key, value));
        proof {
            assert(self.entries@ =~= old_entries.push((key, value)));
            let after = self.pairs();
            assert(after =~= before.push((k, v)));
            assert(self.wf());
            let n = before.len() as int;
            assert forall|q: Seq<char>| #[trigger] self@.contains_key(q) == old_map.insert(k, v).contains_key(q) by {
                if q == k {
                    assert(after[n].0 == q);
                } else if old_map.contains_key(q) {
                    let j = choose|j: int| 0 <= j < before.len() && #[trigger] before[j].0 == q;
                    assert(after[j].0 == q);
                } else if self@.contains_key(q) {
                    let j = choose|j: int| 0 <= j < after.len() && #[trigger] after[j].0 == q;
                    assert(before[j].0 == q);
                }
            };
            assert forall|q: Seq<char>| #[trigger] self@.contains_key(q) implies self@[q] == old_map.insert(k, v)[q] by {
                let j = choose|j: int| 0 <= j < after.len() && #[trigger] after[j].0 == q;
                self.lemma_value_at(j);
                if j != n {
                    assert(before[j] == after[j]);
                    let c = choose|c: int| 0 <= c < before.len() && #[trigger] before[c].0 == q;
                    assert(c == j);
                }
            };
            assert(self@ =~= old_map.insert(k, v));
        }
    }
}

} // verus!
