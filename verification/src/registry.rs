use vstd::prelude::*;

verus! {

/// A table from 128-bit ids to entries. Every id occurs at most once; the
/// ids are kept in the order in which they were first inserted, which is the
/// order in which `get_all` hands the entries out.
pub struct IdRegistry<V> {
    ids: Vec<u128>,
    entries: Vec<V>,
}

impl<V> View for IdRegistry<V> {
    type V = Map<u128, V>;

    closed spec fn view(&self) -> Map<u128, V> {
        Map::new(|k: u128| self.ids@.contains(k), |k: u128| self.entries@[self.ids@.index_of(k)])
    }
}

impl<V> IdRegistry<V> {
    /// The registry is consistent: one entry per id, no id twice.
    pub closed spec fn wf(&self) -> bool {
        &&& self.ids@.len() == self.entries@.len()
        &&& self.ids@.no_duplicates()
    }

    /// The ids held, oldest insertion first.
    pub closed spec fn order(&self) -> Seq<u128> {
        self.ids@
    }

    proof fn lemma_index(&self, i: int)
        requires
            self.wf(),
            0 <= i < self.ids@.len(),
        ensures
            self.ids@.contains(self.ids@[i]),
            self.ids@.index_of(self.ids@[i]) == i,
            self@.contains_key(self.ids@[i]),
            self@[self.ids@[i]] == self.entries@[i],
    {
        let k = self.ids@[i];
        assert(self.ids@.contains(k));
        let j = self.ids@.index_of(k);
        assert(0 <= j < self.ids@.len() && self.ids@[j] == k);
    }

    /// Facts that every well-formed registry has: its order lists exactly
    /// its ids, each once.
    pub proof fn lemma_order(&self)
        requires
            self.wf(),
        ensures
            self.order().no_duplicates(),
            forall|k: u128| #[trigger] self@.contains_key(k) <==> self.order().contains(k),
            self@.dom().finite(),
            self@.dom().len() == self.order().len(),
    {
        assert(self@.dom() =~= self.ids@.to_set());
        self.ids@.unique_seq_to_set();
    }

    /// An empty registry.
    pub fn new() -> (r: Self)
        ensures
            r.wf(),
            r@ == Map::<u128, V>::empty(),
            r.order() == Seq::<u128>::empty(),
    {
        let r = IdRegistry { ids: Vec::new(), entries: Vec::new() };
        assert(r@ =~= Map::<u128, V>::empty());
        r
    }

    fn find(&self, id: u128) -> (r: Option<usize>)
        requires
            self.wf(),
        ensures
            match r {
                Some(i) => i < self.ids@.len() && self.ids@[i as int] == id,
                None => !self.ids@.contains(id),
            },
    {
        let mut i: usize = 0;
        while i < self.ids.len()
            invariant
                i <= self.ids@.len(),
                forall|j: int| 0 <= j < i ==> self.ids@[j] != id,
            decreases self.ids@.len() - i,
        {
            if self.ids[i] == id {
                return Some(i);
            }
            i = i + 1;
        }
        None
    }

    /// Whether an entry is held under `id`.
    pub fn contains(&self, id: u128) -> (b: bool)
        requires
            self.wf(),
        ensures
            b == self@.contains_key(id),
    {
        self.find(id).is_some()
    }

    /// The number of entries held.
    pub fn len(&self) -> (n: usize)
        requires
            self.wf(),
        ensures
            n == self@.dom().len(),
    {
        proof {
            self.lemma_order();
        }
        self.ids.len()
    }

    /// Stores `entry` under `id`, in place of any entry held under it.
    pub fn insert(&mut self, id: u128, entry: V)
        requires
            old(self).wf(),
        ensures
            final(self).wf(),
            final(self)@ == old(self)@.insert(id, entry),
            final(self).order() == if old(self)@.contains_key(id) {
                old(self).order()
            } else {
                old(self).order().push(id)
            },
    {
        match self.find(id) {
            Some(i) => {
                proof {
                    self.lemma_index(i as int);
                }
                self.entries.set(i, entry);
                proof {
                    assert forall|k: u128| #[trigger] self@.contains_key(k) implies self@[k] == old(
                        self,
                    )@.insert(id, entry)[k] by {
                        let j = self.ids@.index_of(k);
                        assert(0 <= j < self.ids@.len() && self.ids@[j] == k);
                        self.lemma_index(j);
                        old(self).lemma_index(j);
                    }
                    assert(self@ =~= old(self)@.insert(id, entry));
                }
            },
            None => {
                self.ids.push(id);
                self.entries.push(entry);
                proof {
                    let n = old(self).ids@.len() as int;
                    assert(self.ids@[n] == id);
                    assert forall|k: u128| #[trigger]
                        self@.contains_key(k) implies self@[k] == old(self)@.insert(id, entry)[k] by {
                        let j = self.ids@.index_of(k);
                        assert(0 <= j < self.ids@.len() && self.ids@[j] == k);
                        self.lemma_index(j);
                        if j < n {
                            old(self).lemma_index(j);
                        }
                    }
                    assert forall|k: u128| old(self)@.insert(id, entry).contains_key(k) implies #[trigger]
                        self.ids@.contains(k) by {
                        if k != id {
                            let j = old(self).ids@.index_of(k);
                            assert(self.ids@[j] == k);
                        }
                    }
                    assert(self@ =~= old(self)@.insert(id, entry));
                }
            },
        }
    }

    /// The entry held under `id`, if any.
    pub fn get(&self, id: u128) -> (r: Option<&V>)
        requires
            self.wf(),
        ensures
            match r {
                Some(e) => self@.contains_key(id) && *e == self@[id],
                None => !self@.contains_key(id),
            },
    {
        match self.find(id) {
            Some(i) => {
                proof {
                    self.lemma_index(i as int);
                }
                Some(&self.entries[i])
            },
            None => None,
        }
    }

    /// The entry held under `id`, if any, for changing in place.
    pub fn get_mut(&mut self, id: u128) -> (r: Option<&mut V>)
        requires
            old(self).wf(),
        ensures
            final(self).wf(),
            final(self).order() == old(self).order(),
            old(self)@.contains_key(id) ==> r.is_some() && *r.unwrap() == old(self)@[id]
                && final(self)@ == old(self)@.insert(id, *final(r.unwrap())),
            !old(self)@.contains_key(id) ==> r.is_none() && final(self)@ == old(self)@,
    {
        match self.find(id) {
            Some(i) => {
                proof {
                    self.lemma_index(i as int);
                }
                Some(&mut self.entries[i])
            },
            None => None,
        }
    }

    /// Every id with its entry, oldest insertion first.
    pub fn get_all(&self) -> (all: Vec<(u128, &V)>)
        requires
            self.wf(),
        ensures
            self.order().no_duplicates(),
            forall|k: u128| #[trigger] self@.contains_key(k) <==> self.order().contains(k),
            all@.len() == self.order().len(),
            forall|i: int|
                0 <= i < all@.len() ==> (#[trigger] all@[i]).0 == self.order()[i]
                    && *all@[i].1 == self@[self.order()[i]],
    {
        proof {
            self.lemma_order();
        }
        let mut all: Vec<(u128, &V)> = Vec::new();
        let mut i: usize = 0;
        while i < self.ids.len()
            invariant
                self.wf(),
                i <= self.ids@.len(),
                all@.len() == i,
                forall|j: int|
                    0 <= j < i ==> (#[trigger] all@[j]).0 == self.ids@[j] && *all@[j].1
                        == self.entries@[j],
            decreases self.ids@.len() - i,
        {
            all.push((self.ids[i], &self.entries[i]));
            i = i + 1;
        }
        proof {
            assert forall|j: int| 0 <= j < all@.len() implies *(#[trigger] all@[j]).1
                == self@[self.order()[j]] by {
                self.lemma_index(j);
            }
        }
        all
    }

    /// Takes out the entry held under `id`, if any; the order of the other
    /// ids is kept.
    pub fn remove(&mut self, id: u128) -> (r: Option<V>)
        requires
            old(self).wf(),
        ensures
            final(self).wf(),
            final(self)@ == old(self)@.remove(id),
            match r {
                Some(e) => old(self)@.contains_key(id) && e == old(self)@[id],
                None => !old(self)@.contains_key(id),
            },
            final(self).order() == old(self).order().filter(|k: u128| k != id),
    {
        match self.find(id) {
            Some(i) => {
                proof {
                    self.lemma_index(i as int);
                }
                let ghost old_ids = self.ids@;
                self.ids.remove(i);
                let e = self.entries.remove(i);
                proof {
                    let n = old_ids.len() as int;
                    assert forall|a: int, b: int|
                        0 <= a < self.ids@.len() && 0 <= b < self.ids@.len() && a != b implies
                        self.ids@[a] != self.ids@[b] by {
                        let oa = if a < i { a } else { a + 1 };
                        let ob = if b < i { b } else { b + 1 };
                        assert(self.ids@[a] == old_ids[oa]);
                        assert(self.ids@[b] == old_ids[ob]);
                    }
                    assert forall|k: u128| #[trigger]
                        self@.contains_key(k) implies self@[k] == old(self)@.remove(id)[k] by {
                        let j = self.ids@.index_of(k);
                        assert(0 <= j < self.ids@.len() && self.ids@[j] == k);
                        self.lemma_index(j);
                        let oj = if j < i { j } else { j + 1 };
                        assert(old_ids[oj] == k);
                        old(self).lemma_index(oj);
                    }
                    assert forall|k: u128| old(self)@.remove(id).contains_key(k) implies #[trigger]
                        self.ids@.contains(k) by {
                        let j = old_ids.index_of(k);
                        assert(0 <= j < n && old_ids[j] == k);
                        let nj = if j < i { j } else { j - 1 };
                        assert(self.ids@[nj] == k);
                    }
                    assert(self@ =~= old(self)@.remove(id));
                    assert(old_ids.filter(|k: u128| k != id) =~= old_ids.remove(i as int)) by {
                        lemma_filter_out_unique(old_ids, id, i as int);
                    }
                }
                Some(e)
            },
            None => {
                proof {
                    assert(self@ =~= old(self)@.remove(id));
                    lemma_filter_out_absent(self.ids@, id);
                }
                None
            },
        }
    }
}

proof fn lemma_filter_out_absent(s: Seq<u128>, id: u128)
    requires
        !s.contains(id),
    ensures
        s.filter(|k: u128| k != id) == s,
    decreases s.len(),
{
    reveal(Seq::filter);
    if s.len() > 0 {
        assert(!s.drop_last().contains(id)) by {
            if s.drop_last().contains(id) {
                let j = s.drop_last().index_of(id);
                assert(s[j] == id);
            }
        }
        lemma_filter_out_absent(s.drop_last(), id);
        assert(s.drop_last().push(s.last()) =~= s);
    }
}

proof fn lemma_filter_out_unique(s: Seq<u128>, id: u128, i: int)
    requires
        s.no_duplicates(),
        0 <= i < s.len(),
        s[i] == id,
    ensures
        s.filter(|k: u128| k != id) == s.remove(i),
    decreases s.len(),
{
    reveal(Seq::filter);
    let p = s.drop_last();
    if i == s.len() - 1 {
        assert(!p.contains(id)) by {
            if p.contains(id) {
                let j = p.index_of(id);
                assert(s[j] == id);
            }
        }
        lemma_filter_out_absent(p, id);
        assert(s.remove(i) =~= p);
    } else {
        assert(p.no_duplicates());
        lemma_filter_out_unique(p, id, i);
        assert(s.last() != id);
        assert(s.remove(i) =~= p.remove(i).push(s.last()));
    }
}

} // verus!

verus! {

/// Why an entry named by its id's text was not found.
#[derive(Clone, Copy, Debug, PartialEq, Eq)]
pub enum LookupError {
    /// The text is not a UUID.
    InvalidId,
    /// No entry is held under the UUID.
    NotFound,
}

} // verus!
