use vstd::prelude::*;

verus! {

/// A map from string keys to values, held as two parallel vectors whose keys
/// are pairwise distinct. Its value is a finite `Map` from key text to value.
/// (vstd's model of `std::collections::HashMap` holds only for key types
/// that obey its key model, and `String` is not among them.)
pub struct IdMap<V> {
    keys: Vec<String>,
    vals: Vec<V>,
    model: Ghost<Map<Seq<char>, V>>,
}

impl<V> View for IdMap<V> {
    type V = Map<Seq<char>, V>;

    closed spec fn view(&self) -> Map<Seq<char>, V> {
        self.model@
    }
}

impl<V> IdMap<V> {
    /// The text of the key stored at position `i`.
    pub closed spec fn key_at(&self, i: int) -> Seq<char> {
        self.keys@[i]@
    }

    /// Number of stored entries.
    pub closed spec fn size(&self) -> nat {
        self.keys@.len()
    }

    pub closed spec fn wf(&self) -> bool {
        &&& self.keys@.len() == self.vals@.len()
        &&& self.model@.dom().finite()
        &&& self.model@.len() == self.keys@.len()
        &&& forall|i: int, j: int|
            0 <= i < j < self.keys@.len() ==> self.keys@[i]@ != self.keys@[j]@
        &&& forall|i: int|
            0 <= i < self.keys@.len() ==> #[trigger] self.model@.contains_key(self.keys@[i]@)
                && self.model@[self.keys@[i]@] == self.vals@[i]
        &&& forall|k: Seq<char>|
            #[trigger] self.model@.contains_key(k) ==> exists|i: int|
                0 <= i < self.keys@.len() && self.keys@[i]@ == k
    }

    pub fn new() -> (r: Self)
        ensures
            r.wf(),
            r@ == Map::<Seq<char>, V>::empty(),
    {
        IdMap { keys: Vec::new(), vals: Vec::new(), model: Ghost(Map::empty()) }
    }

    /// The stored entries are exactly the keys of the map, each once.
    pub proof fn lemma_positions(&self)
        requires
            self.wf(),
        ensures
            self.size() == self@.len(),
            forall|i: int| 0 <= i < self.size() ==> #[trigger] self@.contains_key(self.key_at(i)),
            forall|k: Seq<char>| #[trigger] self@.contains_key(k) ==> exists|i: int|
                0 <= i < self.size() && self.key_at(i) == k,
            forall|i: int, j: int| 0 <= i < j < self.size() ==> self.key_at(i) != self.key_at(j),
    {
        assert forall|k: Seq<char>| #[trigger] self@.contains_key(k) implies exists|i: int|
            0 <= i < self.size() && self.key_at(i) == k by {
            let i = choose|i: int| 0 <= i < self.keys@.len() && self.keys@[i]@ == k;
            assert(self.key_at(i) == k);
        }
    }

    pub fn len(&self) -> (r: usize)
        requires
            self.wf(),
        ensures
            r == self@.len(),
    {
        self.keys.len()
    }

    fn index_of(&self, k: &String) -> (r: Option<usize>)
        requires
            self.wf(),
        ensures
            match r {
                Some(i) => i < self.keys@.len() && self.keys@[i as int]@ == k@,
                None => !self@.contains_key(k@),
            },
    {
        let mut i: usize = 0;
        while i < self.keys.len()
            invariant
                self.wf(),
                i <= self.keys@.len(),
                forall|j: int| 0 <= j < i ==> self.keys@[j]@ != k@,
            decreases self.keys@.len() - i,
        {
            if self.keys[i] == *k {
                return Some(i);
            }
            i = i + 1;
        }
        None
    }

    pub fn contains_key(&self, k: &String) -> (r: bool)
        requires
            self.wf(),
        ensures
            r == self@.contains_key(k@),
    {
        self.index_of(k).is_some()
    }

    pub fn get(&self, k: &String) -> (r: Option<&V>)
        requires
            self.wf(),
        ensures
            match r {
                Some(v) => self@.contains_key(k@) && *v == self@[k@],
                None => !self@.contains_key(k@),
            },
    {
        match self.index_of(k) {
            Some(i) => {
                assert(self.model@.contains_key(self.keys@[i as int]@));
                Some(&self.vals[i])
            },
            None => None,
        }
    }

    /// Sets the value of `k`, adding the key when it is new.
    pub fn insert(&mut self, k: String, v: V)
        requires
            old(self).wf(),
        ensures
            final(self).wf(),
            final(self)@ == old(self)@.insert(k@, v),
    {
        let ghost old_model = self.model@;
        let ghost kv = k@;
        match self.index_of(&k) {
            Some(i) => {
                self.vals[i] = v;
                self.model = Ghost(old_model.insert(kv, v));
                assert(old_model.dom().insert(kv) =~= old_model.dom());
                assert forall|q: Seq<char>| #[trigger] self.model@.contains_key(q) implies exists|j: int|
                    0 <= j < self.keys@.len() && self.keys@[j]@ == q by {
                    if q != kv {
                        assert(old_model.contains_key(q));
                    }
                }
            },
            None => {
                let ghost n = self.keys@.len();
                self.keys.push(k);
                self.vals.push(v);
                self.model = Ghost(old_model.insert(kv, v));
                assert(self.keys@[n as int]@ == kv);
                assert forall|q: Seq<char>| #[trigger] self.model@.contains_key(q) implies exists|j: int|
                    0 <= j < self.keys@.len() && self.keys@[j]@ == q by {
                    if q != kv {
                        assert(old_model.contains_key(q));
                        let j = choose|j: int| 0 <= j < n && old(self).keys@[j]@ == q;
                        assert(self.keys@[j]@ == q);
                    }
                }
            },
        }
    }

    /// Removes `k`, handing back its value when it was present.
    pub fn remove(&mut self, k: &String) -> (r: Option<V>)
        requires
            old(self).wf(),
        ensures
            final(self).wf(),
            final(self)@ == old(self)@.remove(k@),
            r == (if old(self)@.contains_key(k@) { Some(old(self)@[k@]) } else { None::<V> }),
    {
        let ghost old_model = self.model@;
        let ghost old_keys = self.keys@;
        let ghost old_vals = self.vals@;
        match self.index_of(k) {
            Some(i) => {
                self.keys.remove(i);
                let v = self.vals.remove(i);
                self.model = Ghost(old_model.remove(k@));
                assert forall|a: int, b: int| 0 <= a < b < self.keys@.len() implies
                    self.keys@[a]@ != self.keys@[b]@ by {
                    let a0 = if a < i { a } else { a + 1 };
                    let b0 = if b < i { b } else { b + 1 };
                    assert(self.keys@[a] == old_keys[a0]);
                    assert(self.keys@[b] == old_keys[b0]);
                }
                assert forall|j: int| 0 <= j < self.keys@.len() implies
                    #[trigger] self.model@.contains_key(self.keys@[j]@)
                    && self.model@[self.keys@[j]@] == self.vals@[j] by {
                    let j0 = if j < i { j } else { j + 1 };
                    assert(self.keys@[j] == old_keys[j0]);
                    assert(self.vals@[j] == old_vals[j0]);
                    assert(old_keys[j0]@ != k@);
                    assert(old_model.contains_key(old_keys[j0]@));
                }
                assert forall|q: Seq<char>| #[trigger] self.model@.contains_key(q) implies exists|j: int|
                    0 <= j < self.keys@.len() && self.keys@[j]@ == q by {
                    assert(old_model.contains_key(q));
                    let j0 = choose|j0: int| 0 <= j0 < old_keys.len() && old_keys[j0]@ == q;
                    assert(j0 != i);
                    if j0 < i {
                        assert(self.keys@[j0]@ == q);
                    } else {
                        assert(self.keys@[j0 - 1]@ == q);
                    }
                }
                Some(v)
            },
            None => {
                assert(old_model.remove(k@) =~= old_model);
                None
            },
        }
    }

    /// The stored keys, in storage order.
    pub fn keys(&self) -> (r: &Vec<String>)
        requires
            self.wf(),
        ensures
            r@.len() == self.size(),
            forall|i: int| 0 <= i < r@.len() ==> #[trigger] r@[i]@ == self.key_at(i),
    {
        &self.keys
    }

    /// The stored values, position for position with [`IdMap::keys`].
    pub fn values(&self) -> (r: &Vec<V>)
        requires
            self.wf(),
        ensures
            r@.len() == self.size(),
            forall|i: int| 0 <= i < r@.len() ==> #[trigger] r@[i] == self@[self.key_at(i)],
    {
        assert forall|i: int| 0 <= i < self.vals@.len() implies #[trigger] self.vals@[i]
            == self@[self.key_at(i)] by {
            assert(self.model@.contains_key(self.keys@[i]@));
        }
        &self.vals
    }
}

} // verus!
