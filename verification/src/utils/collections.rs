//! Small keyed collections over text keys: a set of texts and a map from texts to values.
//!
//! Both keep their keys unique in a vector, so their contents are plain `Set`s and `Map`s.

use crate::utils::text_eq;
use vstd::prelude::*;

verus! {

/// The key texts of a list of `(key, value)` pairs.
pub open spec fn pair_keys<V>(items: Seq<(String, V)>) -> Seq<Seq<char>> {
    items.map_values(|p: (String, V)| p.0@)
}

/// What a table of bindings, read in order with later entries winning, binds `k` to.
pub open spec fn last_binding<K, A>(t: Seq<(K, A)>, k: K) -> Option<A>
    decreases t.len(),
{
    if t.len() == 0 {
        None
    } else if t.last().0 == k {
        Some(t.last().1)
    } else {
        last_binding(t.drop_last(), k)
    }
}

/// The texts of a list of strings.
pub open spec fn texts(items: Seq<String>) -> Seq<Seq<char>> {
    items.map_values(|s: String| s@)
}

/// A set of texts.
pub struct TextSet {
    items: Vec<String>,
}

impl View for TextSet {
    type V = Set<Seq<char>>;

    closed spec fn view(&self) -> Set<Seq<char>> {
        texts(self.items@).to_set()
    }
}

impl TextSet {
    /// Its elements are stored once each.
    pub closed spec fn wf(&self) -> bool {
        texts(self.items@).no_duplicates()
    }

    /// The stored elements, in storage order.
    pub closed spec fn elements(&self) -> Seq<Seq<char>> {
        texts(self.items@)
    }

    proof fn lemma_view_elements(&self)
        requires
            self.wf(),
        ensures
            self@ == self.elements().to_set(),
            self.elements().no_duplicates(),
            self@.len() == self.elements().len(),
            self@.finite(),
    {
        self.elements().unique_seq_to_set();
    }

    /// An empty set.
    pub fn new() -> (r: Self)
        ensures
            r.wf(),
            r@ == Set::<Seq<char>>::empty(),
    {
        let r = TextSet { items: Vec::new() };
        assert(r@ =~= Set::<Seq<char>>::empty());
        r
    }

    /// The position of `key` among the stored elements.
    fn find(&self, key: &str) -> (r: Option<usize>)
        ensures
            match r {
                Some(i) => i < self.items@.len() && self.items@[i as int]@ == key@,
                None => !self@.contains(key@),
            },
    {
        let mut i: usize = 0;
        while i < self.items.len()
            invariant
                i <= self.items@.len(),
                forall|m: int| 0 <= m < i ==> self.items@[m]@ != key@,
            decreases self.items@.len() - i,
        {
            if text_eq(self.items[i].as_str(), key) {
                return Some(i);
            }
            i += 1;
        }
        assert(!texts(self.items@).contains(key@)) by {
            if texts(self.items@).contains(key@) {
                let m = choose|m: int| 0 <= m < texts(self.items@).len() && texts(self.items@)[m] == key@;
                assert(self.items@[m]@ == key@);
            }
        }
        None
    }

    /// Whether `key` is in the set.
    pub fn contains(&self, key: &str) -> (r: bool)
        ensures
            r == self@.contains(key@),
    {
        match self.find(key) {
            Some(i) => {
                assert(texts(self.items@)[i as int] == key@);
                true
            },
            None => false,
        }
    }

    /// The number of elements.
    pub fn len(&self) -> (r: usize)
        requires
            self.wf(),
        ensures
            r == self@.len(),
    {
        proof {
            self.lemma_view_elements();
        }
        self.items.len()
    }

    /// Whether the set is empty.
    pub fn is_empty(&self) -> (r: bool)
        requires
            self.wf(),
        ensures
            r == (self@.len() == 0),
    {
        proof {
            self.lemma_view_elements();
        }
        self.items.len() == 0
    }

    /// Adds `key`; returns whether it was absent.
    pub fn insert(&mut self, key: String) -> (r: bool)
        requires
            old(self).wf(),
        ensures
            final(self).wf(),
            final(self)@ == old(self)@.insert(key@),
            r == !old(self)@.contains(key@),
    {
        match self.find(key.as_str()) {
            Some(i) => {
                assert(texts(self.items@)[i as int] == key@);
                assert(self@.insert(key@) =~= self@);
                false
            },
            None => {
                let ghost before = self.items@;
                self.items.push(key);
                assert(texts(self.items@) =~= texts(before).push(key@));
                proof {
                    Seq::<Seq<char>>::lemma_to_set_insert_commutes(texts(before), key@);
                    assert(texts(before).push(key@) =~= texts(before) + seq![key@]);
                    assert forall|a: int, b: int|
                        0 <= a < texts(self.items@).len() && 0 <= b < texts(self.items@).len() && a != b
                        implies texts(self.items@)[a] != texts(self.items@)[b] by {
                        if b == texts(before).len() as int {
                            assert(texts(before).contains(texts(before)[a]));
                        } else if a == texts(before).len() as int {
                            assert(texts(before).contains(texts(before)[b]));
                        }
                    }
                }
                true
            },
        }
    }

    /// Removes `key`; returns whether it was present.
    pub fn remove(&mut self, key: &str) -> (r: bool)
        requires
            old(self).wf(),
        ensures
            final(self).wf(),
            final(self)@ == old(self)@.remove(key@),
            r == old(self)@.contains(key@),
    {
        match self.find(key) {
            Some(i) => {
                let ghost before = self.items@;
                assert(texts(before)[i as int] == key@);
                self.items.remove(i);
                assert(texts(self.items@) =~= texts(before).remove(i as int));
                assert(self@ =~= texts(before).to_set().remove(key@)) by {
                    assert forall|x: Seq<char>| self@.contains(x) <==> texts(before).to_set().remove(key@).contains(x) by {
                        if self@.contains(x) {
                            let m = choose|m: int| 0 <= m < texts(self.items@).len() && texts(self.items@)[m] == x;
                            if m < i {
                                assert(texts(before)[m] == x);
                            } else {
                                assert(texts(before)[m + 1] == x);
                            }
                        }
                        if texts(before).to_set().remove(key@).contains(x) {
                            let m = choose|m: int| 0 <= m < texts(before).len() && texts(before)[m] == x;
                            if m < i {
                                assert(texts(self.items@)[m] == x);
                            } else {
                                assert(texts(self.items@)[m - 1] == x);
                            }
                        }
                    }
                }
                true
            },
            None => {
                assert(self@.remove(key@) =~= self@);
                false
            },
        }
    }

    /// Removes every element.
    pub fn clear(&mut self)
        ensures
            final(self).wf(),
            final(self)@ == Set::<Seq<char>>::empty(),
    {
        self.items.clear();
        assert(self@ =~= Set::<Seq<char>>::empty());
    }

    /// The elements as a list of strings (each once).
    pub fn to_vec(&self) -> (r: Vec<String>)
        requires
            self.wf(),
        ensures
            texts(r@).to_set() == self@,
            texts(r@).no_duplicates(),
            r@.len() == self@.len(),
    {
        proof {
            self.lemma_view_elements();
        }
        self.items.clone()
    }
}

} // verus!

verus! {

/// A map from texts to values.
pub struct TextMap<V> {
    items: Vec<(String, V)>,
}

impl<V> View for TextMap<V> {
    type V = Map<Seq<char>, V>;

    closed spec fn view(&self) -> Map<Seq<char>, V> {
        Map::new(
            |k: Seq<char>| pair_keys(self.items@).contains(k),
            |k: Seq<char>| self.items@[pair_keys(self.items@).index_of(k)].1,
        )
    }
}

impl<V> TextMap<V> {
    /// Its keys are stored once each.
    pub closed spec fn wf(&self) -> bool {
        pair_keys(self.items@).no_duplicates()
    }

    /// An empty map.
    pub fn new() -> (r: Self)
        ensures
            r.wf(),
            r@ == Map::<Seq<char>, V>::empty(),
    {
        let r = TextMap { items: Vec::new() };
        assert(r@ =~= Map::<Seq<char>, V>::empty());
        r
    }

    proof fn lemma_index(&self, i: int)
        requires
            self.wf(),
            0 <= i < self.items@.len(),
        ensures
            pair_keys(self.items@).index_of(self.items@[i].0@) == i,
            self@.contains_key(self.items@[i].0@),
            self@[self.items@[i].0@] == self.items@[i].1,
    {
        let ks = pair_keys(self.items@);
        assert(ks[i] == self.items@[i].0@);
        assert(ks.contains(self.items@[i].0@));
        let j = ks.index_of(self.items@[i].0@);
        assert(ks[j] == ks[i]);
    }

    /// Whether nothing is stored.
    pub fn is_empty(&self) -> (r: bool)
        ensures
            r == (self@ == Map::<Seq<char>, V>::empty()),
    {
        if self.items.len() == 0 {
            assert(self@ =~= Map::<Seq<char>, V>::empty());
            true
        } else {
            proof {
                let k = self.items@[0].0@;
                assert(pair_keys(self.items@)[0] == k);
                assert(self@.contains_key(k));
                assert(!Map::<Seq<char>, V>::empty().contains_key(k));
            }
            false
        }
    }

    /// The position of `key` among the stored pairs.
    fn find(&self, key: &str) -> (r: Option<usize>)
        ensures
            match r {
                Some(i) => i < self.items@.len() && self.items@[i as int].0@ == key@,
                None => !self@.contains_key(key@),
            },
    {
        let mut i: usize = 0;
        while i < self.items.len()
            invariant
                i <= self.items@.len(),
                forall|m: int| 0 <= m < i ==> self.items@[m].0@ != key@,
            decreases self.items@.len() - i,
        {
            if text_eq(self.items[i].0.as_str(), key) {
                return Some(i);
            }
            i += 1;
        }
        assert(!pair_keys(self.items@).contains(key@)) by {
            if pair_keys(self.items@).contains(key@) {
                let m = choose|m: int| 0 <= m < pair_keys(self.items@).len() && pair_keys(self.items@)[m] == key@;
                assert(self.items@[m].0@ == key@);
            }
        }
        None
    }

    /// The value stored under `key`.
    pub fn get(&self, key: &str) -> (r: Option<&V>)
        requires
            self.wf(),
        ensures
            match r {
                Some(v) => self@.contains_key(key@) && self@[key@] == *v,
                None => !self@.contains_key(key@),
            },
    {
        match self.find(key) {
            Some(i) => {
                proof {
                    self.lemma_index(i as int);
                }
                Some(&self.items[i].1)
            },
            None => None,
        }
    }

    /// Stores `value` under `key`, replacing what was there.
    pub fn insert(&mut self, key: String, value: V)
        requires
            old(self).wf(),
        ensures
            final(self).wf(),
            final(self)@ == old(self)@.insert(key@, value),
    {
        let ghost before = self.items@;
        let ghost old_view = self@;
        let ghost k = key@;
        match self.find(key.as_str()) {
            Some(i) => {
                self.items.set(i, (key, value));
                assert(pair_keys(self.items@) =~= pair_keys(before));
                assert(pair_keys(before)[i as int] == k);
                assert(pair_keys(before).contains(k));
                assert(self@ =~= old_view.insert(k, value)) by {
                    assert(self@.dom() =~= old_view.insert(k, value).dom());
                    assert forall|x: Seq<char>| #[trigger] self@.contains_key(x) implies self@[x] == old_view.insert(k, value)[x] by {
                        let j = pair_keys(self.items@).index_of(x);
                        let ks = pair_keys(self.items@);
                        assert(ks.contains(x));
                        assert(0 <= j < ks.len() && ks[j] == x);
                        if x == k {
                            assert(ks[i as int] == k);
                            assert(j == i);
                        } else {
                            assert(j != i);
                            assert(pair_keys(before).index_of(x) == j);
                        }
                    }
                }
            },
            None => {
                self.items.push((key, value));
                assert(pair_keys(self.items@) =~= pair_keys(before).push(k));
                assert(pair_keys(self.items@).no_duplicates()) by {
                    assert forall|a: int, b: int|
                        0 <= a < pair_keys(self.items@).len() && 0 <= b < pair_keys(self.items@).len() && a != b
                        implies pair_keys(self.items@)[a] != pair_keys(self.items@)[b] by {
                        if b == before.len() as int {
                            assert(pair_keys(before).contains(pair_keys(before)[a]));
                        } else if a == before.len() as int {
                            assert(pair_keys(before).contains(pair_keys(before)[b]));
                        }
                    }
                }
                assert(self@ =~= old_view.insert(k, value)) by {
                    assert forall|x: Seq<char>| self@.contains_key(x) <==> old_view.insert(k, value).contains_key(x) by {
                        if pair_keys(self.items@).contains(x) {
                            let m = choose|m: int| 0 <= m < pair_keys(self.items@).len() && pair_keys(self.items@)[m] == x;
                            if m < before.len() {
                                assert(pair_keys(before)[m] == x);
                            }
                        }
                        if pair_keys(before).contains(x) {
                            let m = choose|m: int| 0 <= m < pair_keys(before).len() && pair_keys(before)[m] == x;
                            assert(pair_keys(self.items@)[m] == x);
                        }
                        if x == k {
                            assert(pair_keys(self.items@)[before.len() as int] == x);
                        }
                    }
                    assert forall|x: Seq<char>| #[trigger] self@.contains_key(x) implies self@[x] == old_view.insert(k, value)[x] by {
                        let ks = pair_keys(self.items@);
                        let j = ks.index_of(x);
                        assert(ks.contains(x));
                        assert(0 <= j < ks.len() && ks[j] == x);
                        if x == k {
                            assert(ks[before.len() as int] == k);
                            assert(j == before.len() as int);
                        } else {
                            assert(j < before.len());
                            assert(pair_keys(before)[j] == x);
                            assert(pair_keys(before).contains(x));
                            let j2 = pair_keys(before).index_of(x);
                            assert(0 <= j2 < before.len() && pair_keys(before)[j2] == x);
                            assert(ks[j2] == x);
                        }
                    }
                }
            },
        }
    }

    /// Removes `key` and what was stored under it.
    pub fn remove(&mut self, key: &str)
        requires
            old(self).wf(),
        ensures
            final(self).wf(),
            final(self)@ == old(self)@.remove(key@),
    {
        let ghost before = self.items@;
        let ghost old_view = self@;
        match self.find(key) {
            Some(i) => {
                self.items.remove(i);
                let ghost ks = pair_keys(self.items@);
                let ghost ob = pair_keys(before);
                assert(ks =~= ob.remove(i as int));
                assert(ob[i as int] == key@);
                assert(self@ =~= old_view.remove(key@)) by {
                    assert forall|x: Seq<char>| self@.contains_key(x) <==> old_view.remove(key@).contains_key(x) by {
                        if ks.contains(x) {
                            let m = choose|m: int| 0 <= m < ks.len() && ks[m] == x;
                            if m < i {
                                assert(ob[m] == x);
                            } else {
                                assert(ob[m + 1] == x);
                            }
                        }
                        if ob.contains(x) && x != key@ {
                            let m = choose|m: int| 0 <= m < ob.len() && ob[m] == x;
                            if m < i {
                                assert(ks[m] == x);
                            } else {
                                assert(m != i);
                                assert(ks[m - 1] == x);
                            }
                        }
                    }
                    assert forall|x: Seq<char>| #[trigger] self@.contains_key(x) implies self@[x] == old_view[x] by {
                        let j = ks.index_of(x);
                        assert(ks.contains(x));
                        assert(0 <= j < ks.len() && ks[j] == x);
                        let j2 = if j < i { j } else { j + 1 };
                        assert(ob[j2] == x);
                        assert(ob.contains(x));
                        let j3 = ob.index_of(x);
                        assert(0 <= j3 < ob.len() && ob[j3] == x);
                        assert(j3 == j2);
                    }
                }
            },
            None => {
                assert(self@.remove(key@) =~= self@);
            },
        }
    }
}

} // verus!
