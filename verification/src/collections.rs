//! Finite sets and maps keyed by text, held as vectors in which no key occurs twice.
use vstd::prelude::*;
use crate::text::str_equal;

verus! {

/// The views of the strings in `v`.
pub open spec fn string_views(v: Seq<String>) -> Seq<Seq<char>> {
    v.map_values(|s: String| s@)
}

/// A set of strings.
#[derive(Debug)]
pub struct StringSet {
    items: Vec<String>,
}

impl StringSet {
    /// No string occurs twice.
    #[verifier::type_invariant]
    spec fn distinct(self) -> bool {
        forall|i: int, j: int|
            0 <= i < self.items@.len() && 0 <= j < self.items@.len() && i != j
                ==> #[trigger] self.items@[i]@ != #[trigger] self.items@[j]@
    }

    /// Position of `key` among the items, if it is there.
    fn find(&self, key: &str) -> (r: Option<usize>)
        ensures
            match r {
                Some(k) => k < self.items@.len() && self.items@[k as int]@ == key@,
                None => forall|j: int| 0 <= j < self.items@.len() ==> self.items@[j]@ != key@,
            },
    {
        let mut k: usize = 0;
        while k < self.items.len()
            invariant
                k <= self.items@.len(),
                forall|j: int| 0 <= j < k ==> self.items@[j]@ != key@,
            decreases self.items@.len() - k,
        {
            if str_equal(self.items[k].as_str(), key) {
                return Some(k);
            }
            k = k + 1;
        }
        None
    }

    /// The empty set.
    pub fn new() -> (r: Self)
        ensures
            r@ == Set::<Seq<char>>::empty(),
    {
        let r = StringSet { items: Vec::new() };
        assert(r@ =~= Set::<Seq<char>>::empty());
        r
    }

    /// Whether `key` is a member.
    pub fn contains(&self, key: &str) -> (r: bool)
        ensures
            r == self@.contains(key@),
    {
        let found = self.find(key);
        match found {
            Some(k) => {
                assert(self.items@[k as int]@ == key@);
                true
            },
            None => false,
        }
    }

    /// Adds `key`; returns whether it was absent before.
    pub fn insert(&mut self, key: String) -> (r: bool)
        ensures
            final(self)@ == old(self)@.insert(key@),
            r == !old(self)@.contains(key@),
    {
        proof {
            use_type_invariant(&*self);
        }
        let found = self.find(key.as_str());
        match found {
            Some(k) => {
                assert(self.items@[k as int]@ == key@);
                assert(self@.insert(key@) =~= self@);
                false
            },
            None => {
                let ghost before = self.items@;
                let mut items = Vec::new();
                std::mem::swap(&mut items, &mut self.items);
                items.push(key);
                assert forall|i: int, j: int|
                    0 <= i < items@.len() && 0 <= j < items@.len() && i != j
                        implies #[trigger] items@[i]@ != #[trigger] items@[j]@ by {
                    if i < before.len() && j < before.len() {
                        assert(before[i]@ != before[j]@);
                    }
                }
                self.items = items;
                assert(self@ =~= old(self)@.insert(key@)) by {
                    assert forall|x: Seq<char>| self@.contains(x) <==> old(self)@.insert(key@).contains(x) by {
                        if old(self)@.contains(x) {
                            let j = choose|j: int| 0 <= j < before.len() && before[j]@ == x;
                            assert(self.items@[j]@ == x);
                        }
                        if x == key@ {
                            assert(self.items@[before.len() as int]@ == x);
                        }
                        if self@.contains(x) {
                            let j = choose|j: int| 0 <= j < self.items@.len() && self.items@[j]@ == x;
                            if j < before.len() {
                                assert(before[j]@ == x);
                            }
                        }
                    }
                }
                true
            },
        }
    }

    /// The number of members.
    pub fn len(&self) -> (r: usize)
        ensures
            r == self@.len(),
    {
        proof {
            use_type_invariant(self);
            self.lemma_len();
        }
        self.items.len()
    }

    proof fn lemma_len(self)
        requires
            self.distinct(),
        ensures
            self@.finite(),
            self@.len() == self.items@.len(),
    {
        let views = string_views(self.items@);
        assert(views.no_duplicates()) by {
            assert forall|i: int, j: int|
                0 <= i < views.len() && 0 <= j < views.len() && i != j implies views[i] != views[j] by {
                assert(self.items@[i]@ != self.items@[j]@);
            }
        }
        assert(self@ =~= views.to_set()) by {
            assert forall|x: Seq<char>| self@.contains(x) <==> views.to_set().contains(x) by {
                if self@.contains(x) {
                    let j = choose|j: int| 0 <= j < self.items@.len() && self.items@[j]@ == x;
                    assert(views[j] == x);
                }
                if views.to_set().contains(x) {
                    let j = choose|j: int| 0 <= j < views.len() && views[j] == x;
                    assert(self.items@[j]@ == x);
                }
            }
        }
        views.unique_seq_to_set();
    }

    /// A set holding the strings of `v`, each once.
    pub fn from_vec(v: Vec<String>) -> (r: Self)
        ensures
            forall|x: Seq<char>| r@.contains(x) <==> string_views(v@).contains(x),
    {
        let mut r = StringSet::new();
        let ghost given = v@;
        let n = v.len();
        // Move each string into the set, in order.
        let mut k: usize = 0;
        while k < n
            invariant
                n == given.len(),
                v@ == given,
                k <= n,
                forall|x: Seq<char>| r@.contains(x) <==>
                    exists|j: int| 0 <= j < k && given[j]@ == x,
            decreases n - k,
        {
            let s = v[k].clone();
            r.insert(s);
            proof {
                assert forall|x: Seq<char>| r@.contains(x) <==>
                    exists|j: int| 0 <= j < k + 1 && given[j]@ == x by {
                    if x == given[k as int]@ {
                        assert(0 <= k < k + 1 && given[k as int]@ == x);
                    }
                    if exists|j: int| 0 <= j < k + 1 && given[j]@ == x {
                        let j = choose|j: int| 0 <= j < k + 1 && given[j]@ == x;
                        if j < k {
                            assert(exists|j: int| 0 <= j < k && given[j]@ == x);
                        }
                    }
                }
            }
            k = k + 1;
        }
        proof {
            assert forall|x: Seq<char>| r@.contains(x) <==> string_views(given).contains(x) by {
                if r@.contains(x) {
                    let j = choose|j: int| 0 <= j < n && given[j]@ == x;
                    assert(string_views(given)[j] == x);
                }
                if string_views(given).contains(x) {
                    let j = choose|j: int| 0 <= j < string_views(given).len() && string_views(given)[j] == x;
                    assert(given[j]@ == x);
                }
            }
        }
        r
    }
}

impl View for StringSet {
    type V = Set<Seq<char>>;

    closed spec fn view(&self) -> Set<Seq<char>> {
        Set::new(|x: Seq<char>| exists|j: int| 0 <= j < self.items@.len() && self.items@[j]@ == x)
    }
}

/// A map from strings to values.
#[derive(Debug)]
pub struct StringMap<V> {
    entries: Vec<(String, V)>,
}

impl<V> StringMap<V> {
    /// No key occurs twice.
    #[verifier::type_invariant]
    spec fn distinct_keys(self) -> bool {
        forall|i: int, j: int|
            0 <= i < self.entries@.len() && 0 <= j < self.entries@.len() && i != j
                ==> #[trigger] self.entries@[i].0@ != #[trigger] self.entries@[j].0@
    }

    /// Whether some entry has the key `k`.
    spec fn has_key(self, k: Seq<char>) -> bool {
        exists|j: int| 0 <= j < self.entries@.len() && self.entries@[j].0@ == k
    }

    /// The position of the entry with key `k`.
    spec fn slot(self, k: Seq<char>) -> int {
        choose|j: int| 0 <= j < self.entries@.len() && self.entries@[j].0@ == k
    }
}

impl<V: View> StringMap<V> {

    proof fn lemma_slot(self, j: int)
        requires
            self.distinct_keys(),
            0 <= j < self.entries@.len(),
        ensures
            self.has_key(self.entries@[j].0@),
            self.slot(self.entries@[j].0@) == j,
            self@.contains_key(self.entries@[j].0@),
            self@[self.entries@[j].0@] == self.entries@[j].1@,
    {
        let k = self.entries@[j].0@;
        assert(self.has_key(k));
        let c = self.slot(k);
        if c != j {
            assert(self.entries@[c].0@ != self.entries@[j].0@);
        }
    }

    /// Position of `key` among the entries, if it is there.
    fn find(&self, key: &str) -> (r: Option<usize>)
        ensures
            match r {
                Some(k) => k < self.entries@.len() && self.entries@[k as int].0@ == key@,
                None => forall|j: int| 0 <= j < self.entries@.len() ==> self.entries@[j].0@ != key@,
            },
    {
        let mut k: usize = 0;
        while k < self.entries.len()
            invariant
                k <= self.entries@.len(),
                forall|j: int| 0 <= j < k ==> self.entries@[j].0@ != key@,
            decreases self.entries@.len() - k,
        {
            if str_equal(self.entries[k].0.as_str(), key) {
                return Some(k);
            }
            k = k + 1;
        }
        None
    }

    /// The empty map.
    pub fn new() -> (r: Self)
        ensures
            r@ == Map::<Seq<char>, V::V>::empty(),
    {
        let r = StringMap { entries: Vec::new() };
        assert(r@ =~= Map::<Seq<char>, V::V>::empty());
        r
    }

    /// The value stored under `key`, if any.
    pub fn get(&self, key: &str) -> (r: Option<&V>)
        ensures
            match r {
                Some(v) => self@.contains_key(key@) && v@ == self@[key@],
                None => !self@.contains_key(key@),
            },
    {
        proof {
            use_type_invariant(self);
        }
        match self.find(key) {
            Some(k) => {
                proof {
                    self.lemma_slot(k as int);
                }
                Some(&self.entries[k].1)
            },
            None => None,
        }
    }

    /// Whether `key` has a value.
    pub fn contains_key(&self, key: &str) -> (r: bool)
        ensures
            r == self@.contains_key(key@),
    {
        match self.get(key) {
            Some(_) => true,
            None => false,
        }
    }

    /// Stores `value` under `key`, replacing any earlier value.
    pub fn insert(&mut self, key: String, value: V)
        ensures
            final(self)@ == old(self)@.insert(key@, value@),
    {
        proof {
            use_type_invariant(&*self);
        }
        let ghost before = self.entries@;
        let ghost kv = key@;
        let ghost vv = value@;
        let found = self.find(key.as_str());
        let mut entries = Vec::new();
        std::mem::swap(&mut entries, &mut self.entries);
        match found {
            Some(k) => {
                entries.set(k, (key, value));
            },
            None => {
                entries.push((key, value));
            },
        }
        assert(forall|i: int| 0 <= i < entries@.len() && entries@[i].0@ != kv ==> {
            &&& i < before.len()
            &&& entries@[i] == before[i]
        });
        assert forall|i: int, j: int|
            0 <= i < entries@.len() && 0 <= j < entries@.len() && i != j
                implies #[trigger] entries@[i].0@ != #[trigger] entries@[j].0@ by {
            if entries@[i].0@ != kv && entries@[j].0@ != kv {
                assert(before[i].0@ != before[j].0@);
            } else if entries@[i].0@ == kv && entries@[j].0@ == kv {
                if found is Some {
                    let k = found->0;
                    if i != k as int {
                        assert(before[i].0@ != before[k as int].0@);
                    } else {
                        assert(before[j].0@ != before[k as int].0@);
                    }
                } else {
                    if i < before.len() {
                        assert(before[i].0@ != kv);
                    } else {
                        assert(before[j].0@ != kv);
                    }
                }
            }
        }
        self.entries = entries;
        proof {
            let target = old(self)@.insert(kv, vv);
            assert forall|x: Seq<char>| self@.contains_key(x) <==> target.contains_key(x) by {
                if self@.contains_key(x) {
                    let j = choose|j: int| 0 <= j < self.entries@.len() && self.entries@[j].0@ == x;
                    if x != kv {
                        assert(before[j].0@ == x);
                        assert(old(self).has_key(x));
                    }
                }
                if old(self)@.contains_key(x) && x != kv {
                    let j = choose|j: int| 0 <= j < before.len() && before[j].0@ == x;
                    assert(self.entries@[j].0@ == x);
                    assert(self.has_key(x));
                }
                if x == kv {
                    match found {
                        Some(k) => assert(self.entries@[k as int].0@ == x),
                        None => assert(self.entries@[before.len() as int].0@ == x),
                    }
                    assert(self.has_key(x));
                }
            }
            assert forall|x: Seq<char>| #[trigger] self@.contains_key(x) implies self@[x] == target[x] by {
                let j = self.slot(x);
                self.lemma_slot(j);
                if x != kv {
                    old(self).lemma_slot(j);
                }
            }
            assert(self@ =~= target);
        }
    }
}

impl<V: View> View for StringMap<V> {
    type V = Map<Seq<char>, V::V>;

    closed spec fn view(&self) -> Map<Seq<char>, V::V> {
        Map::new(|k: Seq<char>| self.has_key(k), |k: Seq<char>| self.entries@[self.slot(k)].1@)
    }
}

impl Default for StringSet {
    fn default() -> (r: Self)
        ensures
            r@ == Set::<Seq<char>>::empty(),
    {
        StringSet::new()
    }
}

impl<V: View> Default for StringMap<V> {
    fn default() -> (r: Self)
        ensures
            r@ == Map::<Seq<char>, V::V>::empty(),
    {
        StringMap::new()
    }
}

} // verus!
