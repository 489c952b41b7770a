//! A map from names (texts) to values, kept as a list of entries whose
//! names are pairwise distinct.

use vstd::prelude::*;
use crate::text::{chars_equal, chars_of};

verus! {

/// A finite map keyed by text names.  No name occurs twice.
#[derive(Debug)]
pub struct NameMap<V> {
    entries: Vec<(String, V)>,
}

impl<V> NameMap<V> {
    #[verifier::type_invariant]
    closed spec fn names_distinct(self) -> bool {
        forall|i: int, j: int|
            0 <= i < self.entries@.len() && 0 <= j < self.entries@.len() && i != j
                ==> #[trigger] self.entries@[i].0@ != #[trigger] self.entries@[j].0@
    }

    /// The names of the entries, in the order they are kept.
    pub closed spec fn names(self) -> Seq<Seq<char>> {
        Seq::new(self.entries@.len(), |i: int| self.entries@[i].0@)
    }

    /// Some entry is named `k`.
    pub closed spec fn has_name(self, k: Seq<char>) -> bool {
        exists|i: int| 0 <= i < self.entries@.len() && self.entries@[i].0@ == k
    }

    /// The position of the entry named `k`.
    closed spec fn position(self, k: Seq<char>) -> int {
        choose|i: int| 0 <= i < self.entries@.len() && self.entries@[i].0@ == k
    }

    proof fn lemma_position(self, i: int)
        requires
            self.names_distinct(),
            0 <= i < self.entries@.len(),
        ensures
            self.has_name(self.entries@[i].0@),
            self.position(self.entries@[i].0@) == i,
    {
        let k = self.entries@[i].0@;
        assert(self.has_name(k));
        let j = self.position(k);
        assert(self.entries@[j].0@ == k);
    }
}

impl<V: DeepView> View for NameMap<V> {
    type V = Map<Seq<char>, V::V>;

    closed spec fn view(&self) -> Map<Seq<char>, V::V> {
        Map::new(
            |k: Seq<char>| self.has_name(k),
            |k: Seq<char>| self.entries@[self.position(k)].1.deep_view(),
        )
    }
}

impl<V: DeepView> NameMap<V> {
    /// The empty map.
    pub fn new() -> (r: Self)
        ensures
            r@ == Map::<Seq<char>, V::V>::empty(),
            r.names().len() == 0,
    {
        let r = NameMap { entries: Vec::new() };
        assert(r@ =~= Map::<Seq<char>, V::V>::empty());
        r
    }

    proof fn lemma_view_at(self, i: int)
        requires
            self.names_distinct(),
            0 <= i < self.entries@.len(),
        ensures
            self@.contains_key(self.entries@[i].0@),
            self@[self.entries@[i].0@] == self.entries@[i].1.deep_view(),
    {
        self.lemma_position(i);
    }

    /// The position of the entry named like `key`, if any.
    fn find(&self, key: &Vec<char>) -> (r: Option<usize>)
        ensures
            match r {
                Some(i) => i < self.entries@.len() && self.entries@[i as int].0@ == key@,
                None => !self.has_name(key@),
            },
    {
        let n = self.entries.len();
        let mut i: usize = 0;
        while i < n
            invariant
                n == self.entries@.len(),
                i <= n,
                forall|j: int| 0 <= j < i ==> self.entries@[j].0@ != key@,
            decreases n - i,
        {
            let name = chars_of(self.entries[i].0.as_str());
            if chars_equal(&name, key) {
                return Some(i);
            }
            i = i + 1;
        }
        None
    }

    /// The number of entries.
    pub fn len(&self) -> (n: usize)
        ensures
            n == self.names().len(),
            forall|i: int, j: int|
                0 <= i < n && 0 <= j < n && i != j ==> self.names()[i] != self.names()[j],
            forall|k: Seq<char>| self@.contains_key(k) <==> self.names().contains(k),
    {
        proof {
            use_type_invariant(self);
            assert forall|k: Seq<char>| self@.contains_key(k) <==> self.names().contains(k) by {
                if self@.contains_key(k) {
                    let i = self.position(k);
                    assert(self.names()[i] == k);
                }
                if self.names().contains(k) {
                    let i = choose|i: int| 0 <= i < self.names().len() && self.names()[i] == k;
                    assert(self.entries@[i].0@ == k);
                }
            }
        }
        self.entries.len()
    }

    /// The entry at position `i` of the kept order.
    pub fn entry(&self, i: usize) -> (r: (&String, &V))
        requires
            i < self.names().len(),
        ensures
            r.0@ == self.names()[i as int],
            self@.contains_key(r.0@),
            self@[r.0@] == r.1.deep_view(),
    {
        proof {
            use_type_invariant(self);
            self.lemma_view_at(i as int);
        }
        (&self.entries[i].0, &self.entries[i].1)
    }

    /// The value stored under `key`.
    pub fn get(&self, key: &str) -> (r: Option<&V>)
        ensures
            r is Some <==> self@.contains_key(key@),
            r matches Some(v) ==> v.deep_view() == self@[key@],
    {
        let key_chars = chars_of(key);
        self.get_chars(&key_chars)
    }

    /// The value stored under the name spelled by `key`.
    pub fn get_chars(&self, key: &Vec<char>) -> (r: Option<&V>)
        ensures
            r is Some <==> self@.contains_key(key@),
            r matches Some(v) ==> v.deep_view() == self@[key@],
    {
        proof {
            use_type_invariant(self);
        }
        match self.find(key) {
            Some(i) => {
                proof {
                    self.lemma_view_at(i as int);
                }
                Some(&self.entries[i].1)
            },
            None => None,
        }
    }

    /// Whether some entry is named `key`.
    pub fn contains_key(&self, key: &str) -> (r: bool)
        ensures
            r == self@.contains_key(key@),
    {
        self.get(key).is_some()
    }

    /// Stores `value` under `key`, replacing what was stored there.
    pub fn insert(&mut self, key: String, value: V)
        ensures
            final(self)@ == old(self)@.insert(key@, value.deep_view()),
    {
        proof {
            use_type_invariant(&*self);
        }
        let ghost old_self = *self;
        let ghost kv = key@;
        let ghost vv = value.deep_view();
        let key_chars = chars_of(key.as_str());
        let idx = self.find(&key_chars);
        let mut entries: Vec<(String, V)> = Vec::new();
        std::mem::swap(&mut entries, &mut self.entries);
        let ghost at: int;
        match idx {
            Some(i) => {
                entries.set(i, (key, value));
                proof {
                    at = i as int;
                    assert forall|j: int| 0 <= j < entries@.len() implies #[trigger] entries@[j].0@
                        == old_self.entries@[j].0@ by {}
                }
            },
            None => {
                entries.push((key, value));
                proof {
                    at = old_self.entries@.len() as int;
                }
            },
        }
        proof {
            assert(0 <= at < entries@.len());
            assert(entries@[at].0@ == kv && entries@[at].1.deep_view() == vv);
            assert forall|j: int| 0 <= j < entries@.len() && j != at implies #[trigger] entries@[j]
                == old_self.entries@[j] by {}
            assert forall|j: int| 0 <= j < entries@.len() && j != at implies #[trigger] entries@[j].0@
                != kv by {}
        }
        self.entries = entries;
        proof {
            use_type_invariant(&*self);
            let new_self = *self;
            assert forall|k: Seq<char>|
                #![trigger new_self@.contains_key(k)]
                new_self@.contains_key(k) == old_self@.insert(kv, vv).contains_key(k)
                    && (new_self@.contains_key(k) ==> new_self@[k] == old_self@.insert(kv, vv)[k]) by {
                if k == kv {
                    new_self.lemma_view_at(at);
                } else {
                    if new_self@.contains_key(k) {
                        let j = new_self.position(k);
                        new_self.lemma_view_at(j);
                        old_self.lemma_view_at(j);
                    }
                    if old_self@.contains_key(k) {
                        let j = old_self.position(k);
                        old_self.lemma_view_at(j);
                        new_self.lemma_view_at(j);
                    }
                }
            }
            assert(new_self@ =~= old_self@.insert(kv, vv));
        }
    }

    /// Takes out the value stored under `key`, if any.
    pub fn remove(&mut self, key: &str) -> (r: Option<V>)
        ensures
            final(self)@ == old(self)@.remove(key@),
            r is Some <==> old(self)@.contains_key(key@),
            r matches Some(v) ==> v.deep_view() == old(self)@[key@],
    {
        proof {
            use_type_invariant(&*self);
        }
        let ghost old_self = *self;
        let ghost kv = key@;
        let key_chars = chars_of(key);
        let idx = self.find(&key_chars);
        match idx {
            None => {
                proof {
                    assert(!old_self@.contains_key(kv));
                    assert(old_self@ =~= old_self@.remove(kv));
                }
                None
            },
            Some(i) => {
                let mut entries: Vec<(String, V)> = Vec::new();
                std::mem::swap(&mut entries, &mut self.entries);
                let taken = entries.remove(i);
                proof {
                    old_self.lemma_view_at(i as int);
                    assert forall|j: int| 0 <= j < entries@.len() implies #[trigger] entries@[j]
                        == old_self.entries@[if j < i { j } else { j + 1 }] by {}
                    assert forall|j: int| 0 <= j < entries@.len() implies #[trigger] entries@[j].0@
                        != kv by {}
                }
                self.entries = entries;
                proof {
                    use_type_invariant(&*self);
                    let new_self = *self;
                    assert forall|k: Seq<char>|
                        #![trigger new_self@.contains_key(k)]
                        new_self@.contains_key(k) == old_self@.remove(kv).contains_key(k) && (
                        new_self@.contains_key(k) ==> new_self@[k] == old_self@.remove(kv)[k]) by {
                        if new_self@.contains_key(k) {
                            let j = new_self.position(k);
                            new_self.lemma_view_at(j);
                            old_self.lemma_view_at(if j < i { j } else { j + 1 });
                        }
                        if old_self@.contains_key(k) && k != kv {
                            let j = old_self.position(k);
                            old_self.lemma_view_at(j);
                            assert(j != i);
                            new_self.lemma_view_at(if j < i { j } else { j - 1 });
                        }
                    }
                    assert(new_self@ =~= old_self@.remove(kv));
                }
                Some(taken.1)
            },
        }
    }

    /// The names of all entries, each once.
    pub fn keys(&self) -> (r: Vec<String>)
        ensures
            r@.len() == self.names().len(),
            forall|i: int| 0 <= i < r@.len() ==> #[trigger] r@[i]@ == self.names()[i],
    {
        let n = self.entries.len();
        let mut out: Vec<String> = Vec::new();
        let mut i: usize = 0;
        while i < n
            invariant
                n == self.names().len(),
                i <= n,
                out@.len() == i,
                forall|j: int| 0 <= j < i ==> #[trigger] out@[j]@ == self.names()[j],
            decreases n - i,
        {
            out.push(self.entries[i].0.clone());
            i = i + 1;
        }
        out
    }
}

} // verus!
