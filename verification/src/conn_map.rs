//! A small map keyed by connection id (a `String`), kept as a vector of
//! entries whose keys are pairwise distinct.  Its view is a `Map` from the
//! key's characters to the value.

use vstd::prelude::*;

verus! {

/// Entries keyed by connection id; no key occurs twice.
pub struct ConnMap<V> {
    pub items: Vec<(String, V)>,
}

/// No two entries of `s` share a key.
pub open spec fn keys_unique<V>(s: Seq<(String, V)>) -> bool {
    forall|i: int, j: int| 0 <= i < s.len() && 0 <= j < s.len() && i != j ==> s[i].0@ != s[j].0@
}

/// Whether some entry of `s` has key `k`.
pub open spec fn has_key<V>(s: Seq<(String, V)>, k: Seq<char>) -> bool {
    exists|i: int| 0 <= i < s.len() && s[i].0@ == k
}

/// The entries of `s` as a map from key to value.
pub open spec fn map_of<V>(s: Seq<(String, V)>) -> Map<Seq<char>, V> {
    Map::new(
        |k: Seq<char>| has_key(s, k),
        |k: Seq<char>| s[choose|i: int| 0 <= i < s.len() && s[i].0@ == k].1,
    )
}

/// In a sequence with distinct keys, the entry at `i` gives the map's value for its key.
pub proof fn lemma_map_of_at<V>(s: Seq<(String, V)>, i: int)
    requires
        keys_unique(s),
        0 <= i < s.len(),
    ensures
        map_of(s).contains_key(s[i].0@),
        map_of(s)[s[i].0@] == s[i].1,
{
    let k = s[i].0@;
    assert(has_key(s, k));
    let j = choose|j: int| 0 <= j < s.len() && s[j].0@ == k;
    assert(j == i);
}

impl<V> View for ConnMap<V> {
    type V = Map<Seq<char>, V>;

    open spec fn view(&self) -> Map<Seq<char>, V> {
        map_of(self.items@)
    }
}

impl<V> ConnMap<V> {
    /// Keys are pairwise distinct.
    pub open spec fn wf(&self) -> bool {
        keys_unique(self.items@)
    }

    /// An empty map.
    pub fn new() -> (r: Self)
        ensures
            r.wf(),
            r@ == Map::<Seq<char>, V>::empty(),
    {
        let r = ConnMap { items: Vec::new() };
        assert(r@ =~= Map::<Seq<char>, V>::empty());
        r
    }

    /// The position of the entry with key `key`, if there is one.
    pub fn find(&self, key: &str) -> (r: Option<usize>)
        ensures
            match r {
                Some(i) => i < self.items.len() && self.items@[i as int].0@ == key@,
                None => !self@.contains_key(key@),
            },
    {
        let k = String::from_str(key);
        let mut i: usize = 0;
        while i < self.items.len()
            invariant
                i <= self.items.len(),
                k@ == key@,
                forall|j: int| 0 <= j < i ==> self.items@[j].0@ != key@,
            decreases self.items.len() - i,
        {
            if self.items[i].0 == k {
                return Some(i);
            }
            i = i + 1;
        }
        None
    }

    /// The value stored under `key`, if any.
    pub fn get(&self, key: &str) -> (r: Option<&V>)
        requires
            self.wf(),
        ensures
            r.is_some() == self@.contains_key(key@),
            r matches Some(v) ==> *v == self@[key@],
    {
        match self.find(key) {
            Some(i) => {
                proof {
                    lemma_map_of_at(self.items@, i as int);
                }
                Some(&self.items[i].1)
            },
            None => None,
        }
    }

    /// Removes the entry with key `key` and returns its value.
    pub fn remove(&mut self, key: &str) -> (r: Option<V>)
        requires
            old(self).wf(),
        ensures
            final(self).wf(),
            r.is_some() == old(self)@.contains_key(key@),
            r matches Some(v) ==> v == old(self)@[key@],
            final(self)@ == old(self)@.remove(key@),
    {
        match self.find(key) {
            Some(i) => {
                let ghost s = self.items@;
                proof {
                    lemma_map_of_at(s, i as int);
                }
                let (_, v) = self.items.remove(i);
                let ghost t = self.items@;
                assert(t == s.remove(i as int));
                assert forall|a: int, b: int|
                    0 <= a < t.len() && 0 <= b < t.len() && a != b implies t[a].0@ != t[b].0@ by {
                    let sa = if a < i { a } else { a + 1 };
                    let sb = if b < i { b } else { b + 1 };
                    assert(t[a] == s[sa]);
                    assert(t[b] == s[sb]);
                }
                assert forall|k: Seq<char>|
                    #![trigger map_of(t).contains_key(k)]
                    map_of(t).contains_key(k) == map_of(s).remove(key@).contains_key(k) by {
                    if has_key(t, k) {
                        let a = choose|a: int| 0 <= a < t.len() && t[a].0@ == k;
                        let sa = if a < i { a } else { a + 1 };
                        assert(t[a] == s[sa]);
                        assert(has_key(s, k));
                    }
                    if has_key(s, k) && k != key@ {
                        let a = choose|a: int| 0 <= a < s.len() && s[a].0@ == k;
                        assert(a != i);
                        let ta = if a < i { a } else { a - 1 };
                        assert(t[ta] == s[a]);
                        assert(has_key(t, k));
                    }
                }
                assert forall|k: Seq<char>| #[trigger]
                    map_of(t).contains_key(k) implies map_of(t)[k] == map_of(s).remove(key@)[k] by {
                    let a = choose|a: int| 0 <= a < t.len() && t[a].0@ == k;
                    let sa = if a < i { a } else { a + 1 };
                    assert(t[a] == s[sa]);
                    lemma_map_of_at(t, a);
                    lemma_map_of_at(s, sa);
                }
                assert(map_of(t) =~= map_of(s).remove(key@));
                Some(v)
            },
            None => {
                assert(self@ =~= old(self)@.remove(key@));
                None
            },
        }
    }

    /// Stores `v` under `key`, replacing any earlier value.
    pub fn insert(&mut self, key: String, v: V)
        requires
            old(self).wf(),
        ensures
            final(self).wf(),
            final(self)@ == old(self)@.insert(key@, v),
    {
        let _ = self.remove(key.as_str());
        let ghost s = self.items@;
        let ghost m = map_of(s);
        let ghost kk = key@;
        assert(!m.contains_key(kk));
        self.items.push((key, v));
        let ghost t = self.items@;
        assert(t == s.push((t.last().0, v)));
        assert forall|a: int, b: int|
            0 <= a < t.len() && 0 <= b < t.len() && a != b implies t[a].0@ != t[b].0@ by {
            if a == s.len() {
                assert(!has_key(s, kk));
                assert(t[b] == s[b]);
            } else if b == s.len() {
                assert(!has_key(s, kk));
                assert(t[a] == s[a]);
            } else {
                assert(t[a] == s[a]);
                assert(t[b] == s[b]);
            }
        }
        assert forall|k: Seq<char>|
            #![trigger map_of(t).contains_key(k)]
            map_of(t).contains_key(k) == m.insert(kk, v).contains_key(k) by {
            if has_key(s, k) {
                let a = choose|a: int| 0 <= a < s.len() && s[a].0@ == k;
                assert(t[a] == s[a]);
            }
            if k == kk {
                assert(t[s.len() as int].0@ == kk);
            }
            if has_key(t, k) && k != kk {
                let a = choose|a: int| 0 <= a < t.len() && t[a].0@ == k;
                assert(a != s.len());
                assert(t[a] == s[a]);
            }
        }
        assert forall|k: Seq<char>| #[trigger]
            map_of(t).contains_key(k) implies map_of(t)[k] == m.insert(kk, v)[k] by {
            let a = choose|a: int| 0 <= a < t.len() && t[a].0@ == k;
            lemma_map_of_at(t, a);
            if a < s.len() {
                assert(t[a] == s[a]);
                lemma_map_of_at(s, a);
            }
        }
        assert(map_of(t) =~= m.insert(kk, v));
    }
}

} // verus!
