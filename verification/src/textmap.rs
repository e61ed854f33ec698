//! A map keyed by text that keeps its keys in insertion order.

use vstd::prelude::*;

verus! {

/// The map that a list of key/value pairs describes; a later pair wins.
pub open spec fn assoc_map<K, V>(s: Seq<(K, V)>) -> Map<K, V>
    decreases s.len(),
{
    if s.len() == 0 {
        Map::empty()
    } else {
        assoc_map(s.drop_last()).insert(s.last().0, s.last().1)
    }
}

/// No key occurs twice.
pub open spec fn keys_distinct<K, V>(s: Seq<(K, V)>) -> bool {
    forall|i: int, j: int| 0 <= i < s.len() && 0 <= j < s.len() && i != j ==> s[i].0 != s[j].0
}

/// The keys of a list of pairs, in order.
pub open spec fn keys_of<K, V>(s: Seq<(K, V)>) -> Seq<K> {
    s.map_values(|p: (K, V)| p.0)
}

/// A key is in the map of an association list exactly when some entry has it.
pub proof fn lemma_assoc_dom<K, V>(s: Seq<(K, V)>, k: K)
    ensures
        assoc_map(s).contains_key(k) <==> exists|i: int| 0 <= i < s.len() && s[i].0 == k,
    decreases s.len(),
{
    if s.len() > 0 {
        lemma_assoc_dom(s.drop_last(), k);
        if assoc_map(s).contains_key(k) {
            if s.last().0 != k {
                let i = choose|i: int| 0 <= i < s.drop_last().len() && s.drop_last()[i].0 == k;
                assert(s[i].0 == k);
            } else {
                assert(s[s.len() - 1].0 == k);
            }
        } else {
            assert forall|i: int| 0 <= i < s.len() implies s[i].0 != k by {
                if i < s.len() - 1 {
                    assert(s.drop_last()[i] == s[i]);
                }
            }
        }
    }
}

/// With distinct keys, the map gives each entry's value for its key.
pub proof fn lemma_assoc_lookup<K, V>(s: Seq<(K, V)>, i: int)
    requires
        keys_distinct(s),
        0 <= i < s.len(),
    ensures
        assoc_map(s).contains_key(s[i].0),
        assoc_map(s)[s[i].0] == s[i].1,
    decreases s.len(),
{
    if i < s.len() - 1 {
        let t = s.drop_last();
        assert(keys_distinct(t)) by {
            assert forall|a: int, b: int|
                0 <= a < t.len() && 0 <= b < t.len() && a != b implies t[a].0 != t[b].0 by {
                assert(t[a] == s[a] && t[b] == s[b]);
            }
        }
        assert(t[i] == s[i]);
        lemma_assoc_lookup(t, i);
        assert(s.last().0 != s[i].0);
    }
}

/// Replacing an entry's value updates the map at its key.
pub proof fn lemma_assoc_update<K, V>(s: Seq<(K, V)>, i: int, v: V)
    requires
        keys_distinct(s),
        0 <= i < s.len(),
    ensures
        assoc_map(s.update(i, (s[i].0, v))) == assoc_map(s).insert(s[i].0, v),
        keys_distinct(s.update(i, (s[i].0, v))),
        keys_of(s.update(i, (s[i].0, v))) == keys_of(s),
{
    let u = s.update(i, (s[i].0, v));
    assert(keys_of(u) =~= keys_of(s));
    assert(keys_distinct(u)) by {
        assert forall|a: int, b: int|
            0 <= a < u.len() && 0 <= b < u.len() && a != b implies u[a].0 != u[b].0 by {
            assert(u[a].0 == s[a].0 && u[b].0 == s[b].0);
        }
    }
    assert forall|k: K| #[trigger] assoc_map(u).contains_key(k) == assoc_map(s).insert(
        s[i].0,
        v,
    ).contains_key(k) by {
        lemma_assoc_dom(u, k);
        lemma_assoc_dom(s, k);
        if exists|j: int| 0 <= j < u.len() && u[j].0 == k {
            let j = choose|j: int| 0 <= j < u.len() && u[j].0 == k;
            assert(s[j].0 == k);
        }
        if exists|j: int| 0 <= j < s.len() && s[j].0 == k {
            let j = choose|j: int| 0 <= j < s.len() && s[j].0 == k;
            assert(u[j].0 == k);
        }
    }
    assert forall|k: K| assoc_map(u).contains_key(k) implies #[trigger] assoc_map(u)[k]
        == assoc_map(s).insert(s[i].0, v)[k] by {
        lemma_assoc_dom(u, k);
        let j = choose|j: int| 0 <= j < u.len() && u[j].0 == k;
        lemma_assoc_lookup(u, j);
        if j != i {
            lemma_assoc_lookup(s, j);
        }
    }
    assert(assoc_map(u) =~= assoc_map(s).insert(s[i].0, v));
}

/// Removing an entry removes its key from the map.
pub proof fn lemma_assoc_remove<K, V>(s: Seq<(K, V)>, i: int)
    requires
        keys_distinct(s),
        0 <= i < s.len(),
    ensures
        assoc_map(s.remove(i)) == assoc_map(s).remove(s[i].0),
        keys_distinct(s.remove(i)),
        keys_of(s.remove(i)) == keys_of(s).remove(i),
{
    let u = s.remove(i);
    assert(keys_of(u) =~= keys_of(s).remove(i));
    assert(keys_distinct(u)) by {
        assert forall|a: int, b: int|
            0 <= a < u.len() && 0 <= b < u.len() && a != b implies u[a].0 != u[b].0 by {
            let a2 = if a < i { a } else { a + 1 };
            let b2 = if b < i { b } else { b + 1 };
            assert(u[a] == s[a2] && u[b] == s[b2]);
        }
    }
    assert forall|k: K| #[trigger] assoc_map(u).contains_key(k) == assoc_map(s).remove(
        s[i].0,
    ).contains_key(k) by {
        lemma_assoc_dom(u, k);
        lemma_assoc_dom(s, k);
        if exists|j: int| 0 <= j < u.len() && u[j].0 == k {
            let j = choose|j: int| 0 <= j < u.len() && u[j].0 == k;
            let j2 = if j < i { j } else { j + 1 };
            assert(s[j2] == u[j]);
        }
        if exists|j: int| 0 <= j < s.len() && s[j].0 == k && j != i {
            let j = choose|j: int| 0 <= j < s.len() && s[j].0 == k && j != i;
            let j2 = if j < i { j } else { j - 1 };
            assert(u[j2] == s[j]);
        }
    }
    assert forall|k: K| assoc_map(u).contains_key(k) implies #[trigger] assoc_map(u)[k]
        == assoc_map(s).remove(s[i].0)[k] by {
        lemma_assoc_dom(u, k);
        let j = choose|j: int| 0 <= j < u.len() && u[j].0 == k;
        let j2 = if j < i { j } else { j + 1 };
        assert(s[j2] == u[j]);
        lemma_assoc_lookup(u, j);
        lemma_assoc_lookup(s, j2);
    }
    assert(assoc_map(u) =~= assoc_map(s).remove(s[i].0));
}

/// Appending an entry with a new key inserts it into the map.
pub proof fn lemma_assoc_push<K, V>(s: Seq<(K, V)>, k: K, v: V)
    requires
        keys_distinct(s),
        !assoc_map(s).contains_key(k),
    ensures
        assoc_map(s.push((k, v))) == assoc_map(s).insert(k, v),
        keys_distinct(s.push((k, v))),
        keys_of(s.push((k, v))) == keys_of(s).push(k),
{
    let u = s.push((k, v));
    assert(u.drop_last() =~= s);
    assert(keys_of(u) =~= keys_of(s).push(k));
    lemma_assoc_dom(s, k);
    assert(keys_distinct(u)) by {
        assert forall|a: int, b: int|
            0 <= a < u.len() && 0 <= b < u.len() && a != b implies u[a].0 != u[b].0 by {
            if a < s.len() && b < s.len() {
                assert(u[a] == s[a] && u[b] == s[b]);
            } else if a < s.len() {
                assert(u[a] == s[a]);
            } else {
                assert(u[b] == s[b]);
            }
        }
    }
}

/// A map keyed by text, in the order its keys were first inserted.
pub struct TextMap<V> {
    entries: Vec<(Vec<char>, V)>,
}

impl<V> TextMap<V> {
    /// The pairs, with keys as text, in insertion order.
    pub closed spec fn pairs(&self) -> Seq<(Seq<char>, V)> {
        self.entries@.map_values(|e: (Vec<char>, V)| (e.0@, e.1))
    }

    /// The keys, in insertion order.
    pub open spec fn keys(&self) -> Seq<Seq<char>> {
        keys_of(self.pairs())
    }

    /// No key is held twice.
    pub open spec fn wf(&self) -> bool {
        keys_distinct(self.pairs())
    }

    /// An empty map.
    pub fn new() -> (r: Self)
        ensures
            r.wf(),
            r@ == Map::<Seq<char>, V>::empty(),
            r.keys() == Seq::<Seq<char>>::empty(),
    {
        let r = TextMap { entries: Vec::new() };
        assert(r.pairs() =~= Seq::<(Seq<char>, V)>::empty());
        assert(r.keys() =~= Seq::<Seq<char>>::empty());
        r
    }

    /// The number of keys.
    pub fn len(&self) -> (n: usize)
        ensures
            n == self.keys().len(),
    {
        self.entries.len()
    }

    /// The key at a position of the insertion order.
    pub fn key_at(&self, i: usize) -> (k: &Vec<char>)
        requires
            i < self.keys().len(),
        ensures
            k@ == self.keys()[i as int],
    {
        &self.entries[i].0
    }

    /// The value of the key at a position of the insertion order.
    pub fn value_at(&self, i: usize) -> (v: &V)
        requires
            self.wf(),
            i < self.keys().len(),
        ensures
            self@.contains_key(self.keys()[i as int]),
            *v == self@[self.keys()[i as int]],
    {
        proof {
            lemma_assoc_lookup(self.pairs(), i as int);
        }
        &self.entries[i].1
    }

    /// The position of a key, if it is held.
    pub fn find(&self, key: &[char]) -> (r: Option<usize>)
        requires
            self.wf(),
        ensures
            match r {
                Some(i) => i < self.keys().len() && self.keys()[i as int] == key@
                    && self@.contains_key(key@),
                None => !self@.contains_key(key@),
            },
    {
        let mut i: usize = 0;
        while i < self.entries.len()
            invariant
                self.wf(),
                i <= self.entries@.len(),
                forall|j: int| 0 <= j < i ==> self.pairs()[j].0 != key@,
            decreases self.entries.len() - i,
        {
            if crate::text::chars_eq(self.entries[i].0.as_slice(), key) {
                proof {
                    lemma_assoc_lookup(self.pairs(), i as int);
                }
                return Some(i);
            }
            i += 1;
        }
        proof {
            lemma_assoc_dom(self.pairs(), key@);
        }
        None
    }

    /// Whether a key is held.
    pub fn contains(&self, key: &[char]) -> (r: bool)
        requires
            self.wf(),
        ensures
            r == self@.contains_key(key@),
    {
        self.find(key).is_some()
    }

    /// The value of a key, if it is held.
    pub fn get(&self, key: &[char]) -> (r: Option<&V>)
        requires
            self.wf(),
        ensures
            match r {
                Some(v) => self@.contains_key(key@) && *v == self@[key@],
                None => !self@.contains_key(key@),
            },
    {
        match self.find(key) {
            Some(i) => Some(self.value_at(i)),
            None => None,
        }
    }

    /// Sets the value at a position of the insertion order.
    pub fn set_value_at(&mut self, i: usize, v: V)
        requires
            old(self).wf(),
            i < old(self).keys().len(),
        ensures
            final(self).wf(),
            final(self)@ == old(self)@.insert(old(self).keys()[i as int], v),
            final(self).keys() == old(self).keys(),
    {
        let ghost p0 = self.pairs();
        let (k, _old) = self.entries.remove(i);
        self.entries.insert(i, (k, v));
        proof {
            assert(self.pairs() =~= p0.update(i as int, (p0[i as int].0, v)));
            lemma_assoc_update(p0, i as int, v);
        }
    }

    /// Sets the value of a key; a new key goes last in the order.
    pub fn insert(&mut self, key: Vec<char>, v: V)
        requires
            old(self).wf(),
        ensures
            final(self).wf(),
            final(self)@ == old(self)@.insert(key@, v),
            final(self).keys() == if old(self)@.contains_key(key@) {
                old(self).keys()
            } else {
                old(self).keys().push(key@)
            },
    {
        match self.find(key.as_slice()) {
            Some(i) => {
                self.set_value_at(i, v);
            },
            None => {
                let ghost p0 = self.pairs();
                let ghost kv = key@;
                self.entries.push((key, v));
                proof {
                    assert(self.pairs() =~= p0.push((kv, v)));
                    lemma_assoc_push(p0, kv, v);
                }
            },
        }
    }

    /// Removes a key and gives back its value, if it was held; the other
    /// keys keep their order.
    pub fn remove(&mut self, key: &[char]) -> (r: Option<V>)
        requires
            old(self).wf(),
        ensures
            final(self).wf(),
            final(self)@ == old(self)@.remove(key@),
            match r {
                Some(v) => old(self)@.contains_key(key@) && v == old(self)@[key@],
                None => !old(self)@.contains_key(key@) && final(self).keys() == old(self).keys(),
            },
            old(self)@.contains_key(key@) ==> exists|i: int|
                0 <= i < old(self).keys().len() && old(self).keys()[i] == key@ && final(self).keys()
                    == old(self).keys().remove(i),
    {
        match self.find(key) {
            Some(i) => {
                let ghost p0 = self.pairs();
                proof {
                    lemma_assoc_lookup(p0, i as int);
                }
                let (_k, v) = self.entries.remove(i);
                proof {
                    assert(self.pairs() =~= p0.remove(i as int));
                    lemma_assoc_remove(p0, i as int);
                    assert(old(self).keys()[i as int] == key@);
                }
                Some(v)
            },
            None => {
                assert(old(self)@.remove(key@) =~= old(self)@);
                None
            },
        }
    }
}

impl<V> View for TextMap<V> {
    type V = Map<Seq<char>, V>;

    closed spec fn view(&self) -> Map<Seq<char>, V> {
        assoc_map(self.pairs())
    }
}

impl<V> TextMap<V> {
    /// The keys held are exactly those of the insertion order, and each
    /// key's value is the one of its pair.
    pub proof fn lemma_keys(&self)
        requires
            self.wf(),
        ensures
            forall|k: Seq<char>| #[trigger] self@.contains_key(k) <==> self.keys().contains(k),
            self.keys().no_duplicates(),
            self.keys().len() == self@.dom().len(),
            self@.dom().finite(),
    {
        assert forall|k: Seq<char>| #[trigger] self@.contains_key(k) <==> self.keys().contains(
            k,
        ) by {
            lemma_assoc_dom(self.pairs(), k);
            if self.keys().contains(k) {
                let i = choose|i: int| 0 <= i < self.keys().len() && self.keys()[i] == k;
                assert(self.pairs()[i].0 == k);
            }
            if self@.contains_key(k) {
                let i = choose|i: int| 0 <= i < self.pairs().len() && self.pairs()[i].0 == k;
                assert(self.keys()[i] == k);
            }
        }
        assert(self.keys().no_duplicates()) by {
            assert forall|i: int, j: int|
                0 <= i < self.keys().len() && 0 <= j < self.keys().len() && i != j implies self.keys()[i]
                != self.keys()[j] by {
                assert(self.keys()[i] == self.pairs()[i].0);
                assert(self.keys()[j] == self.pairs()[j].0);
            }
        }
        assert(self@.dom() =~= self.keys().to_set());
        self.keys().unique_seq_to_set();
    }
}

} // verus!
