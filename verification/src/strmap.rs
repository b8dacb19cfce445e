//! A map keyed by strings, kept as a vector of entries with distinct keys.
//! Its view is the mathematical map from the keys' character sequences to
//! the values; entries stay in insertion order.

use vstd::prelude::*;

verus! {

/// The map described by a sequence of entries; a later entry for a key
/// overrides an earlier one.
pub open spec fn map_of<V>(s: Seq<(String, V)>) -> Map<Seq<char>, V>
    decreases s.len(),
{
    if s.len() == 0 {
        Map::empty()
    } else {
        map_of(s.drop_last()).insert(s.last().0@, s.last().1)
    }
}

/// No two entries share a key.
pub open spec fn keys_distinct<V>(s: Seq<(String, V)>) -> bool {
    forall|i: int, j: int|
        0 <= i < s.len() && 0 <= j < s.len() && i != j ==> #[trigger] s[i].0@ != #[trigger] s[j].0@
}

/// Lookup in `map_of`: a key is present exactly when some entry carries it,
/// and with distinct keys its value is that entry's value.
pub proof fn lemma_map_of_lookup<V>(s: Seq<(String, V)>, k: Seq<char>)
    requires
        keys_distinct(s),
    ensures
        map_of(s).contains_key(k) <==> exists|i: int| 0 <= i < s.len() && #[trigger] s[i].0@ == k,
        forall|i: int| 0 <= i < s.len() && #[trigger] s[i].0@ == k ==> map_of(s)[k] == s[i].1,
    decreases s.len(),
{
    if s.len() > 0 {
        let t = s.drop_last();
        assert(keys_distinct(t)) by {
            assert forall|i: int, j: int|
                0 <= i < t.len() && 0 <= j < t.len() && i != j implies #[trigger] t[i].0@
                != #[trigger] t[j].0@ by {
                assert(t[i] == s[i] && t[j] == s[j]);
            }
        }
        lemma_map_of_lookup(t, k);
        if map_of(s).contains_key(k) {
            if k != s.last().0@ {
                let i = choose|i: int| 0 <= i < t.len() && #[trigger] t[i].0@ == k;
                assert(s[i] == t[i]);
            } else {
                assert(s[s.len() - 1].0@ == k);
            }
        }
        if exists|i: int| 0 <= i < s.len() && #[trigger] s[i].0@ == k {
            let i = choose|i: int| 0 <= i < s.len() && #[trigger] s[i].0@ == k;
            if i < s.len() - 1 {
                assert(t[i] == s[i]);
            }
        }
        assert forall|i: int| 0 <= i < s.len() && #[trigger] s[i].0@ == k implies map_of(s)[k]
            == s[i].1 by {
            if i < s.len() - 1 {
                assert(t[i] == s[i]);
                assert(s[i].0@ != s[s.len() - 1].0@);
            }
        }
    }
}

/// A map from strings to values with distinct keys, in insertion order.
pub struct StrMap<V> {
    entries: Vec<(String, V)>,
}

impl<V> View for StrMap<V> {
    type V = Map<Seq<char>, V>;

    closed spec fn view(&self) -> Map<Seq<char>, V> {
        map_of(self.entries@)
    }
}

impl<V> StrMap<V> {
    /// The entries in insertion order, keys taken by their characters.
    pub closed spec fn pairs(&self) -> Seq<(Seq<char>, V)> {
        self.entries@.map_values(|e: (String, V)| (e.0@, e.1))
    }

    /// Well-formedness: keys are distinct.
    pub closed spec fn wf(&self) -> bool {
        keys_distinct(self.entries@)
    }

    /// The number of entries equals the size of the map's domain.
    pub proof fn lemma_len(&self)
        requires
            self.wf(),
        ensures
            self@.dom().finite(),
            self@.dom().len() == self.pairs().len(),
    {
        lemma_map_of_len(self.entries@);
    }

    /// The empty map.
    pub fn new() -> (m: Self)
        ensures
            m.wf(),
            m@ == Map::<Seq<char>, V>::empty(),
            m.pairs().len() == 0,
    {
        StrMap { entries: Vec::new() }
    }

    /// Number of entries.
    pub fn len(&self) -> (n: usize)
        ensures
            n == self.pairs().len(),
    {
        self.entries.len()
    }

    fn find(&self, key: &String) -> (r: Option<usize>)
        requires
            self.wf(),
        ensures
            match r {
                Some(i) => i < self.entries@.len() && self.entries@[i as int].0@ == key@,
                None => forall|i: int|
                    0 <= i < self.entries@.len() ==> #[trigger] self.entries@[i].0@ != key@,
            },
    {
        let mut i: usize = 0;
        while i < self.entries.len()
            invariant
                0 <= i <= self.entries@.len(),
                forall|j: int| 0 <= j < i ==> #[trigger] self.entries@[j].0@ != key@,
            decreases self.entries@.len() - i,
        {
            if self.entries[i].0 == *key {
                return Some(i);
            }
            i = i + 1;
        }
        None
    }

    /// Whether the key is present.
    pub fn contains_key(&self, key: &str) -> (b: bool)
        requires
            self.wf(),
        ensures
            b == self@.contains_key(key@),
    {
        let k = String::from_str(key);
        proof {
            lemma_map_of_lookup(self.entries@, key@);
        }
        self.find(&k).is_some()
    }

    /// The value stored under the key, if any.
    pub fn get(&self, key: &str) -> (r: Option<&V>)
        requires
            self.wf(),
        ensures
            match r {
                Some(v) => self@.contains_key(key@) && *v == self@[key@],
                None => !self@.contains_key(key@),
            },
    {
        let k = String::from_str(key);
        proof {
            lemma_map_of_lookup(self.entries@, key@);
        }
        match self.find(&k) {
            Some(i) => Some(&self.entries[i].1),
            None => None,
        }
    }

    /// Stores `value` under `key`, replacing any earlier value for that key.
    pub fn insert(&mut self, key: String, value: V)
        requires
            old(self).wf(),
        ensures
            final(self).wf(),
            final(self)@ == old(self)@.insert(key@, value),
    {
        let ghost k = key@;
        let ghost old_entries = self.entries@;
        proof {
            lemma_map_of_lookup(old_entries, k);
        }
        match self.find(&key) {
            Some(i) => {
                self.entries.set(i, (key, value));
                let ghost ne = self.entries@;
                assert(ne == old_entries.update(i as int, (ne[i as int].0, value)));
                assert(keys_distinct(ne)) by {
                    assert forall|a: int, b: int|
                        0 <= a < ne.len() && 0 <= b < ne.len() && a != b implies #[trigger] ne[a].0@
                        != #[trigger] ne[b].0@ by {
                        if a != i && b != i {
                            assert(ne[a] == old_entries[a] && ne[b] == old_entries[b]);
                        } else if a == i {
                            assert(ne[b] == old_entries[b]);
                        } else {
                            assert(ne[a] == old_entries[a]);
                        }
                    }
                }
                assert(map_of(ne) =~= map_of(old_entries).insert(k, value)) by {
                    assert forall|q: Seq<char>| #[trigger]
                        map_of(ne).contains_key(q) == map_of(old_entries).insert(
                            k,
                            value,
                        ).contains_key(q) by {
                        lemma_map_of_lookup(ne, q);
                        lemma_map_of_lookup(old_entries, q);
                        if map_of(old_entries).contains_key(q) {
                            let j = choose|j: int| 0 <= j < old_entries.len() && #[trigger] old_entries[j].0@ == q;
                            if j != i {
                                assert(ne[j] == old_entries[j]);
                            }
                        }
                        if map_of(ne).contains_key(q) {
                            let j = choose|j: int| 0 <= j < ne.len() && #[trigger] ne[j].0@ == q;
                            if j != i {
                                assert(ne[j] == old_entries[j]);
                            }
                        }
                    }
                    assert forall|q: Seq<char>| #[trigger] map_of(ne).contains_key(q) implies map_of(
                        ne,
                    )[q] == map_of(old_entries).insert(k, value)[q] by {
                        lemma_map_of_lookup(ne, q);
                        lemma_map_of_lookup(old_entries, q);
                        let j = choose|j: int| 0 <= j < ne.len() && #[trigger] ne[j].0@ == q;
                        if j != i {
                            assert(ne[j] == old_entries[j]);
                        }
                    }
                }
            },
            None => {
                self.entries.push((key, value));
                let ghost ne = self.entries@;
                assert(ne.drop_last() == old_entries);
                assert(keys_distinct(ne)) by {
                    assert forall|a: int, b: int|
                        0 <= a < ne.len() && 0 <= b < ne.len() && a != b implies #[trigger] ne[a].0@
                        != #[trigger] ne[b].0@ by {
                        if a < ne.len() - 1 {
                            assert(ne[a] == old_entries[a]);
                        }
                        if b < ne.len() - 1 {
                            assert(ne[b] == old_entries[b]);
                        }
                    }
                }
            },
        }
    }

    /// Removes the key, returning the value it had.
    pub fn remove(&mut self, key: &str) -> (r: Option<V>)
        requires
            old(self).wf(),
        ensures
            final(self).wf(),
            final(self)@ == old(self)@.remove(key@),
            match r {
                Some(v) => old(self)@.contains_key(key@) && v == old(self)@[key@],
                None => !old(self)@.contains_key(key@),
            },
    {
        let k = String::from_str(key);
        let ghost old_entries = self.entries@;
        proof {
            lemma_map_of_lookup(old_entries, key@);
        }
        match self.find(&k) {
            Some(i) => {
                let (_, v) = self.entries.remove(i);
                proof {
                    lemma_remove_at(old_entries, i as int);
                }
                Some(v)
            },
            None => {
                assert(map_of(old_entries) =~= map_of(old_entries).remove(key@));
                None
            },
        }
    }

    /// Removes every entry.
    pub fn clear(&mut self)
        ensures
            final(self).wf(),
            final(self)@ == Map::<Seq<char>, V>::empty(),
            final(self).pairs().len() == 0,
    {
        self.entries.clear();
    }

    /// The key of the `i`-th entry.
    pub fn key_at(&self, i: usize) -> (k: &String)
        requires
            i < self.pairs().len(),
        ensures
            k@ == self.pairs()[i as int].0,
    {
        &self.entries[i].0
    }

    /// The value of the `i`-th entry.
    pub fn value_at(&self, i: usize) -> (v: &V)
        requires
            i < self.pairs().len(),
        ensures
            *v == self.pairs()[i as int].1,
    {
        &self.entries[i].1
    }

    /// Removes the `i`-th entry; the map loses that entry's key and the
    /// other entries keep their order.
    pub fn remove_at(&mut self, i: usize)
        requires
            old(self).wf(),
            i < old(self).pairs().len(),
        ensures
            final(self).wf(),
            final(self)@ == old(self)@.remove(old(self).pairs()[i as int].0),
            final(self).pairs() == old(self).pairs().remove(i as int),
    {
        let ghost old_entries = self.entries@;
        let _ = self.entries.remove(i);
        proof {
            lemma_remove_at(old_entries, i as int);
            assert(self.pairs() =~= old_entries.map_values(|e: (String, V)| (e.0@, e.1)).remove(
                i as int,
            ));
        }
    }

    /// Keeps exactly the entries for which `f` answers `true`; `keep` is the
    /// mathematical predicate that `f` computes.
    pub fn retain<F: Fn(&String, &V) -> bool>(
        &mut self,
        f: F,
        Ghost(keep): Ghost<spec_fn(Seq<char>, V) -> bool>,
    )
        requires
            old(self).wf(),
            forall|k: &String, v: &V| #[trigger] f.requires((k, v)),
            forall|k: &String, v: &V, r: bool| f.ensures((k, v), r) ==> r == keep(k@, *v),
        ensures
            final(self).wf(),
            forall|k: Seq<char>|
                #[trigger] final(self)@.contains_key(k) <==> old(self)@.contains_key(k) && keep(
                    k,
                    old(self)@[k],
                ),
            forall|k: Seq<char>| #[trigger]
                final(self)@.contains_key(k) ==> final(self)@[k] == old(self)@[k],
    {
        let ghost orig = self@;
        let mut i: usize = 0;
        while i < self.len()
            invariant
                self.wf(),
                0 <= i <= self.pairs().len(),
                forall|k: &String, v: &V| #[trigger] f.requires((k, v)),
                forall|k: &String, v: &V, r: bool| f.ensures((k, v), r) ==> r == keep(k@, *v),
                forall|k: Seq<char>| #[trigger]
                    self@.contains_key(k) ==> orig.contains_key(k) && self@[k] == orig[k],
                forall|k: Seq<char>|
                    orig.contains_key(k) && keep(k, orig[k]) ==> #[trigger] self@.contains_key(k),
                forall|j: int|
                    0 <= j < i ==> keep(#[trigger] self.pairs()[j].0, self.pairs()[j].1),
            decreases self.pairs().len() - i,
        {
            proof {
                self.lemma_pairs();
            }
            let ghost before = self.pairs();
            let ghost before_map = self@;
            let k = self.key_at(i);
            let v = self.value_at(i);
            let b = f(k, v);
            if b {
                i = i + 1;
            } else {
                self.remove_at(i);
                proof {
                    assert forall|j: int| 0 <= j < i implies keep(
                        #[trigger] self.pairs()[j].0,
                        self.pairs()[j].1,
                    ) by {
                        assert(self.pairs()[j] == before[j]);
                    }
                    assert forall|q: Seq<char>|
                        orig.contains_key(q) && keep(q, orig[q]) implies #[trigger] self@.contains_key(q) by {
                        assert(before_map.contains_key(q));
                        if q == before[i as int].0 {
                            assert(before_map[q] == before[i as int].1);
                        }
                    }
                }
            }
        }
        proof {
            self.lemma_pairs();
            assert forall|q: Seq<char>| #[trigger] self@.contains_key(q) implies keep(q, orig[q]) by {
                let j = choose|j: int| 0 <= j < self.pairs().len() && #[trigger] self.pairs()[j].0 == q;
                assert(keep(self.pairs()[j].0, self.pairs()[j].1));
            }
        }
    }

    /// Every key of the view is the key of some entry and conversely, and
    /// each entry's value is the view's value for its key.
    pub proof fn lemma_pairs(&self)
        requires
            self.wf(),
        ensures
            forall|i: int|
                0 <= i < self.pairs().len() ==> self@.contains_key(#[trigger] self.pairs()[i].0)
                    && self@[self.pairs()[i].0] == self.pairs()[i].1,
            forall|k: Seq<char>|
                #[trigger] self@.contains_key(k) ==> exists|i: int|
                    0 <= i < self.pairs().len() && #[trigger] self.pairs()[i].0 == k,
            forall|i: int, j: int|
                0 <= i < self.pairs().len() && 0 <= j < self.pairs().len() && i != j
                    ==> #[trigger] self.pairs()[i].0 != #[trigger] self.pairs()[j].0,
    {
        assert forall|i: int| 0 <= i < self.pairs().len() implies self@.contains_key(
            #[trigger] self.pairs()[i].0,
        ) && self@[self.pairs()[i].0] == self.pairs()[i].1 by {
            lemma_map_of_lookup(self.entries@, self.entries@[i].0@);
        }
        assert forall|k: Seq<char>| #[trigger] self@.contains_key(k) implies exists|i: int|
            0 <= i < self.pairs().len() && #[trigger] self.pairs()[i].0 == k by {
            lemma_map_of_lookup(self.entries@, k);
            let i = choose|i: int| 0 <= i < self.entries@.len() && #[trigger] self.entries@[i].0@ == k;
            assert(self.pairs()[i].0 == k);
        }
        assert forall|i: int, j: int|
            0 <= i < self.pairs().len() && 0 <= j < self.pairs().len() && i != j implies #[trigger] self.pairs()[i].0
            != #[trigger] self.pairs()[j].0 by {
            assert(self.entries@[i].0@ != self.entries@[j].0@);
        }
    }
}

proof fn lemma_remove_at<V>(s: Seq<(String, V)>, i: int)
    requires
        keys_distinct(s),
        0 <= i < s.len(),
    ensures
        keys_distinct(s.remove(i)),
        map_of(s.remove(i)) == map_of(s).remove(s[i].0@),
{
    let t = s.remove(i);
    assert(keys_distinct(t)) by {
        assert forall|a: int, b: int|
            0 <= a < t.len() && 0 <= b < t.len() && a != b implies #[trigger] t[a].0@
            != #[trigger] t[b].0@ by {
            let sa = if a < i {
                a
            } else {
                a + 1
            };
            let sb = if b < i {
                b
            } else {
                b + 1
            };
            assert(t[a] == s[sa] && t[b] == s[sb]);
        }
    }
    let k = s[i].0@;
    assert forall|q: Seq<char>| #[trigger] map_of(t).contains_key(q) == map_of(s).remove(
        k,
    ).contains_key(q) by {
        lemma_map_of_lookup(t, q);
        lemma_map_of_lookup(s, q);
        if map_of(s).contains_key(q) && q != k {
            let j = choose|j: int| 0 <= j < s.len() && #[trigger] s[j].0@ == q;
            let tj = if j < i {
                j
            } else {
                j - 1
            };
            assert(t[tj] == s[j]);
        }
        if map_of(t).contains_key(q) {
            let j = choose|j: int| 0 <= j < t.len() && #[trigger] t[j].0@ == q;
            let sj = if j < i {
                j
            } else {
                j + 1
            };
            assert(t[j] == s[sj]);
        }
    }
    assert forall|q: Seq<char>| #[trigger] map_of(t).contains_key(q) implies map_of(t)[q] == map_of(
        s,
    ).remove(k)[q] by {
        lemma_map_of_lookup(t, q);
        lemma_map_of_lookup(s, q);
        let j = choose|j: int| 0 <= j < t.len() && #[trigger] t[j].0@ == q;
        let sj = if j < i {
            j
        } else {
            j + 1
        };
        assert(t[j] == s[sj]);
    }
    assert(map_of(t) =~= map_of(s).remove(k));
}

proof fn lemma_map_of_len<V>(s: Seq<(String, V)>)
    requires
        keys_distinct(s),
    ensures
        map_of(s).dom().finite(),
        map_of(s).dom().len() == s.len(),
    decreases s.len(),
{
    if s.len() > 0 {
        let t = s.drop_last();
        assert(keys_distinct(t)) by {
            assert forall|i: int, j: int|
                0 <= i < t.len() && 0 <= j < t.len() && i != j implies #[trigger] t[i].0@
                != #[trigger] t[j].0@ by {
                assert(t[i] == s[i] && t[j] == s[j]);
            }
        }
        lemma_map_of_len(t);
        lemma_map_of_lookup(t, s.last().0@);
        if map_of(t).contains_key(s.last().0@) {
            let i = choose|i: int| 0 <= i < t.len() && #[trigger] t[i].0@ == s.last().0@;
            assert(s[i] == t[i]);
            assert(s[i].0@ == s[s.len() - 1].0@);
        }
    }
}

} // verus!
