//! A small map keyed by text, kept as a list of distinct keys.

use vstd::prelude::*;

verus! {

/// The map that a list of (key, value) pairs denotes, later pairs taking
/// precedence.
pub open spec fn pairs_to_map<V>(s: Seq<(String, V)>) -> Map<Seq<char>, V>
    decreases s.len(),
{
    if s.len() == 0 {
        Map::empty()
    } else {
        pairs_to_map(s.drop_last()).insert(s.last().0@, s.last().1)
    }
}

pub open spec fn keys_distinct<V>(s: Seq<(String, V)>) -> bool {
    forall|i: int, j: int| 0 <= i < j < s.len() ==> s[i].0@ != s[j].0@
}

proof fn lemma_pairs_to_map<V>(s: Seq<(String, V)>)
    requires
        keys_distinct(s),
    ensures
        forall|k: Seq<char>|
            #![trigger pairs_to_map(s).contains_key(k)]
            pairs_to_map(s).contains_key(k) <==> exists|i: int| 0 <= i < s.len() && s[i].0@ == k,
        forall|i: int| 0 <= i < s.len() ==> #[trigger] pairs_to_map(s)[s[i].0@] == s[i].1,
    decreases s.len(),
{
    if s.len() > 0 {
        let t = s.drop_last();
        assert(keys_distinct(t));
        lemma_pairs_to_map(t);
        assert forall|k: Seq<char>|
            #![trigger pairs_to_map(s).contains_key(k)]
            pairs_to_map(s).contains_key(k) implies exists|i: int|
                0 <= i < s.len() && s[i].0@ == k by {
            if k != s.last().0@ {
                assert(pairs_to_map(t).contains_key(k));
                let i = choose|i: int| 0 <= i < t.len() && t[i].0@ == k;
                assert(s[i] == t[i]);
            } else {
                assert(s[s.len() - 1].0@ == k);
            }
        }
        assert forall|k: Seq<char>|
            #![trigger pairs_to_map(s).contains_key(k)]
            (exists|i: int| 0 <= i < s.len() && s[i].0@ == k) implies pairs_to_map(
                s,
            ).contains_key(k) by {
            let i = choose|i: int| 0 <= i < s.len() && s[i].0@ == k;
            if i < s.len() - 1 {
                assert(t[i] == s[i]);
                assert(pairs_to_map(t).contains_key(k));
            }
        }
        assert forall|i: int| 0 <= i < s.len() implies #[trigger] pairs_to_map(s)[s[i].0@]
            == s[i].1 by {
            assert(pairs_to_map(s) == pairs_to_map(t).insert(s.last().0@, s.last().1));
            if i < s.len() - 1 {
                assert(t[i] == s[i]);
                assert(s[i].0@ != s.last().0@);
                assert(pairs_to_map(t)[t[i].0@] == t[i].1);
            }
        }
    }
}

/// A map from texts to values.
#[derive(Debug)]
pub struct TextMap<V> {
    entries: Vec<(String, V)>,
}

impl<V> View for TextMap<V> {
    type V = Map<Seq<char>, V>;

    closed spec fn view(&self) -> Map<Seq<char>, V> {
        pairs_to_map(self.entries@)
    }
}

impl<V> TextMap<V> {
    #[verifier::type_invariant]
    spec fn distinct(self) -> bool {
        keys_distinct(self.entries@)
    }

    /// An empty map.
    pub fn new() -> (r: Self)
        ensures
            r@ == Map::<Seq<char>, V>::empty(),
    {
        TextMap { entries: Vec::new() }
    }

    /// Number of keys.
    pub fn len(&self) -> (n: usize)
        ensures
            n == self@.dom().len(),
    {
        proof {
            use_type_invariant(self);
            self.lemma_len();
        }
        self.entries.len()
    }

    proof fn lemma_len(&self)
        requires
            keys_distinct(self.entries@),
        ensures
            self@.dom().len() == self.entries@.len(),
            self@.dom().finite(),
    {
        lemma_len_of(self.entries@);
    }

    fn index_of(&self, key: &String) -> (r: Option<usize>)
        ensures
            match r {
                Some(i) => i < self.entries@.len() && self.entries@[i as int].0@ == key@,
                None => forall|i: int| 0 <= i < self.entries@.len() ==> self.entries@[i].0@ != key@,
            },
    {
        let mut i: usize = 0;
        while i < self.entries.len()
            invariant
                i <= self.entries@.len(),
                forall|j: int| 0 <= j < i ==> self.entries@[j].0@ != key@,
            decreases self.entries@.len() - i,
        {
            if self.entries[i].0 == *key {
                return Some(i);
            }
            i = i + 1;
        }
        None
    }

    /// Whether the key is present.
    pub fn contains_key(&self, key: &String) -> (r: bool)
        ensures
            r == self@.contains_key(key@),
    {
        proof {
            use_type_invariant(self);
            lemma_pairs_to_map(self.entries@);
        }
        self.index_of(key).is_some()
    }

    /// The value stored under a key.
    pub fn get(&self, key: &String) -> (r: Option<&V>)
        ensures
            match r {
                Some(v) => self@.contains_key(key@) && *v == self@[key@],
                None => !self@.contains_key(key@),
            },
    {
        proof {
            use_type_invariant(self);
            lemma_pairs_to_map(self.entries@);
        }
        match self.index_of(key) {
            Some(i) => Some(&self.entries[i].1),
            None => None,
        }
    }

    /// The key and value stored at position `i`; the positions below
    /// `len()` hold every key once.
    pub fn entry_at(&self, i: usize) -> (r: (&String, &V))
        requires
            i < self@.dom().len(),
        ensures
            self@.contains_key(r.0@),
            self@[r.0@] == *r.1,
    {
        proof {
            use_type_invariant(self);
            self.lemma_len();
            lemma_pairs_to_map(self.entries@);
            assert(self.entries@[i as int].0@ == self.entries@[i as int].0@);
        }
        (&self.entries[i].0, &self.entries[i].1)
    }

    /// Stores a value under a key, replacing any value stored there.
    pub fn insert(&mut self, key: String, value: V)
        ensures
            final(self)@ == old(self)@.insert(key@, value),
    {
        proof {
            use_type_invariant(&*self);
            lemma_pairs_to_map(self.entries@);
        }
        let ghost old_entries = self.entries@;
        match self.index_of(&key) {
            Some(i) => {
                let mut entries = Vec::new();
                std::mem::swap(&mut entries, &mut self.entries);
                entries.set(i, (key, value));
                proof {
                    assert(keys_distinct(entries@));
                    lemma_pairs_to_map(entries@);
                    assert(pairs_to_map(entries@) =~= pairs_to_map(old_entries).insert(
                        key@,
                        value,
                    )) by {
                        assert forall|k: Seq<char>|
                            pairs_to_map(entries@).contains_key(k) <==> pairs_to_map(
                                old_entries,
                            ).insert(key@, value).contains_key(k) by {
                            if k == key@ {
                                assert(entries@[i as int].0@ == k);
                            } else {
                                if pairs_to_map(old_entries).contains_key(k) {
                                    let j = choose|j: int|
                                        0 <= j < old_entries.len() && old_entries[j].0@ == k;
                                    assert(j != i);
                                    assert(entries@[j] == old_entries[j]);
                                    assert(entries@[j].0@ == k);
                                }
                                if pairs_to_map(entries@).contains_key(k) {
                                    let j = choose|j: int|
                                        0 <= j < entries@.len() && entries@[j].0@ == k;
                                    assert(j != i);
                                    assert(entries@[j] == old_entries[j]);
                                    assert(old_entries[j].0@ == k);
                                }
                            }
                        }
                        assert forall|k: Seq<char>| #[trigger]
                            pairs_to_map(entries@).contains_key(k) implies pairs_to_map(
                                entries@,
                            )[k] == pairs_to_map(old_entries).insert(key@, value)[k] by {
                            let j = choose|j: int|
                                0 <= j < entries@.len() && entries@[j].0@ == k;
                            if j != i {
                                assert(entries@[j] == old_entries[j]);
                            }
                        }
                    }
                }
                self.entries = entries;
            },
            None => {
                let mut entries = Vec::new();
                std::mem::swap(&mut entries, &mut self.entries);
                entries.push((key, value));
                proof {
                    assert(entries@.drop_last() =~= old_entries);
                    assert(keys_distinct(entries@));
                }
                self.entries = entries;
            },
        }
    }
}

proof fn lemma_len_of<V>(s: Seq<(String, V)>)
    requires
        keys_distinct(s),
    ensures
        pairs_to_map(s).dom().len() == s.len(),
        pairs_to_map(s).dom().finite(),
    decreases s.len(),
{
    if s.len() > 0 {
        let t = s.drop_last();
        assert(keys_distinct(t));
        lemma_len_of(t);
        lemma_pairs_to_map(t);
        assert(!pairs_to_map(t).contains_key(s.last().0@)) by {
            if pairs_to_map(t).contains_key(s.last().0@) {
                let i = choose|i: int| 0 <= i < t.len() && t[i].0@ == s.last().0@;
                assert(s[i] == t[i]);
            }
        }
    }
}

} // verus!
