//! A map keyed by text that keeps its pairs in a vector, with the invariant
//! that no key occurs twice.

use vstd::prelude::*;

use crate::text::same_text;

verus! {

/// No two pairs of `s` have the same key.
pub open spec fn keys_distinct<V>(s: Seq<(String, V)>) -> bool {
    forall|i: int, j: int|
        0 <= i < s.len() && 0 <= j < s.len() && i != j ==> #[trigger] s[i].0@ != #[trigger] s[j].0@
}

/// The map that a sequence of pairs stands for: each pair is inserted in
/// order, so a later pair with a key wins over an earlier one.
pub open spec fn map_of<V: View>(s: Seq<(String, V)>) -> Map<Seq<char>, V::V>
    decreases s.len(),
{
    if s.len() == 0 {
        Map::empty()
    } else {
        map_of(s.drop_last()).insert(s.last().0@, s.last().1@)
    }
}

/// A key is in the map exactly when some pair has it.
pub proof fn lemma_map_of_dom<V: View>(s: Seq<(String, V)>)
    ensures
        forall|k: Seq<char>|
            #[trigger] map_of(s).contains_key(k) <==> exists|i: int| 0 <= i < s.len() && s[i].0@ == k,
        map_of(s).dom().finite(),
    decreases s.len(),
{
    if s.len() > 0 {
        lemma_map_of_dom(s.drop_last());
        assert forall|k: Seq<char>|
            #[trigger] map_of(s).contains_key(k) <==> exists|i: int| 0 <= i < s.len() && s[i].0@ == k by {
            if map_of(s).contains_key(k) {
                if k != s.last().0@ {
                    let i = choose|i: int| 0 <= i < s.drop_last().len() && s.drop_last()[i].0@ == k;
                    assert(s[i].0@ == k);
                } else {
                    assert(s[s.len() - 1].0@ == k);
                }
            }
            if exists|i: int| 0 <= i < s.len() && s[i].0@ == k {
                let i = choose|i: int| 0 <= i < s.len() && s[i].0@ == k;
                if i < s.len() - 1 {
                    assert(s.drop_last()[i].0@ == k);
                }
            }
        }
    }
}

/// With distinct keys, the value of a pair's key is that pair's value.
pub proof fn lemma_map_of_value<V: View>(s: Seq<(String, V)>, i: int)
    requires
        keys_distinct(s),
        0 <= i < s.len(),
    ensures
        map_of(s).contains_key(s[i].0@),
        map_of(s)[s[i].0@] == s[i].1@,
    decreases s.len(),
{
    if i < s.len() - 1 {
        let t = s.drop_last();
        assert(keys_distinct(t)) by {
            assert forall|a: int, b: int|
                0 <= a < t.len() && 0 <= b < t.len() && a != b implies #[trigger] t[a].0@ != #[trigger] t[b].0@ by {
                assert(t[a] == s[a] && t[b] == s[b]);
            }
        }
        assert(t[i] == s[i]);
        lemma_map_of_value(t, i);
        assert(s[i].0@ != s[s.len() - 1].0@);
    }
}

/// Replacing the value of the pair that holds a key is inserting that key.
pub proof fn lemma_map_of_update<V: View>(s: Seq<(String, V)>, i: int, k: String, v: V)
    requires
        keys_distinct(s),
        0 <= i < s.len(),
        s[i].0@ == k@,
    ensures
        keys_distinct(s.update(i, (k, v))),
        map_of(s.update(i, (k, v))) == map_of(s).insert(k@, v@),
{
    let u = s.update(i, (k, v));
    assert(keys_distinct(u)) by {
        assert forall|a: int, b: int|
            0 <= a < u.len() && 0 <= b < u.len() && a != b implies #[trigger] u[a].0@ != #[trigger] u[b].0@ by {
            assert(u[a].0@ == s[a].0@ && u[b].0@ == s[b].0@);
        }
    }
    lemma_map_of_dom(s);
    lemma_map_of_dom(u);
    assert forall|key: Seq<char>| #[trigger] map_of(u).contains_key(key) implies map_of(s).insert(k@, v@).contains_key(key)
        && map_of(u)[key] == map_of(s).insert(k@, v@)[key] by {
        let j = choose|j: int| 0 <= j < u.len() && u[j].0@ == key;
        lemma_map_of_value(u, j);
        assert(s[j].0@ == key);
        lemma_map_of_value(s, j);
    }
    assert forall|key: Seq<char>| #[trigger] map_of(s).insert(k@, v@).contains_key(key) implies map_of(u).contains_key(key) by {
        if key != k@ {
            let j = choose|j: int| 0 <= j < s.len() && s[j].0@ == key;
            assert(u[j].0@ == key);
        } else {
            assert(u[i].0@ == key);
        }
    }
    assert(map_of(u) =~= map_of(s).insert(k@, v@));
}

/// The position of the pair holding the key `k`, if there is one.
fn position_of<V>(entries: &Vec<(String, V)>, k: &str) -> (r: Option<usize>)
    ensures
        match r {
            Some(i) => i < entries@.len() && entries@[i as int].0@ == k@,
            None => forall|i: int| 0 <= i < entries@.len() ==> entries@[i].0@ != k@,
        },
{
    let mut i: usize = 0;
    while i < entries.len()
        invariant
            i <= entries@.len(),
            forall|j: int| 0 <= j < i ==> entries@[j].0@ != k@,
        decreases entries@.len() - i,
    {
        if same_text(entries[i].0.as_str(), k) {
            return Some(i);
        }
        i = i + 1;
    }
    None
}

/// A map keyed by text.  Its pairs are held in the order in which their keys
/// were first inserted, and no key occurs twice.
pub struct StrMap<V> {
    entries: Vec<(String, V)>,
}

impl<V: View> View for StrMap<V> {
    type V = Map<Seq<char>, V::V>;

    closed spec fn view(&self) -> Map<Seq<char>, V::V> {
        map_of(self.entries@)
    }
}

impl<V> StrMap<V> {
    /// No key occurs twice among the pairs.
    #[verifier::type_invariant]
    closed spec fn keys_unique(self) -> bool {
        keys_distinct(self.entries@)
    }
}

impl<V: View> StrMap<V> {
    /// An empty map.
    pub fn new() -> (m: Self)
        ensures
            m@ == Map::<Seq<char>, V::V>::empty(),
    {
        StrMap { entries: Vec::new() }
    }

    /// The number of keys in the map.
    pub fn len(&self) -> (n: usize)
        ensures
            n == self@.len(),
    {
        proof {
            use_type_invariant(self);
            self.lemma_len();
        }
        self.entries.len()
    }

    proof fn lemma_len(&self)
        requires
            keys_distinct(self.entries@),
        ensures
            self@.len() == self.entries@.len(),
    {
        let s = self.entries@;
        lemma_map_of_dom(s);
        let keys = Seq::new(s.len(), |i: int| s[i].0@);
        assert(keys.no_duplicates()) by {
            assert forall|a: int, b: int| 0 <= a < keys.len() && 0 <= b < keys.len() && a != b implies keys[a]
                != keys[b] by {
                assert(s[a].0@ != s[b].0@);
            }
        }
        assert(keys.to_set() =~= map_of(s).dom()) by {
            assert forall|k: Seq<char>| map_of(s).dom().contains(k) implies keys.to_set().contains(k) by {
                let i = choose|i: int| 0 <= i < s.len() && s[i].0@ == k;
                assert(keys[i] == k);
            }
            assert forall|k: Seq<char>| keys.to_set().contains(k) implies map_of(s).dom().contains(k) by {
                let i = choose|i: int| 0 <= i < keys.len() && keys[i] == k;
                assert(map_of(s).contains_key(s[i].0@));
            }
        }
        keys.unique_seq_to_set();
    }

    /// Whether the map has the key `k`.
    pub fn contains_key(&self, k: &str) -> (b: bool)
        ensures
            b == self@.contains_key(k@),
    {
        proof {
            lemma_map_of_dom(self.entries@);
        }
        let r = position_of(&self.entries, k);
        r.is_some()
    }

    /// The value of the key `k`, if the map has it.
    pub fn get(&self, k: &str) -> (r: Option<&V>)
        ensures
            match r {
                Some(v) => self@.contains_key(k@) && v@ == self@[k@],
                None => !self@.contains_key(k@),
            },
    {
        proof {
            use_type_invariant(self);
            lemma_map_of_dom(self.entries@);
        }
        match position_of(&self.entries, k) {
            Some(i) => {
                proof {
                    lemma_map_of_value(self.entries@, i as int);
                }
                Some(&self.entries[i].1)
            },
            None => None,
        }
    }

    /// Sets the value of the key `k` to `v`, adding the key when the map does
    /// not have it.
    pub fn insert(&mut self, k: String, v: V)
        ensures
            final(self)@ == old(self)@.insert(k@, v@),
    {
        proof {
            use_type_invariant(&*self);
        }
        let mut entries: Vec<(String, V)> = Vec::new();
        std::mem::swap(&mut entries, &mut self.entries);
        let ghost before = entries@;
        assert(map_of(before) == old(self)@);
        match position_of(&entries, k.as_str()) {
            Some(i) => {
                proof {
                    lemma_map_of_update(before, i as int, k, v);
                }
                entries.set(i, (k, v));
            },
            None => {
                let ghost kv = k@;
                entries.push((k, v));
                proof {
                    let after = entries@;
                    assert(after.drop_last() =~= before);
                    assert(keys_distinct(after)) by {
                        assert forall|a: int, b: int|
                            0 <= a < after.len() && 0 <= b < after.len() && a != b implies #[trigger] after[a].0@
                            != #[trigger] after[b].0@ by {
                            if a < before.len() && b < before.len() {
                                assert(after[a] == before[a] && after[b] == before[b]);
                            } else if a < before.len() {
                                assert(after[a] == before[a]);
                            } else {
                                assert(after[b] == before[b]);
                            }
                        }
                    }
                }
            },
        }
        self.entries = entries;
    }

    /// The pairs of the map, each key once, in the order in which the keys
    /// were first inserted.
    pub fn pairs(&self) -> (r: &Vec<(String, V)>)
        ensures
            map_of(r@) == self@,
            keys_distinct(r@),
    {
        proof {
            use_type_invariant(self);
        }
        &self.entries
    }
}

} // verus!
