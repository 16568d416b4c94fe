//! A map from strings to values, kept sorted by key.
//!
//! The runtime's string maps (template parameters, the `[extension]` table,
//! the per-template `[templates.<name>]` table) are held here. Keys are kept
//! in ascending character order, which is also the order in which the
//! parameters are written into the injected JSON object.

use vstd::prelude::*;

use crate::text::chars_of;

verus! {

broadcast use vstd::string::group_string_axioms;

/// Lexicographic order on character sequences, by code point.
pub open spec fn key_lt(a: Seq<char>, b: Seq<char>) -> bool
    decreases a.len(),
{
    if a.len() == 0 {
        b.len() > 0
    } else if b.len() == 0 {
        false
    } else if a[0] != b[0] {
        a[0] < b[0]
    } else {
        key_lt(a.drop_first(), b.drop_first())
    }
}

/// No sequence precedes itself.
pub proof fn lemma_key_lt_irreflexive(a: Seq<char>)
    ensures
        !key_lt(a, a),
    decreases a.len(),
{
    if a.len() > 0 {
        lemma_key_lt_irreflexive(a.drop_first());
    }
}

/// The order is transitive.
pub proof fn lemma_key_lt_transitive(a: Seq<char>, b: Seq<char>, c: Seq<char>)
    requires
        key_lt(a, b),
        key_lt(b, c),
    ensures
        key_lt(a, c),
    decreases a.len(),
{
    if a.len() > 0 && b.len() > 0 && c.len() > 0 {
        if a[0] == b[0] && b[0] == c[0] {
            lemma_key_lt_transitive(a.drop_first(), b.drop_first(), c.drop_first());
        }
    }
}

/// Two different sequences are ordered one way or the other.
pub proof fn lemma_key_lt_total(a: Seq<char>, b: Seq<char>)
    requires
        a != b,
    ensures
        key_lt(a, b) || key_lt(b, a),
    decreases a.len(),
{
    if a.len() == 0 {
        if b.len() == 0 {
            assert(a =~= b);
        }
    } else if b.len() == 0 {
    } else if a[0] != b[0] {
    } else {
        if a.drop_first() == b.drop_first() {
            assert(a =~= seq![a[0]] + a.drop_first());
            assert(b =~= seq![b[0]] + b.drop_first());
        }
        lemma_key_lt_total(a.drop_first(), b.drop_first());
    }
}

/// Compare two character vectors in `key_lt` order.
pub fn chars_lt(a: &Vec<char>, b: &Vec<char>) -> (r: bool)
    ensures
        r == key_lt(a@, b@),
{
    let mut i: usize = 0;
    proof {
        assert(a@.skip(0) =~= a@);
        assert(b@.skip(0) =~= b@);
    }
    while i < a.len() && i < b.len()
        invariant
            i <= a@.len(),
            i <= b@.len(),
            key_lt(a@, b@) == key_lt(a@.skip(i as int), b@.skip(i as int)),
        decreases a@.len() - i,
    {
        if a[i] != b[i] {
            proof {
                assert(a@.skip(i as int)[0] == a@[i as int]);
                assert(b@.skip(i as int)[0] == b@[i as int]);
            }
            return a[i] < b[i];
        }
        proof {
            assert(a@.skip(i as int).drop_first() =~= a@.skip(i + 1));
            assert(b@.skip(i as int).drop_first() =~= b@.skip(i + 1));
        }
        i = i + 1;
    }
    proof {
        assert(a@.skip(i as int).len() == a@.len() - i);
        assert(b@.skip(i as int).len() == b@.len() - i);
    }
    i == a.len() && i < b.len()
}

/// Keys in strictly ascending order (so no key occurs twice).
pub open spec fn sorted_keys<V>(s: Seq<(Seq<char>, V)>) -> bool {
    forall|i: int, j: int| 0 <= i < j < s.len() ==> key_lt(#[trigger] s[i].0, #[trigger] s[j].0)
}

/// The map that a sequence of pairs with distinct keys stands for.
pub open spec fn pairs_map<V>(s: Seq<(Seq<char>, V)>) -> Map<Seq<char>, V> {
    Map::new(
        |k: Seq<char>| exists|i: int| 0 <= i < s.len() && s[i].0 == k,
        |k: Seq<char>| s[choose|i: int| 0 <= i < s.len() && s[i].0 == k].1,
    )
}

/// In a sorted sequence, the pair at `i` gives the map's value for its key.
pub proof fn lemma_pairs_map_at<V>(s: Seq<(Seq<char>, V)>, i: int)
    requires
        sorted_keys(s),
        0 <= i < s.len(),
    ensures
        pairs_map(s).contains_key(s[i].0),
        pairs_map(s)[s[i].0] == s[i].1,
{
    let k = s[i].0;
    assert(exists|j: int| 0 <= j < s.len() && s[j].0 == k);
    let j = choose|j: int| 0 <= j < s.len() && s[j].0 == k;
    lemma_key_lt_irreflexive(k);
    if j < i {
        assert(key_lt(s[j].0, s[i].0));
    } else if j > i {
        assert(key_lt(s[i].0, s[j].0));
    }
    assert(j == i);
}

/// Replacing the value of an existing key updates the map at that key.
pub proof fn lemma_update_pairs_map<V>(s: Seq<(Seq<char>, V)>, i: int, key: Seq<char>, value: V)
    requires
        sorted_keys(s),
        0 <= i < s.len(),
        s[i].0 == key,
    ensures
        sorted_keys(s.update(i, (key, value))),
        pairs_map(s.update(i, (key, value))) == pairs_map(s).insert(key, value),
{
    let t = s.update(i, (key, value));
    assert forall|a: int, b: int| 0 <= a < b < t.len() implies key_lt(
        #[trigger] t[a].0,
        #[trigger] t[b].0,
    ) by {
        assert(key_lt(s[a].0, s[b].0));
    }
    let m = pairs_map(t);
    let o = pairs_map(s).insert(key, value);
    assert forall|k: Seq<char>| #[trigger] m.contains_key(k) <==> o.contains_key(k) by {
        if m.contains_key(k) {
            let j = choose|j: int| 0 <= j < t.len() && t[j].0 == k;
            assert(s[j].0 == k);
        }
        if o.contains_key(k) && k != key {
            let j = choose|j: int| 0 <= j < s.len() && s[j].0 == k;
            assert(t[j].0 == k);
        }
        if k == key {
            assert(t[i].0 == k);
        }
    }
    assert forall|k: Seq<char>| #[trigger] m.contains_key(k) implies m[k] == o[k] by {
        if k == key {
            lemma_pairs_map_at(t, i);
        } else {
            let j = choose|j: int| 0 <= j < t.len() && t[j].0 == k;
            lemma_pairs_map_at(t, j);
            lemma_pairs_map_at(s, j);
        }
    }
    assert(m =~= o);
}

/// Inserting a new key at its sorted place adds it to the map.
pub proof fn lemma_insert_pairs_map<V>(s: Seq<(Seq<char>, V)>, i: int, key: Seq<char>, value: V)
    requires
        sorted_keys(s),
        sorted_keys(s.insert(i, (key, value))),
        0 <= i <= s.len(),
        forall|j: int| 0 <= j < s.len() ==> s[j].0 != key,
    ensures
        pairs_map(s.insert(i, (key, value))) == pairs_map(s).insert(key, value),
{
    let t = s.insert(i, (key, value));
    let m = pairs_map(t);
    let o = pairs_map(s).insert(key, value);
    assert forall|k: Seq<char>| #[trigger] m.contains_key(k) <==> o.contains_key(k) by {
        if m.contains_key(k) && k != key {
            let j = choose|j: int| 0 <= j < t.len() && t[j].0 == k;
            if j < i {
                assert(s[j].0 == k);
            } else {
                assert(s[j - 1].0 == k);
            }
        }
        if o.contains_key(k) && k != key {
            let j = choose|j: int| 0 <= j < s.len() && s[j].0 == k;
            if j < i {
                assert(t[j].0 == k);
            } else {
                assert(t[j + 1].0 == k);
            }
        }
        if k == key {
            assert(t[i].0 == k);
        }
    }
    assert forall|k: Seq<char>| #[trigger] m.contains_key(k) implies m[k] == o[k] by {
        let j = choose|j: int| 0 <= j < t.len() && t[j].0 == k;
        lemma_pairs_map_at(t, j);
        if k != key {
            if j < i {
                lemma_pairs_map_at(s, j);
            } else {
                lemma_pairs_map_at(s, j - 1);
            }
        }
    }
    assert(m =~= o);
}

/// The map of a sorted prefix extends by the next pair.
pub proof fn lemma_pairs_map_take<V>(s: Seq<(Seq<char>, V)>, i: int)
    requires
        sorted_keys(s),
        0 <= i < s.len(),
    ensures
        pairs_map(s.take(i + 1)) == pairs_map(s.take(i)).insert(s[i].0, s[i].1),
{
    let t = s.take(i);
    assert(s.take(i + 1) =~= t.insert(i, (s[i].0, s[i].1)));
    assert forall|j: int| 0 <= j < t.len() implies t[j].0 != s[i].0 by {
        assert(key_lt(s[j].0, s[i].0));
        lemma_key_lt_irreflexive(s[i].0);
    }
    assert forall|a: int, b: int| 0 <= a < b < t.len() implies key_lt(#[trigger] t[a].0, #[trigger] t[b].0) by {
        assert(key_lt(s[a].0, s[b].0));
    }
    assert forall|a: int, b: int| 0 <= a < b < s.take(i + 1).len() implies key_lt(
        #[trigger] s.take(i + 1)[a].0,
        #[trigger] s.take(i + 1)[b].0,
    ) by {
        assert(key_lt(s[a].0, s[b].0));
    }
    lemma_insert_pairs_map(t, i, s[i].0, s[i].1);
}

/// A string-keyed map with its entries kept in ascending key order.
pub struct StrMap<V> {
    entries: Vec<(String, V)>,
}

impl<V> StrMap<V> {
    /// The entries, keys by their characters, in ascending key order.
    pub closed spec fn pairs(&self) -> Seq<(Seq<char>, V)> {
        self.entries@.map_values(|e: (String, V)| (e.0@, e.1))
    }

    /// Well-formedness: keys strictly ascending.
    pub closed spec fn wf(&self) -> bool {
        sorted_keys(self.pairs())
    }

    /// The map held.
    pub open spec fn as_map(&self) -> Map<Seq<char>, V> {
        pairs_map(self.pairs())
    }

    /// An empty map.
    pub fn new() -> (m: Self)
        ensures
            m.wf(),
            m.pairs().len() == 0,
            m.as_map() == Map::<Seq<char>, V>::empty(),
    {
        let m = StrMap { entries: Vec::new() };
        assert(m.as_map() =~= Map::<Seq<char>, V>::empty());
        m
    }

    /// The number of entries.
    pub fn len(&self) -> (n: usize)
        ensures
            n == self.pairs().len(),
    {
        self.entries.len()
    }

    /// Index of `key` among the entries, or the index where it would go.
    fn position(&self, key: &Vec<char>) -> (r: (usize, bool))
        requires
            self.wf(),
        ensures
            r.0 <= self.pairs().len(),
            r.1 ==> r.0 < self.pairs().len() && self.pairs()[r.0 as int].0 == key@,
            !r.1 ==> forall|i: int| 0 <= i < r.0 ==> key_lt(#[trigger] self.pairs()[i].0, key@),
            !r.1 ==> forall|i: int|
                r.0 <= i < self.pairs().len() ==> key_lt(key@, #[trigger] self.pairs()[i].0),
    {
        let n = self.entries.len();
        let mut i: usize = 0;
        while i < n
            invariant
                n == self.pairs().len(),
                i <= n,
                self.wf(),
                forall|j: int| 0 <= j < i ==> key_lt(#[trigger] self.pairs()[j].0, key@),
            decreases n - i,
        {
            let k = chars_of(self.entries[i].0.as_str());
            assert(k@ == self.pairs()[i as int].0);
            if !chars_lt(&k, key) {
                if chars_lt(key, &k) {
                    proof {
                        assert forall|j: int| i <= j < n implies key_lt(
                            key@,
                            #[trigger] self.pairs()[j].0,
                        ) by {
                            if j > i {
                                assert(key_lt(self.pairs()[i as int].0, self.pairs()[j].0));
                                lemma_key_lt_transitive(key@, k@, self.pairs()[j].0);
                            }
                        }
                    }
                    return (i, false);
                } else {
                    proof {
                        if k@ != key@ {
                            lemma_key_lt_total(k@, key@);
                        }
                    }
                    return (i, true);
                }
            }
            i = i + 1;
        }
        (n, false)
    }

    /// The value held for the key whose characters are `key`, if any.
    pub fn get_chars(&self, key: &Vec<char>) -> (r: Option<&V>)
        requires
            self.wf(),
        ensures
            match r {
                Some(v) => self.as_map().contains_key(key@) && self.as_map()[key@] == *v,
                None => !self.as_map().contains_key(key@),
            },
    {
        let (i, found) = self.position(key);
        if found {
            proof {
                lemma_pairs_map_at(self.pairs(), i as int);
            }
            Some(&self.entries[i].1)
        } else {
            proof {
                if self.as_map().contains_key(key@) {
                    let j = choose|j: int| 0 <= j < self.pairs().len() && self.pairs()[j].0 == key@;
                    lemma_key_lt_irreflexive(key@);
                    if j < i {
                        assert(key_lt(self.pairs()[j].0, key@));
                    } else {
                        assert(key_lt(key@, self.pairs()[j].0));
                    }
                }
            }
            None
        }
    }

    /// The value held for `key`, if any.
    pub fn get(&self, key: &str) -> (r: Option<&V>)
        requires
            self.wf(),
        ensures
            match r {
                Some(v) => self.as_map().contains_key(key@) && self.as_map()[key@] == *v,
                None => !self.as_map().contains_key(key@),
            },
    {
        self.get_chars(&chars_of(key))
    }

    /// Set the value for `key`, replacing any value held for it.
    pub fn insert(&mut self, key: String, value: V)
        requires
            old(self).wf(),
        ensures
            final(self).wf(),
            final(self).as_map() == old(self).as_map().insert(key@, value),
    {
        let kv = chars_of(key.as_str());
        let (i, found) = self.position(&kv);
        let ghost old_pairs = self.pairs();
        if found {
            self.entries.set(i, (key, value));
            proof {
                assert(self.pairs() =~= old_pairs.update(i as int, (kv@, value)));
                assert forall|a: int, b: int|
                    0 <= a < b < self.pairs().len() implies key_lt(
                    #[trigger] self.pairs()[a].0,
                    #[trigger] self.pairs()[b].0,
                ) by {
                    assert(key_lt(old_pairs[a].0, old_pairs[b].0));
                }
                lemma_update_pairs_map(old_pairs, i as int, kv@, value);
            }
        } else {
            self.entries.insert(i, (key, value));
            proof {
                lemma_key_lt_irreflexive(kv@);
                assert forall|j: int| 0 <= j < old_pairs.len() implies old_pairs[j].0 != kv@ by {
                    if j < i {
                        assert(key_lt(old_pairs[j].0, kv@));
                    } else {
                        assert(key_lt(kv@, old_pairs[j].0));
                    }
                }
                assert(self.pairs() =~= old_pairs.insert(i as int, (kv@, value)));
                assert forall|a: int, b: int|
                    0 <= a < b < self.pairs().len() implies key_lt(
                    #[trigger] self.pairs()[a].0,
                    #[trigger] self.pairs()[b].0,
                ) by {
                    if a < i && b < i {
                        assert(key_lt(old_pairs[a].0, old_pairs[b].0));
                    } else if a < i && b == i {
                    } else if a < i {
                        assert(key_lt(old_pairs[a].0, old_pairs[b - 1].0));
                    } else if a == i {
                    } else {
                        assert(key_lt(old_pairs[a - 1].0, old_pairs[b - 1].0));
                    }
                }
                lemma_insert_pairs_map(old_pairs, i as int, kv@, value);
            }
        }
    }

    /// The entries, in ascending key order.
    pub fn entries(&self) -> (r: &Vec<(String, V)>)
        requires
            self.wf(),
        ensures
            r@.map_values(|e: (String, V)| (e.0@, e.1)) == self.pairs(),
            sorted_keys(self.pairs()),
    {
        &self.entries
    }
}

} // verus!
