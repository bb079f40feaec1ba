//! IRCv3 message tags: a map from tag key to tag value.
//!
//! Held as a list of distinct-key entries; its view is a `Map` from the
//! key's characters to the value's characters.
use vstd::prelude::*;
use crate::text::{chars_of, eq_chars, string_from};

verus! {

/// The key of entry `i`.
pub open spec fn key_at(e: Seq<(String, String)>, i: int) -> Seq<char> {
    e[i].0@
}

/// No two entries share a key.
pub open spec fn distinct_keys(e: Seq<(String, String)>) -> bool {
    forall|i: int, j: int|
        0 <= i < e.len() && 0 <= j < e.len() && i != j ==> key_at(e, i) != key_at(e, j)
}

/// Some entry has key `k`.
pub open spec fn has_key(e: Seq<(String, String)>, k: Seq<char>) -> bool {
    exists|i: int| 0 <= i < e.len() && key_at(e, i) == k
}

/// The map the entries denote.
pub open spec fn entries_map(e: Seq<(String, String)>) -> Map<Seq<char>, Seq<char>> {
    Map::new(
        |k: Seq<char>| has_key(e, k),
        |k: Seq<char>| e[choose|i: int| 0 <= i < e.len() && key_at(e, i) == k].1@,
    )
}

/// With distinct keys, the map gives each entry's value for its key.
pub proof fn lemma_entry_value(e: Seq<(String, String)>, i: int)
    requires
        distinct_keys(e),
        0 <= i < e.len(),
    ensures
        entries_map(e).contains_key(key_at(e, i)),
        entries_map(e)[key_at(e, i)] == e[i].1@,
{
    let k = key_at(e, i);
    assert(has_key(e, k));
    let j = choose|j: int| 0 <= j < e.len() && key_at(e, j) == k;
    assert(j == i);
}

/// Distinct-key entries denote a finite map with one key per entry.
pub proof fn lemma_entries_dom(e: Seq<(String, String)>)
    requires
        distinct_keys(e),
    ensures
        entries_map(e).dom().len() == e.len(),
        entries_map(e).dom().finite(),
{
    let keys = e.map_values(|p: (String, String)| p.0@);
    assert forall|i: int, j: int|
        0 <= i < keys.len() && 0 <= j < keys.len() && i != j implies keys[i] != keys[j] by {
        assert(keys[i] == key_at(e, i));
        assert(keys[j] == key_at(e, j));
    }
    assert(keys.no_duplicates());
    assert(entries_map(e).dom() =~= keys.to_set()) by {
        assert forall|k: Seq<char>| entries_map(e).dom().contains(k) implies keys.to_set().contains(k) by {
            let i = choose|i: int| 0 <= i < e.len() && key_at(e, i) == k;
            assert(keys[i] == k);
        }
        assert forall|k: Seq<char>| keys.to_set().contains(k) implies entries_map(e).dom().contains(k) by {
            let i = choose|i: int| 0 <= i < keys.len() && keys[i] == k;
            assert(key_at(e, i) == k);
        }
    }
    keys.unique_seq_to_set();
}

/// A map of tag keys to tag values.
#[derive(Debug)]
pub struct TagMap {
    entries: Vec<(String, String)>,
}

impl View for TagMap {
    type V = Map<Seq<char>, Seq<char>>;

    closed spec fn view(&self) -> Map<Seq<char>, Seq<char>> {
        entries_map(self.entries@)
    }
}

impl TagMap {
    /// The entries have distinct keys.
    #[verifier::type_invariant]
    closed spec fn wf(self) -> bool {
        distinct_keys(self.entries@)
    }

    /// An empty map.
    pub fn new() -> (r: TagMap)
        ensures
            r@ == Map::<Seq<char>, Seq<char>>::empty(),
    {
        let r = TagMap { entries: Vec::new() };
        assert(r@ =~= Map::<Seq<char>, Seq<char>>::empty());
        r
    }

    /// The number of tags.
    pub fn len(&self) -> (r: usize)
        ensures
            r == self@.dom().len(),
    {
        proof {
            use_type_invariant(self);
            self.lemma_dom_len();
        }
        self.entries.len()
    }

    proof fn lemma_dom_len(&self)
        requires
            distinct_keys(self.entries@),
        ensures
            self@.dom().len() == self.entries@.len(),
            self@.dom().finite(),
    {
        lemma_entries_dom(self.entries@);
    }

    /// The tags as (key, value) pairs, in the order they were first set.
    pub fn entries(&self) -> (r: Vec<(String, String)>)
        ensures
            distinct_keys(r@),
            entries_map(r@) == self@,
    {
        proof {
            use_type_invariant(self);
        }
        let n = self.entries.len();
        let mut r: Vec<(String, String)> = Vec::new();
        let mut i: usize = 0;
        while i < n
            invariant
                n == self.entries@.len(),
                i <= n,
                r@ == self.entries@.take(i as int),
            decreases n - i,
        {
            let k = self.entries[i].0.clone();
            let v = self.entries[i].1.clone();
            r.push((k, v));
            assert(r@ =~= self.entries@.take(i + 1));
            i = i + 1;
        }
        assert(self.entries@.take(n as int) =~= self.entries@);
        r
    }

    /// A copy of this map.
    pub fn duplicate(&self) -> (r: TagMap)
        ensures
            r@ == self@,
    {
        TagMap { entries: self.entries() }
    }

    /// The position of the entry with key `k`, if any.
    fn index_of(&self, k: &str) -> (r: Option<usize>)
        ensures
            match r {
                Some(i) => i < self.entries@.len() && key_at(self.entries@, i as int) == k@,
                None => !has_key(self.entries@, k@),
            },
    {
        let kc = chars_of(k);
        let n = self.entries.len();
        let mut i: usize = 0;
        while i < n
            invariant
                n == self.entries@.len(),
                i <= n,
                kc@ == k@,
                forall|j: int| 0 <= j < i ==> key_at(self.entries@, j) != k@,
            decreases n - i,
        {
            let ec = chars_of(self.entries[i].0.as_str());
            if eq_chars(ec.as_slice(), kc.as_slice()) {
                return Some(i);
            }
            i = i + 1;
        }
        None
    }

    /// The value of tag `k`, if present.
    pub fn get(&self, k: &str) -> (r: Option<String>)
        ensures
            match r {
                Some(v) => self@.contains_key(k@) && self@[k@] == v@,
                None => !self@.contains_key(k@),
            },
    {
        proof {
            use_type_invariant(self);
        }
        match self.index_of(k) {
            Some(i) => {
                proof {
                    lemma_entry_value(self.entries@, i as int);
                }
                Some(self.entries[i].1.clone())
            },
            None => None,
        }
    }

    /// Whether tag `k` is present.
    pub fn contains_key(&self, k: &str) -> (r: bool)
        ensures
            r == self@.contains_key(k@),
    {
        self.index_of(k).is_some()
    }

    /// Sets tag `k` to `v`, replacing any earlier value.
    pub fn insert(&mut self, k: &str, v: &str)
        ensures
            final(self)@ == old(self)@.insert(k@, v@),
    {
        proof {
            use_type_invariant(&*self);
        }
        let ghost e = self.entries@;
        let ks = string_from(k);
        let vs = string_from(v);
        match self.index_of(k) {
            Some(i) => {
                let mut entries: Vec<(String, String)> = Vec::new();
                std::mem::swap(&mut entries, &mut self.entries);
                entries.set(i, (ks, vs));
                let ghost e2 = entries@;
                assert(e2 == e.update(i as int, (ks, vs)));
                assert forall|a: int, b: int|
                    0 <= a < e2.len() && 0 <= b < e2.len() && a != b implies key_at(e2, a)
                    != key_at(e2, b) by {
                    assert(key_at(e2, a) == key_at(e, a));
                    assert(key_at(e2, b) == key_at(e, b));
                }
                proof {
                    assert forall|x: Seq<char>| has_key(e2, x) == has_key(e, x) by {
                        if has_key(e2, x) {
                            let j = choose|j: int| 0 <= j < e2.len() && key_at(e2, j) == x;
                            assert(key_at(e, j) == x);
                        }
                        if has_key(e, x) {
                            let j = choose|j: int| 0 <= j < e.len() && key_at(e, j) == x;
                            assert(key_at(e2, j) == x);
                        }
                    }
                    assert forall|x: Seq<char>| #[trigger]
                        entries_map(e2).contains_key(x) implies entries_map(e2)[x] == entries_map(
                        e,
                    ).insert(k@, v@)[x] by {
                        let j = choose|j: int| 0 <= j < e2.len() && key_at(e2, j) == x;
                        lemma_entry_value(e2, j);
                        if j != i {
                            lemma_entry_value(e, j);
                        }
                    }
                    assert(entries_map(e2) =~= entries_map(e).insert(k@, v@));
                }
                self.entries = entries;
            },
            None => {
                let mut entries: Vec<(String, String)> = Vec::new();
                std::mem::swap(&mut entries, &mut self.entries);
                entries.push((ks, vs));
                let ghost e2 = entries@;
                assert(e2 == e.push((ks, vs)));
                proof {
                    assert forall|a: int, b: int|
                        0 <= a < e2.len() && 0 <= b < e2.len() && a != b implies key_at(e2, a)
                        != key_at(e2, b) by {
                        if a < e.len() {
                            assert(key_at(e2, a) == key_at(e, a));
                        }
                        if b < e.len() {
                            assert(key_at(e2, b) == key_at(e, b));
                        }
                    }
                    assert forall|x: Seq<char>|
                        has_key(e2, x) == (has_key(e, x) || x == k@) by {
                        if has_key(e2, x) {
                            let j = choose|j: int| 0 <= j < e2.len() && key_at(e2, j) == x;
                            if j < e.len() {
                                assert(key_at(e, j) == x);
                            }
                        }
                        if has_key(e, x) {
                            let j = choose|j: int| 0 <= j < e.len() && key_at(e, j) == x;
                            assert(key_at(e2, j) == x);
                        }
                        if x == k@ {
                            assert(key_at(e2, e.len() as int) == x);
                        }
                    }
                    assert forall|x: Seq<char>| #[trigger]
                        entries_map(e2).contains_key(x) implies entries_map(e2)[x] == entries_map(
                        e,
                    ).insert(k@, v@)[x] by {
                        let j = choose|j: int| 0 <= j < e2.len() && key_at(e2, j) == x;
                        lemma_entry_value(e2, j);
                        if j < e.len() {
                            lemma_entry_value(e, j);
                        }
                    }
                    assert(entries_map(e2) =~= entries_map(e).insert(k@, v@));
                }
                self.entries = entries;
            },
        }
    }

    /// The map holding `pairs`, a later pair overriding an earlier one
    /// with the same key.
    pub fn from_pairs(pairs: &[(&str, &str)]) -> (r: TagMap)
        ensures
            r@ == pairs_map(pairs@),
    {
        let mut m = TagMap::new();
        let n = pairs.len();
        let mut i: usize = 0;
        while i < n
            invariant
                n == pairs@.len(),
                i <= n,
                m@ == pairs_map(pairs@.take(i as int)),
            decreases n - i,
        {
            let (k, v) = pairs[i];
            m.insert(k, v);
            assert(pairs@.take(i + 1).drop_last() =~= pairs@.take(i as int));
            i = i + 1;
        }
        assert(pairs@.take(n as int) =~= pairs@);
        m
    }
}

/// The map that inserting `pairs` in order produces.
pub open spec fn pairs_map(pairs: Seq<(&str, &str)>) -> Map<Seq<char>, Seq<char>>
    decreases pairs.len(),
{
    if pairs.len() == 0 {
        Map::empty()
    } else {
        pairs_map(pairs.drop_last()).insert(pairs.last().0@, pairs.last().1@)
    }
}

} // verus!
