//! A map from strings to values, kept as a list of entries with distinct keys.

use vstd::prelude::*;

verus! {

/// No two entries of `s` have the same key.
pub open spec fn distinct_keys<V>(s: Seq<(String, V)>) -> bool {
    forall|i: int, j: int| 0 <= i < j < s.len() ==> s[i].0@ != s[j].0@
}

/// Some entry of `s` has the key `key`.
pub open spec fn has_key<V>(s: Seq<(String, V)>, key: Seq<char>) -> bool {
    exists|i: int| 0 <= i < s.len() && #[trigger] s[i].0@ == key
}

/// The position of an entry of `s` with the key `key`.
pub open spec fn index_of<V>(s: Seq<(String, V)>, key: Seq<char>) -> int {
    choose|i: int| 0 <= i < s.len() && #[trigger] s[i].0@ == key
}

/// The map that a list of entries stands for.
pub open spec fn model<V>(s: Seq<(String, V)>) -> Map<Seq<char>, V> {
    Map::new(|k: Seq<char>| has_key(s, k), |k: Seq<char>| s[index_of(s, k)].1)
}

/// Each entry of a list with distinct keys is found in the list's map.
pub proof fn lemma_model_at<V>(s: Seq<(String, V)>, i: int)
    requires
        distinct_keys(s),
        0 <= i < s.len(),
    ensures
        model(s).contains_key(s[i].0@),
        model(s)[s[i].0@] == s[i].1,
{
    let j = index_of(s, s[i].0@);
    assert(i == j);
}

/// The empty list stands for the empty map.
pub proof fn lemma_model_empty<V>()
    ensures
        model(Seq::<(String, V)>::empty()) == Map::<Seq<char>, V>::empty(),
        distinct_keys(Seq::<(String, V)>::empty()),
{
}

/// Appending an entry under a fresh key inserts it into the map.
pub proof fn lemma_model_push<V>(s: Seq<(String, V)>, e: (String, V))
    requires
        distinct_keys(s),
        !has_key(s, e.0@),
    ensures
        distinct_keys(s.push(e)),
        model(s.push(e)) == model(s).insert(e.0@, e.1),
{
    let t = s.push(e);
    assert forall|k: Seq<char>| has_key(t, k) <==> (has_key(s, k) || k == e.0@) by {
        if has_key(t, k) {
            let i = index_of(t, k);
            assert(i < s.len() ==> s[i].0@ == k);
        }
        if has_key(s, k) {
            assert(t[index_of(s, k)].0@ == k);
        }
        if k == e.0@ {
            assert(t[s.len() as int].0@ == k);
        }
    }
    assert forall|k: Seq<char>| has_key(t, k) implies #[trigger] model(t)[k] == model(s).insert(
        e.0@,
        e.1,
    )[k] by {
        let i = index_of(t, k);
        lemma_model_at(t, i);
        if i < s.len() {
            lemma_model_at(s, i);
        }
    }
}

/// Taking an entry out of the list removes its key from the map.
pub proof fn lemma_model_remove<V>(s: Seq<(String, V)>, i: int)
    requires
        distinct_keys(s),
        0 <= i < s.len(),
    ensures
        distinct_keys(s.remove(i)),
        model(s.remove(i)) == model(s).remove(s[i].0@),
{
    let t = s.remove(i);
    let gone = s[i].0@;
    assert forall|a: int| 0 <= a < t.len() implies #[trigger] t[a] == s[if a < i {
        a
    } else {
        a + 1
    }] by {}
    assert forall|k: Seq<char>| has_key(t, k) <==> (has_key(s, k) && k != gone) by {
        if has_key(t, k) {
            let a = index_of(t, k);
            assert(s[if a < i { a } else { a + 1 }].0@ == k);
        }
        if has_key(s, k) && k != gone {
            let a0 = index_of(s, k);
            assert(t[if a0 < i { a0 } else { a0 - 1 }].0@ == k);
        }
    }
    assert forall|k: Seq<char>| has_key(t, k) implies #[trigger] model(t)[k] == model(s).remove(
        gone,
    )[k] by {
        let a = index_of(t, k);
        lemma_model_at(t, a);
        lemma_model_at(s, if a < i { a } else { a + 1 });
    }
}

/// A list with distinct keys stands for a finite map with one key per entry.
pub proof fn lemma_model_len<V>(s: Seq<(String, V)>)
    requires
        distinct_keys(s),
    ensures
        model(s).dom().finite(),
        model(s).dom().len() == s.len(),
    decreases s.len(),
{
    if s.len() == 0 {
        assert(s =~= Seq::<(String, V)>::empty());
        lemma_model_empty::<V>();
    } else {
        let head = s.drop_last();
        let e = s.last();
        assert(!has_key(head, e.0@)) by {
            if has_key(head, e.0@) {
                assert(s[index_of(head, e.0@)].0@ == s[s.len() - 1].0@);
            }
        }
        lemma_model_len(head);
        lemma_model_push(head, e);
        assert(head.push(e) =~= s);
    }
}

/// A map from strings to values.
///
/// The entries are kept in a list in which no key occurs twice; a lookup
/// walks the list.
#[derive(Debug)]
pub struct StrMap<V> {
    entries: Vec<(String, V)>,
}

/// Whether two string slices hold the same text.
///
/// Trusted: `str`'s `==` of the standard library, which compares the two
/// slices byte by byte and so character by character.
#[verifier::external_body]
fn same_text(a: &str, b: &str) -> (same: bool)
    ensures
        same == (a@ == b@),
{
    a == b
}

/// The position of the entry with the key `key`, if there is one.
fn position<V>(entries: &Vec<(String, V)>, key: &str) -> (found: Option<usize>)
    ensures
        match found {
            Some(i) => i < entries.len() && entries[i as int].0@ == key@,
            None => !has_key(entries@, key@),
        },
{
    let mut i: usize = 0;
    while i < entries.len()
        invariant
            i <= entries.len(),
            forall|j: int| 0 <= j < i ==> entries[j].0@ != key@,
        decreases entries.len() - i,
    {
        if same_text(entries[i].0.as_str(), key) {
            return Some(i);
        }
        i += 1;
    }
    None
}

impl<V> View for StrMap<V> {
    type V = Map<Seq<char>, V>;

    closed spec fn view(&self) -> Map<Seq<char>, V> {
        model(self.entries@)
    }
}

impl<V> StrMap<V> {
    #[verifier::type_invariant]
    spec fn keys_are_distinct(&self) -> bool {
        distinct_keys(self.entries@)
    }

    /// The empty map.
    pub fn new() -> (map: Self)
        ensures
            map@ == Map::<Seq<char>, V>::empty(),
    {
        proof {
            lemma_model_empty::<V>();
        }
        StrMap { entries: Vec::new() }
    }

    /// The entries of the map, each key once.
    pub fn into_entries(self) -> (entries: Vec<(String, V)>)
        ensures
            distinct_keys(entries@),
            model(entries@) == self@,
    {
        proof {
            use_type_invariant(&self);
        }
        self.entries
    }

    /// The number of keys.
    pub fn len(&self) -> (n: usize)
        ensures
            self@.dom().finite(),
            n == self@.dom().len(),
    {
        proof {
            use_type_invariant(self);
            lemma_model_len(self.entries@);
        }
        self.entries.len()
    }

    /// Whether the map has no key.
    pub fn is_empty(&self) -> (empty: bool)
        ensures
            empty == (self@ == Map::<Seq<char>, V>::empty()),
    {
        proof {
            use_type_invariant(self);
            if self.entries@.len() == 0 {
                assert(self.entries@ =~= Seq::<(String, V)>::empty());
                lemma_model_empty::<V>();
            } else {
                lemma_model_at(self.entries@, 0);
            }
        }
        self.entries.len() == 0
    }

    /// Whether `key` is a key of the map.
    pub fn contains_key(&self, key: &str) -> (found: bool)
        ensures
            found == self@.contains_key(key@),
    {
        position(&self.entries, key).is_some()
    }

    /// The value under `key`, if there is one.
    pub fn get(&self, key: &str) -> (value: Option<&V>)
        ensures
            match value {
                Some(v) => self@.contains_key(key@) && *v == self@[key@],
                None => !self@.contains_key(key@),
            },
    {
        match position(&self.entries, key) {
            Some(i) => {
                proof {
                    use_type_invariant(self);
                    lemma_model_at(self.entries@, i as int);
                }
                Some(&self.entries[i].1)
            },
            None => None,
        }
    }

    /// Puts `value` under `key` and hands back the value that was there.
    pub fn insert(&mut self, key: String, value: V) -> (previous: Option<V>)
        ensures
            final(self)@ == old(self)@.insert(key@, value),
            previous == if old(self)@.contains_key(key@) {
                Some(old(self)@[key@])
            } else {
                None
            },
    {
        proof {
            use_type_invariant(&*self);
        }
        let mut entries = Vec::new();
        std::mem::swap(&mut entries, &mut self.entries);
        let ghost before = entries@;
        let previous = match position(&entries, key.as_str()) {
            Some(i) => {
                proof {
                    lemma_model_at(before, i as int);
                    lemma_model_remove(before, i as int);
                }
                let gone = entries.remove(i);
                Some(gone.1)
            },
            None => None,
        };
        proof {
            lemma_model_push(entries@, (key, value));
        }
        entries.push((key, value));
        self.entries = entries;
        previous
    }

    /// Takes `key` out of the map and hands back the value that was there.
    pub fn remove(&mut self, key: &str) -> (previous: Option<V>)
        ensures
            final(self)@ == old(self)@.remove(key@),
            previous == if old(self)@.contains_key(key@) {
                Some(old(self)@[key@])
            } else {
                None
            },
    {
        proof {
            use_type_invariant(&*self);
        }
        let mut entries = Vec::new();
        std::mem::swap(&mut entries, &mut self.entries);
        let ghost before = entries@;
        let previous = match position(&entries, key) {
            Some(i) => {
                proof {
                    lemma_model_at(before, i as int);
                    lemma_model_remove(before, i as int);
                }
                let gone = entries.remove(i);
                Some(gone.1)
            },
            None => None,
        };
        self.entries = entries;
        previous
    }

    /// Puts `value` under a key that the map does not hold yet, without a search.
    pub(crate) fn push_new(&mut self, key: String, value: V)
        requires
            !old(self)@.contains_key(key@),
        ensures
            final(self)@ == old(self)@.insert(key@, value),
    {
        proof {
            use_type_invariant(&*self);
        }
        let mut entries = Vec::new();
        std::mem::swap(&mut entries, &mut self.entries);
        proof {
            lemma_model_push(entries@, (key, value));
        }
        entries.push((key, value));
        self.entries = entries;
    }

    /// Takes one entry out of the map, if it has any.
    pub fn pop(&mut self) -> (entry: Option<(String, V)>)
        ensures
            old(self)@.dom().finite(),
            match entry {
                Some((key, value)) => old(self)@.contains_key(key@) && old(self)@[key@] == value
                    && final(self)@ == old(self)@.remove(key@),
                None => old(self)@ == Map::<Seq<char>, V>::empty() && final(self)@ == old(self)@,
            },
    {
        proof {
            use_type_invariant(&*self);
        }
        let mut entries = Vec::new();
        std::mem::swap(&mut entries, &mut self.entries);
        let ghost before = entries@;
        proof {
            lemma_model_len(before);
            if before.len() == 0 {
                lemma_model_empty::<V>();
            } else {
                lemma_model_at(before, before.len() - 1);
                lemma_model_remove(before, before.len() - 1);
            }
        }
        let entry = entries.pop();
        self.entries = entries;
        entry
    }
}

impl<V: Clone> Clone for StrMap<V> {
    /// A map with the same keys, each value a clone of the value under that key.
    fn clone(&self) -> (copy: Self)
        ensures
            copy@.dom() == self@.dom(),
            forall|key: Seq<char>| #[trigger]
                copy@.contains_key(key) ==> cloned::<V>(self@[key], copy@[key]),
    {
        proof {
            use_type_invariant(self);
        }
        let mut entries: Vec<(String, V)> = Vec::new();
        let mut i: usize = 0;
        while i < self.entries.len()
            invariant
                i <= self.entries.len(),
                entries.len() == i,
                forall|j: int|
                    0 <= j < i ==> (#[trigger] entries[j]).0@ == self.entries[j].0@ && cloned::<V>(
                        self.entries[j].1,
                        entries[j].1,
                    ),
            decreases self.entries.len() - i,
        {
            let key = self.entries[i].0.clone();
            let value = self.entries[i].1.clone();
            entries.push((key, value));
            i += 1;
        }
        proof {
            let a = self.entries@;
            let b = entries@;
            assert(distinct_keys(b));
            assert forall|key: Seq<char>| has_key(a, key) <==> has_key(b, key) by {
                if has_key(a, key) {
                    assert(b[index_of(a, key)].0@ == key);
                }
                if has_key(b, key) {
                    assert(a[index_of(b, key)].0@ == key);
                }
            }
            assert forall|key: Seq<char>| #[trigger] model(b).contains_key(key) implies cloned::<V>(
                model(a)[key],
                model(b)[key],
            ) by {
                let x = index_of(b, key);
                lemma_model_at(a, x);
                lemma_model_at(b, x);
            }
        }
        StrMap { entries }
    }
}

} // verus!
