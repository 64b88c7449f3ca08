//! An insertion-ordered map from text to text: the string properties of a
//! resource and the named directories of a toolset.

use vstd::prelude::*;

verus! {

/// The entries of a map, in the order in which their keys first came.
pub type Entries = Seq<(Seq<char>, Seq<char>)>;

/// The index of the first entry of `s` under `key`.
pub open spec fn position(s: Entries, key: Seq<char>) -> Option<int>
    decreases s.len(),
{
    if s.len() == 0 {
        None
    } else if s[0].0 == key {
        Some(0)
    } else {
        match position(s.drop_first(), key) {
            Some(i) => Some(i + 1),
            None => None,
        }
    }
}

/// The value that `s` holds under `key`.
pub open spec fn lookup(s: Entries, key: Seq<char>) -> Option<Seq<char>> {
    match position(s, key) {
        Some(i) => Some(s[i].1),
        None => None,
    }
}

/// `s` with `value` under `key`: in the place of the entry that was there,
/// or, for a new key, behind all others.
pub open spec fn put(s: Entries, key: Seq<char>, value: Seq<char>) -> Entries {
    match position(s, key) {
        Some(i) => s.update(i, (key, value)),
        None => s.push((key, value)),
    }
}

/// Whether no key occurs twice in `s`.
pub open spec fn keys_distinct(s: Entries) -> bool {
    forall|i: int, j: int| 0 <= i < j < s.len() ==> (#[trigger] s[i]).0 != (#[trigger] s[j]).0
}

/// Where the first `n` entries have other keys and the `n`-th, if there is
/// one, has `key`, the position of `key` is `n`, or none at the end.
pub proof fn lemma_position(s: Entries, key: Seq<char>, n: int)
    requires
        0 <= n <= s.len(),
        forall|k: int| 0 <= k < n ==> (#[trigger] s[k]).0 != key,
        n == s.len() || s[n].0 == key,
    ensures
        position(s, key) == (if n < s.len() {
            Some(n)
        } else {
            None
        }),
    decreases n,
{
    if n > 0 {
        let rest = s.drop_first();
        assert forall|k: int| 0 <= k < n - 1 implies (#[trigger] rest[k]).0 != key by {
            assert(rest[k] == s[k + 1]);
        }
        lemma_position(rest, key, n - 1);
    }
}

/// A position is an index of an entry under the key, and the first such.
pub proof fn lemma_position_is_first(s: Entries, key: Seq<char>)
    ensures
        match position(s, key) {
            Some(i) => 0 <= i < s.len() && s[i].0 == key && forall|k: int|
                0 <= k < i ==> (#[trigger] s[k]).0 != key,
            None => forall|k: int| 0 <= k < s.len() ==> (#[trigger] s[k]).0 != key,
        },
    decreases s.len(),
{
    if s.len() > 0 && s[0].0 != key {
        let rest = s.drop_first();
        lemma_position_is_first(rest, key);
        match position(rest, key) {
            Some(i) => {
                assert(rest[i] == s[i + 1]);
                assert forall|k: int| 0 <= k < i + 1 implies (#[trigger] s[k]).0 != key by {
                    if k > 0 {
                        assert(rest[k - 1] == s[k]);
                    }
                }
            },
            None => {
                assert forall|k: int| 0 <= k < s.len() implies (#[trigger] s[k]).0 != key by {
                    if k > 0 {
                        assert(rest[k - 1] == s[k]);
                    }
                }
            },
        }
    }
}

/// Putting a value keeps the keys distinct, and the value is then found
/// under its key.
pub proof fn lemma_put(s: Entries, key: Seq<char>, value: Seq<char>)
    requires
        keys_distinct(s),
    ensures
        keys_distinct(put(s, key, value)),
        lookup(put(s, key, value), key) == Some(value),
{
    lemma_position_is_first(s, key);
    let t = put(s, key, value);
    match position(s, key) {
        Some(i) => {
            assert forall|a: int, b: int| 0 <= a < b < t.len() implies (#[trigger] t[a]).0 != (
            #[trigger] t[b]).0 by {
                assert(s[a].0 != s[b].0);
            }
            assert forall|k: int| 0 <= k < i implies (#[trigger] t[k]).0 != key by {
                assert(s[k].0 != key);
            }
            lemma_position(t, key, i);
        },
        None => {
            assert forall|a: int, b: int| 0 <= a < b < t.len() implies (#[trigger] t[a]).0 != (
            #[trigger] t[b]).0 by {
                if b < s.len() {
                    assert(s[a].0 != s[b].0);
                } else {
                    assert(s[a].0 != key);
                }
            }
            assert forall|k: int| 0 <= k < s.len() implies (#[trigger] t[k]).0 != key by {
                assert(s[k].0 != key);
            }
            lemma_position(t, key, s.len() as int);
        },
    }
}

/// A map from text to text that keeps its entries in the order in which their
/// keys were first inserted. No key occurs twice.
#[derive(Debug, PartialEq, Eq)]
pub struct TextMap {
    entries: Vec<(String, String)>,
}

impl View for TextMap {
    type V = Entries;

    closed spec fn view(&self) -> Entries {
        Seq::new(self.entries@.len(), |i: int| (self.entries@[i].0@, self.entries@[i].1@))
    }
}

impl TextMap {
    #[verifier::type_invariant]
    closed spec fn inv(&self) -> bool {
        keys_distinct(self@)
    }

    /// A map without entries.
    pub fn new() -> (map: TextMap)
        ensures
            map@ == Entries::empty(),
    {
        let map = TextMap { entries: Vec::new() };
        assert(map@ =~= Entries::empty());
        map
    }

    /// The number of entries.
    pub fn len(&self) -> (n: usize)
        ensures
            n == self@.len(),
            keys_distinct(self@),
    {
        proof {
            use_type_invariant(self);
        }
        self.entries.len()
    }

    /// The `i`-th entry, key and value; `None` where the map has fewer.
    pub fn entry(&self, i: usize) -> (entry: Option<(&str, &str)>)
        ensures
            match entry {
                Some((key, value)) => i < self@.len() && key@ == self@[i as int].0 && value@
                    == self@[i as int].1,
                None => i >= self@.len(),
            },
    {
        if i < self.entries.len() {
            Some((self.entries[i].0.as_str(), self.entries[i].1.as_str()))
        } else {
            None
        }
    }

    /// The key of the `i`-th entry.
    pub(crate) fn key(&self, i: usize) -> (key: &str)
        requires
            i < self@.len(),
        ensures
            key@ == self@[i as int].0,
    {
        self.entries[i].0.as_str()
    }

    /// The value of the `i`-th entry.
    pub(crate) fn value(&self, i: usize) -> (value: &str)
        requires
            i < self@.len(),
        ensures
            value@ == self@[i as int].1,
    {
        self.entries[i].1.as_str()
    }

    /// The index of the entry under `key`.
    pub fn find(&self, key: &str) -> (at: Option<usize>)
        ensures
            match at {
                Some(i) => position(self@, key@) == Some(i as int),
                None => position(self@, key@) is None,
            },
    {
        let wanted = key.to_owned();
        let mut i: usize = 0;
        while i < self.entries.len()
            invariant
                i <= self.entries@.len(),
                wanted@ == key@,
                forall|k: int| 0 <= k < i ==> (#[trigger] self@[k]).0 != key@,
            decreases self.entries@.len() - i,
        {
            if self.entries[i].0 == wanted {
                proof {
                    lemma_position(self@, key@, i as int);
                }
                return Some(i);
            }
            i += 1;
        }
        proof {
            lemma_position(self@, key@, i as int);
        }
        None
    }

    /// The value under `key`.
    pub fn get(&self, key: &str) -> (value: Option<&str>)
        ensures
            match value {
                Some(text) => lookup(self@, key@) == Some(text@),
                None => lookup(self@, key@) is None,
            },
    {
        match self.find(key) {
            Some(i) => {
                proof {
                    lemma_position_is_first(self@, key@);
                }
                Some(self.entries[i].1.as_str())
            },
            None => None,
        }
    }

    /// Puts `value` under `key`. A key that the map holds keeps its place.
    pub fn insert(&mut self, key: &str, value: &str)
        ensures
            final(self)@ == put(old(self)@, key@, value@),
            keys_distinct(final(self)@),
    {
        proof {
            use_type_invariant(&*self);
            lemma_put(self@, key@, value@);
            lemma_position_is_first(self@, key@);
        }
        let at = self.find(key);
        let entry = (key.to_owned(), value.to_owned());
        // The entries leave the map while they change, so that the map holds
        // distinct keys at every moment.
        let mut entries: Vec<(String, String)> = Vec::new();
        core::mem::swap(&mut self.entries, &mut entries);
        match at {
            Some(i) => {
                entries.set(i, entry);
            },
            None => {
                entries.push(entry);
            },
        }
        let ghost model = Seq::new(entries@.len(), |i: int| (entries@[i].0@, entries@[i].1@));
        assert(model =~= put(old(self)@, key@, value@));
        core::mem::swap(&mut self.entries, &mut entries);
        assert(self@ =~= model);
    }
}

impl Clone for TextMap {
    /// A map with the same entries in the same order.
    fn clone(&self) -> (copy: TextMap)
        ensures
            copy@ == self@,
    {
        proof {
            use_type_invariant(self);
        }
        let mut entries: Vec<(String, String)> = Vec::new();
        let mut i: usize = 0;
        while i < self.entries.len()
            invariant
                i <= self.entries@.len(),
                entries@.len() == i,
                forall|k: int|
                    0 <= k < i ==> (#[trigger] entries@[k]).0@ == self.entries@[k].0@
                        && entries@[k].1@ == self.entries@[k].1@,
            decreases self.entries@.len() - i,
        {
            entries.push((self.entries[i].0.clone(), self.entries[i].1.clone()));
            i += 1;
        }
        let ghost model = Seq::new(entries@.len(), |i: int| (entries@[i].0@, entries@[i].1@));
        assert(model =~= self@);
        let copy = TextMap { entries };
        assert(copy@ =~= self@);
        copy
    }
}

} // verus!
