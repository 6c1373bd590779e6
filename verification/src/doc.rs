//! The in-memory document: a mapping from string keys to JSON values.
//!
//! The document is stored as a vector of key-value entries with pairwise
//! distinct keys; its mathematical view is the finite map built from those
//! entries. Insertion, removal and lookup are verified against that view.

use vstd::prelude::*;

verus! {

/// The map described by a sequence of key-value entries, later entries
/// overriding earlier ones (well-formed documents never have two entries
/// with the same key, so no overriding actually happens there).
pub open spec fn doc_map(s: Seq<(String, serde_json::Value)>) -> Map<
    Seq<char>,
    serde_json::Value,
>
    decreases s.len(),
{
    if s.len() == 0 {
        Map::empty()
    } else {
        doc_map(s.drop_last()).insert(s.last().0@, s.last().1)
    }
}

/// Whether some entry of `s` carries the key `k`.
pub open spec fn has_key(s: Seq<(String, serde_json::Value)>, k: Seq<char>) -> bool {
    exists|i: int| 0 <= i < s.len() && (#[trigger] s[i]).0@ == k
}

/// The set of key-value pairs held by one store instance, serialized as one
/// unit on every mutation.
pub struct Document {
    pub(crate) entries: Vec<(String, serde_json::Value)>,
}

impl View for Document {
    type V = Map<Seq<char>, serde_json::Value>;

    closed spec fn view(&self) -> Self::V {
        doc_map(self.entries@)
    }
}

/// The keys of `doc_map(s)` are exactly the keys of the entries of `s`.
proof fn lemma_doc_map_dom(s: Seq<(String, serde_json::Value)>, k: Seq<char>)
    ensures
        doc_map(s).dom().contains(k) <==> has_key(s, k),
    decreases s.len(),
{
    if s.len() > 0 {
        lemma_doc_map_dom(s.drop_last(), k);
        if s.last().0@ == k {
            assert(s[s.len() - 1].0@ == k);
        } else {
            if has_key(s.drop_last(), k) {
                let i = choose|i: int|
                    0 <= i < s.drop_last().len() && (#[trigger] s.drop_last()[i]).0@ == k;
                assert(s[i].0@ == k);
            }
            if has_key(s, k) {
                let i = choose|i: int| 0 <= i < s.len() && (#[trigger] s[i]).0@ == k;
                assert(s.drop_last()[i].0@ == k);
            }
        }
    }
}

/// In a document with pairwise distinct keys, the map sends each entry's key
/// to that entry's value.
proof fn lemma_doc_map_index(s: Seq<(String, serde_json::Value)>, i: int)
    requires
        unique_keys(s),
        0 <= i < s.len(),
    ensures
        doc_map(s).dom().contains(s[i].0@),
        doc_map(s)[s[i].0@] == s[i].1,
    decreases s.len(),
{
    if i == s.len() - 1 {
    } else {
        lemma_doc_map_index(s.drop_last(), i);
        assert(s.drop_last()[i] == s[i]);
        assert(s[s.len() - 1].0@ != s[i].0@);
    }
}

/// Pairwise distinct keys among the entries.
pub open spec fn unique_keys(s: Seq<(String, serde_json::Value)>) -> bool {
    forall|i: int, j: int|
        0 <= i < j < s.len() ==> (#[trigger] s[i]).0@ != (#[trigger] s[j]).0@
}

/// Removing the entry at index `i` removes exactly its key from the map.
proof fn lemma_doc_map_remove(s: Seq<(String, serde_json::Value)>, i: int)
    requires
        unique_keys(s),
        0 <= i < s.len(),
    ensures
        doc_map(s.remove(i)) == doc_map(s).remove(s[i].0@),
    decreases s.len(),
{
    if i == s.len() - 1 {
        assert(s.remove(i) =~= s.drop_last());
        lemma_doc_map_dom(s.drop_last(), s[i].0@);
        assert(!has_key(s.drop_last(), s[i].0@)) by {
            if has_key(s.drop_last(), s[i].0@) {
                let j = choose|j: int|
                    0 <= j < s.drop_last().len() && (#[trigger] s.drop_last()[j]).0@ == s[i].0@;
                assert(s[j].0@ == s[i].0@);
            }
        }
        assert(doc_map(s.drop_last()).insert(s.last().0@, s.last().1).remove(s[i].0@) =~= doc_map(
            s.drop_last(),
        ));
    } else {
        assert(s.remove(i).drop_last() =~= s.drop_last().remove(i));
        assert(s.remove(i).last() == s.last());
        lemma_doc_map_remove(s.drop_last(), i);
        assert(s.drop_last()[i] == s[i]);
        assert(s.last().0@ != s[i].0@);
        assert(doc_map(s.drop_last()).remove(s[i].0@).insert(s.last().0@, s.last().1) =~= doc_map(
            s.drop_last(),
        ).insert(s.last().0@, s.last().1).remove(s[i].0@));
    }
}

/// Appending an entry inserts its key-value pair into the map.
proof fn lemma_doc_map_push(s: Seq<(String, serde_json::Value)>, p: (String, serde_json::Value))
    ensures
        doc_map(s.push(p)) == doc_map(s).insert(p.0@, p.1),
{
    assert(s.push(p).drop_last() =~= s);
    assert(s.push(p).last() == p);
}

impl Document {
    /// Pairwise distinct keys: the representation describes its map without
    /// any entry shadowing another.
    pub closed spec fn wf(&self) -> bool {
        unique_keys(self.entries@)
    }

    /// The empty document.
    pub fn empty() -> (d: Document)
        ensures
            d.wf(),
            d@ == Map::<Seq<char>, serde_json::Value>::empty(),
    {
        Document { entries: Vec::new() }
    }

    /// The index of the entry carrying `key`, if any.
    fn index_of(&self, key: &String) -> (r: Option<usize>)
        ensures
            match r {
                Some(i) => i < self.entries@.len() && self.entries@[i as int].0@ == key@,
                None => !has_key(self.entries@, key@),
            },
    {
        let n = self.entries.len();
        let mut i: usize = 0;
        while i < n
            invariant
                n == self.entries@.len(),
                i <= n,
                forall|j: int| 0 <= j < i ==> (#[trigger] self.entries@[j]).0@ != key@,
            decreases n - i,
        {
            if self.entries[i].0 == *key {
                return Some(i);
            }
            i = i + 1;
        }
        None
    }

    /// The value stored under `key`, if any.
    pub fn get(&self, key: &String) -> (r: Option<&serde_json::Value>)
        requires
            self.wf(),
        ensures
            match r {
                Some(v) => self@.dom().contains(key@) && *v == self@[key@],
                None => !self@.dom().contains(key@),
            },
    {
        match self.index_of(key) {
            Some(i) => {
                proof {
                    lemma_doc_map_index(self.entries@, i as int);
                }
                Some(&self.entries[i].1)
            },
            None => {
                proof {
                    lemma_doc_map_dom(self.entries@, key@);
                }
                None
            },
        }
    }

    /// Insert `value` under `key`, overwriting any previous value.
    pub fn insert(&mut self, key: String, value: serde_json::Value)
        requires
            old(self).wf(),
        ensures
            final(self).wf(),
            final(self)@ == old(self)@.insert(key@, value),
    {
        match self.index_of(&key) {
            Some(i) => {
                proof {
                    lemma_doc_map_remove(self.entries@, i as int);
                    let t = self.entries@.remove(i as int);
                    assert(unique_keys(t)) by {
                        self.entries@.remove_ensures(i as int);
                    }
                    assert(!has_key(t, key@)) by {
                        self.entries@.remove_ensures(i as int);
                        if has_key(t, key@) {
                            let j = choose|j: int| 0 <= j < t.len() && (#[trigger] t[j]).0@ == key@;
                            if j < i {
                                assert(self.entries@[j].0@ == key@);
                            } else {
                                assert(self.entries@[j + 1].0@ == key@);
                            }
                        }
                    }
                }
                let _ = self.entries.remove(i);
                let ghost t = self.entries@;
                self.entries.push((key, value));
                proof {
                    lemma_doc_map_push(t, (key, value));
                    lemma_unique_push(t, (key, value));
                    assert(old(self)@.remove(key@).insert(key@, value) =~= old(self)@.insert(
                        key@,
                        value,
                    ));
                }
            },
            None => {
                let ghost t = self.entries@;
                self.entries.push((key, value));
                proof {
                    lemma_doc_map_push(t, (key, value));
                    lemma_unique_push(t, (key, value));
                }
            },
        }
    }

    /// Remove `key` and its value; removing an absent key leaves the
    /// document as it is.
    pub fn remove(&mut self, key: &String)
        requires
            old(self).wf(),
        ensures
            final(self).wf(),
            final(self)@ == old(self)@.remove(key@),
    {
        match self.index_of(key) {
            Some(i) => {
                proof {
                    lemma_doc_map_remove(self.entries@, i as int);
                    let t = self.entries@.remove(i as int);
                    assert(unique_keys(t)) by {
                        self.entries@.remove_ensures(i as int);
                    }
                }
                let _ = self.entries.remove(i);
            },
            None => {
                proof {
                    lemma_doc_map_dom(self.entries@, key@);
                    assert(doc_map(self.entries@).remove(key@) =~= doc_map(self.entries@));
                }
            },
        }
    }
}

/// Appending an entry whose key is fresh preserves key uniqueness.
proof fn lemma_unique_push(s: Seq<(String, serde_json::Value)>, p: (String, serde_json::Value))
    requires
        unique_keys(s),
        !has_key(s, p.0@),
    ensures
        unique_keys(s.push(p)),
{
    assert forall|i: int, j: int|
        0 <= i < j < s.push(p).len() implies (#[trigger] s.push(p)[i]).0@ != (#[trigger] s.push(
        p,
    )[j]).0@ by {
        if j == s.len() {
            assert(s[i].0@ != p.0@);
        }
    }
}

} // verus!
