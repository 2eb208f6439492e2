//! Text-keyed maps: the fields of a record, the filters of a query.

use vstd::prelude::*;

use crate::text::str_eq;

verus! {

/// A map from texts to values. Its view is the mathematical map; no key occurs twice, and a key
/// keeps the place at which it was first filed.
pub struct KeyMap<V: DeepView> {
    entries: Vec<(String, V)>,
}

impl<V: DeepView> View for KeyMap<V> {
    type V = Map<Seq<char>, V::V>;

    closed spec fn view(&self) -> Map<Seq<char>, V::V> {
        map_of(self.entries@)
    }
}

/// The keys of a list of entries, in order.
spec fn keys_of<V>(entries: Seq<(String, V)>) -> Seq<Seq<char>> {
    entries.map_values(|e: (String, V)| e.0@)
}

/// The map that a list of entries without repeated keys stands for.
spec fn map_of<V: DeepView>(entries: Seq<(String, V)>) -> Map<Seq<char>, V::V> {
    Map::new(
        |k: Seq<char>| keys_of(entries).contains(k),
        |k: Seq<char>| entries[keys_of(entries).index_of(k)].1.deep_view(),
    )
}

proof fn lemma_entry_at<V: DeepView>(entries: Seq<(String, V)>, i: int)
    requires
        keys_of(entries).no_duplicates(),
        0 <= i < entries.len(),
    ensures
        map_of(entries).contains_key(entries[i].0@),
        map_of(entries)[entries[i].0@] == entries[i].1.deep_view(),
{
    let k = entries[i].0@;
    assert(keys_of(entries)[i] == k);
    let j = keys_of(entries).index_of(k);
    assert(keys_of(entries)[j] == k);
    assert(i == j);
}

impl<V: DeepView> KeyMap<V> {
    #[verifier::type_invariant]
    spec fn distinct_keys(self) -> bool {
        keys_of(self.entries@).no_duplicates()
    }

    /// The keys, in the order in which they were first filed.
    pub closed spec fn keys(self) -> Seq<Seq<char>> {
        keys_of(self.entries@)
    }

    /// The empty map.
    pub fn new() -> (r: Self)
        ensures
            r@ == Map::<Seq<char>, V::V>::empty(),
    {
        let r = KeyMap { entries: Vec::new() };
        assert(r@ =~= Map::<Seq<char>, V::V>::empty());
        r
    }

    /// Where `key` stands, the number of entries when it is not there.
    fn find(&self, key: &str) -> (r: usize)
        ensures
            r <= self.entries@.len(),
            r < self.entries@.len() ==> self.entries@[r as int].0@ == key@,
            r == self.entries@.len() ==> !keys_of(self.entries@).contains(key@),
    {
        let mut i: usize = 0;
        while i < self.entries.len()
            invariant
                i <= self.entries@.len(),
                forall|k: int| 0 <= k < i ==> self.entries@[k].0@ != key@,
            decreases self.entries@.len() - i,
        {
            if str_eq(self.entries[i].0.as_str(), key) {
                return i;
            }
            i = i + 1;
        }
        assert(!keys_of(self.entries@).contains(key@)) by {
            if keys_of(self.entries@).contains(key@) {
                let k = keys_of(self.entries@).index_of(key@);
                assert(keys_of(self.entries@)[k] == key@);
                assert(self.entries@[k].0@ == key@);
            }
        }
        i
    }

    /// The value filed under `key`.
    pub fn get(&self, key: &str) -> (r: Option<&V>)
        ensures
            match r {
                Some(v) => self@.contains_key(key@) && self@[key@] == v.deep_view(),
                None => !self@.contains_key(key@),
            },
    {
        proof {
            use_type_invariant(self);
        }
        let i: usize = self.find(key);
        if i < self.entries.len() {
            proof {
                lemma_entry_at(self.entries@, i as int);
            }
            Some(&self.entries[i].1)
        } else {
            None
        }
    }

    /// Is anything filed under `key`?
    pub fn contains_key(&self, key: &str) -> (r: bool)
        ensures
            r == self@.contains_key(key@),
    {
        self.get(key).is_some()
    }

    /// Files `value` under `key`, in place of what was there; a new key comes last.
    pub fn insert(&mut self, key: String, value: V)
        ensures
            final(self)@ == old(self)@.insert(key@, value.deep_view()),
            final(self).keys() == if old(self)@.contains_key(key@) {
                old(self).keys()
            } else {
                old(self).keys().push(key@)
            },
    {
        proof {
            use_type_invariant(&*self);
        }
        let i: usize = self.find(key.as_str());
        let mut entries: Vec<(String, V)> = Vec::new();
        std::mem::swap(&mut entries, &mut self.entries);
        let ghost was = entries@;
        let ghost filed = (key, value);
        if i < entries.len() {
            entries.set(i, (key, value));
            proof {
                assert(keys_of(entries@) =~= keys_of(was));
                assert forall|k: Seq<char>| #[trigger]
                    map_of(was).contains_key(k) implies map_of(entries@)[k] == map_of(was).insert(
                    filed.0@,
                    filed.1.deep_view(),
                )[k] by {
                    let j = keys_of(was).index_of(k);
                    assert(keys_of(was)[j] == k);
                    lemma_entry_at(was, j);
                    lemma_entry_at(entries@, j);
                    assert(keys_of(was)[i as int] == filed.0@);
                }
                assert(map_of(was).contains_key(filed.0@)) by {
                    lemma_entry_at(was, i as int);
                }
            }
        } else {
            entries.push((key, value));
            proof {
                assert(keys_of(entries@) =~= keys_of(was).push(filed.0@));
                assert(keys_of(entries@).no_duplicates());
                assert forall|k: Seq<char>|
                    map_of(entries@).contains_key(k) <==> #[trigger] map_of(was).insert(
                        filed.0@,
                        filed.1.deep_view(),
                    ).contains_key(k) by {
                    if map_of(was).contains_key(k) {
                        let j = keys_of(was).index_of(k);
                        assert(keys_of(was)[j] == k);
                        assert(keys_of(entries@)[j] == k);
                    }
                    if k == filed.0@ {
                        assert(keys_of(entries@)[was.len() as int] == k);
                    }
                    if map_of(entries@).contains_key(k) {
                        let j = keys_of(entries@).index_of(k);
                        assert(keys_of(entries@)[j] == k);
                        if j < was.len() {
                            assert(keys_of(was)[j] == k);
                        }
                    }
                }
                assert forall|k: Seq<char>| #[trigger]
                    map_of(entries@).contains_key(k) implies map_of(entries@)[k] == map_of(
                    was,
                ).insert(filed.0@, filed.1.deep_view())[k] by {
                    let j = keys_of(entries@).index_of(k);
                    assert(keys_of(entries@)[j] == k);
                    lemma_entry_at(entries@, j);
                    if j < was.len() {
                        lemma_entry_at(was, j);
                        assert(keys_of(was)[j] == k);
                    }
                }
            }
        }
        assert(map_of(entries@) =~= map_of(was).insert(filed.0@, filed.1.deep_view()));
        self.entries = entries;
    }

    /// How many keys there are.
    pub fn len(&self) -> (r: usize)
        ensures
            r == self.keys().len(),
            self.keys().no_duplicates(),
            forall|k: Seq<char>| self@.contains_key(k) <==> #[trigger] self.keys().contains(k),
    {
        proof {
            use_type_invariant(self);
        }
        self.entries.len()
    }

    /// The `i`-th key.
    pub fn key_at(&self, i: usize) -> (r: &str)
        requires
            i < self.keys().len(),
        ensures
            r@ == self.keys()[i as int],
    {
        self.entries[i].0.as_str()
    }

    /// The value filed under the `i`-th key.
    pub fn value_at(&self, i: usize) -> (r: &V)
        requires
            i < self.keys().len(),
        ensures
            self@.contains_key(self.keys()[i as int]),
            r.deep_view() == self@[self.keys()[i as int]],
    {
        proof {
            use_type_invariant(self);
            lemma_entry_at(self.entries@, i as int);
        }
        &self.entries[i].1
    }
}

} // verus!
