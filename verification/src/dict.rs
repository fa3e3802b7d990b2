//! A small string-keyed dictionary.
//!
//! The entries live in a vector; the view is the map obtained by inserting the
//! entries from first to last, each value taken by its deep view, so a later
//! entry shadows an earlier one with the same key. All operations keep at most
//! one entry per key when the dictionary started that way.

use vstd::prelude::*;

verus! {

/// The map that a sequence of entries stands for: the entries inserted in order.
pub open spec fn map_of<V: DeepView>(s: Seq<(String, V)>) -> Map<Seq<char>, V::V>
    decreases s.len(),
{
    if s.len() == 0 {
        Map::empty()
    } else {
        map_of(s.drop_last()).insert(s.last().0@, s.last().1.deep_view())
    }
}

/// No two entries of `s` carry the same key.
pub open spec fn distinct_keys<V>(s: Seq<(String, V)>) -> bool {
    forall|i: int, j: int| 0 <= i < j < s.len() ==> s[i].0@ != s[j].0@
}

/// A key that no entry carries is not in the map.
pub proof fn lemma_absent<V: DeepView>(s: Seq<(String, V)>, k: Seq<char>)
    requires
        forall|j: int| 0 <= j < s.len() ==> s[j].0@ != k,
    ensures
        !map_of(s).contains_key(k),
    decreases s.len(),
{
    if s.len() > 0 {
        lemma_absent(s.drop_last(), k);
    }
}

/// The last entry that carries a key decides what the map holds for it.
pub proof fn lemma_lookup<V: DeepView>(s: Seq<(String, V)>, i: int, k: Seq<char>)
    requires
        0 <= i < s.len(),
        s[i].0@ == k,
        forall|j: int| i < j < s.len() ==> s[j].0@ != k,
    ensures
        map_of(s).contains_key(k),
        map_of(s)[k] == s[i].1.deep_view(),
    decreases s.len(),
{
    if i < s.len() - 1 {
        lemma_lookup(s.drop_last(), i, k);
    }
}

/// Replacing the value of the last entry that carries `k` is an insertion.
pub proof fn lemma_replace<V: DeepView>(s: Seq<(String, V)>, i: int, e: (String, V))
    requires
        0 <= i < s.len(),
        e.0@ == s[i].0@,
        forall|j: int| i < j < s.len() ==> s[j].0@ != e.0@,
    ensures
        map_of(s.update(i, e)) == map_of(s).insert(e.0@, e.1.deep_view()),
    decreases s.len(),
{
    let t = s.update(i, e);
    if i == s.len() - 1 {
        assert(t.drop_last() == s.drop_last());
        assert(map_of(t) == map_of(s).insert(e.0@, e.1.deep_view()));
    } else {
        lemma_replace(s.drop_last(), i, e);
        assert(t.drop_last() == s.drop_last().update(i, e));
        assert(t.last() == s.last());
        assert(map_of(t) == map_of(s).insert(e.0@, e.1.deep_view()));
    }
}

/// Taking out an entry that carries `k` changes the map at `k` only.
pub proof fn lemma_take_out<V: DeepView>(s: Seq<(String, V)>, i: int, k: Seq<char>)
    requires
        0 <= i < s.len(),
        s[i].0@ == k,
    ensures
        map_of(s.remove(i)).remove(k) == map_of(s).remove(k),
    decreases s.len(),
{
    let t = s.remove(i);
    if i == s.len() - 1 {
        assert(t == s.drop_last());
        assert(map_of(t).remove(k) == map_of(s).remove(k));
    } else {
        lemma_take_out(s.drop_last(), i, k);
        assert(t.len() == s.len() - 1);
        assert(t.drop_last() == s.drop_last().remove(i));
        assert(t.last() == s.last());
        let below = map_of(s.drop_last());
        let below_t = map_of(t.drop_last());
        let (lk, lv) = (s.last().0@, s.last().1.deep_view());
        assert(map_of(t) == below_t.insert(lk, lv));
        assert(map_of(s) == below.insert(lk, lv));
        assert(below_t.insert(lk, lv).remove(k) == below.insert(lk, lv).remove(k)) by {
            if lk == k {
                assert(below_t.insert(lk, lv).remove(k) == below_t.remove(k));
                assert(below.insert(lk, lv).remove(k) == below.remove(k));
            } else {
                assert(below_t.insert(lk, lv).remove(k) == below_t.remove(k).insert(lk, lv));
                assert(below.insert(lk, lv).remove(k) == below.remove(k).insert(lk, lv));
            }
        }
    }
}

/// A dictionary from strings to values of type `V`.
#[derive(Clone, Debug, PartialEq)]
pub struct Dict<V> {
    pub entries: Vec<(String, V)>,
}

impl<V: DeepView> View for Dict<V> {
    type V = Map<Seq<char>, V::V>;

    open spec fn view(&self) -> Map<Seq<char>, V::V> {
        map_of(self.entries@)
    }
}

impl<V: DeepView> Dict<V> {
    /// Whether every key occurs in one entry only.
    pub open spec fn compact(&self) -> bool {
        distinct_keys(self.entries@)
    }

    /// The empty dictionary.
    pub fn new() -> (r: Self)
        ensures
            r@ == Map::<Seq<char>, V::V>::empty(),
            r.compact(),
            r.entries@.len() == 0,
    {
        Dict { entries: Vec::new() }
    }

    /// The index of the last entry that carries `key`, if there is one.
    fn position(&self, key: &str) -> (r: Option<usize>)
        ensures
            match r {
                Some(i) => {
                    &&& i < self.entries@.len()
                    &&& self.entries@[i as int].0@ == key@
                    &&& forall|j: int| i < j < self.entries@.len() ==> self.entries@[j].0@ != key@
                    &&& self@.contains_key(key@)
                    &&& self@[key@] == self.entries@[i as int].1.deep_view()
                },
                None => {
                    &&& forall|j: int| 0 <= j < self.entries@.len() ==> self.entries@[j].0@ != key@
                    &&& !self@.contains_key(key@)
                },
            },
    {
        let mut i: usize = self.entries.len();
        while i > 0
            invariant
                i <= self.entries@.len(),
                forall|j: int| i <= j < self.entries@.len() ==> self.entries@[j].0@ != key@,
            decreases i,
        {
            i -= 1;
            if crate::text::same_text(self.entries[i].0.as_str(), key) {
                proof {
                    lemma_lookup(self.entries@, i as int, key@);
                }
                return Some(i);
            }
        }
        proof {
            lemma_absent(self.entries@, key@);
        }
        None
    }

    /// Whether `key` has a value.
    pub fn contains_key(&self, key: &str) -> (r: bool)
        ensures
            r == self@.contains_key(key@),
    {
        self.position(key).is_some()
    }

    /// The value stored under `key`.
    pub fn get(&self, key: &str) -> (r: Option<&V>)
        ensures
            match r {
                Some(v) => self@.contains_key(key@) && v.deep_view() == self@[key@],
                None => !self@.contains_key(key@),
            },
    {
        match self.position(key) {
            Some(i) => Some(&self.entries[i].1),
            None => None,
        }
    }

    /// Stores `value` under `key`, replacing what was there.
    pub fn insert(&mut self, key: String, value: V)
        ensures
            final(self)@ == old(self)@.insert(key@, value.deep_view()),
            old(self).compact() ==> final(self).compact(),
    {
        match self.position(key.as_str()) {
            Some(i) => {
                proof {
                    lemma_replace(self.entries@, i as int, (key, value));
                }
                self.entries[i] = (key, value);
            },
            None => {
                proof {
                    assert(self.entries@.push((key, value)).drop_last() == self.entries@);
                }
                self.entries.push((key, value));
            },
        }
    }

    /// Takes `key` and its value out of the dictionary.
    pub fn remove(&mut self, key: &str) -> (r: Option<V>)
        ensures
            final(self)@ == old(self)@.remove(key@),
            match r {
                Some(v) => old(self)@.contains_key(key@) && v.deep_view() == old(self)@[key@],
                None => !old(self)@.contains_key(key@) && final(self).entries@ == old(self).entries@,
            },
            old(self).compact() ==> final(self).compact(),
    {
        let mut found: Option<V> = None;
        let mut i: usize = self.entries.len();
        while i > 0
            invariant
                i <= self.entries@.len(),
                forall|j: int| i <= j < self.entries@.len() ==> self.entries@[j].0@ != key@,
                map_of(self.entries@).remove(key@) == map_of(old(self).entries@).remove(key@),
                found is None ==> self.entries@ == old(self).entries@,
                found matches Some(v) ==> map_of(old(self).entries@).contains_key(key@)
                    && v.deep_view() == map_of(old(self).entries@)[key@],
                distinct_keys(old(self).entries@) ==> distinct_keys(self.entries@),
            decreases i,
        {
            i -= 1;
            if crate::text::same_text(self.entries[i].0.as_str(), key) {
                proof {
                    lemma_take_out(self.entries@, i as int, key@);
                    if found is None {
                        lemma_lookup(self.entries@, i as int, key@);
                    }
                }
                let entry = self.entries.remove(i);
                if found.is_none() {
                    found = Some(entry.1);
                }
            }
        }
        proof {
            lemma_absent(self.entries@, key@);
            assert(map_of(self.entries@).remove(key@) == map_of(self.entries@));
        }
        found
    }

    /// The number of entries.
    pub fn len(&self) -> (r: usize)
        ensures
            r == self.entries@.len(),
    {
        self.entries.len()
    }
}

} // verus!
