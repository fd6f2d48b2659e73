//! A map keyed by strings, kept in two vectors in insertion order.

use vstd::prelude::*;
use crate::text::str_eq;

verus! {

/// A finite map from strings to values of type `V`.
///
/// The view is the map itself, keyed by the keys' characters. No key is
/// stored twice; `order` lists the keys as they are stored.
pub struct Registry<V> {
    keys: Vec<String>,
    values: Vec<V>,
}

impl<V> View for Registry<V> {
    type V = Map<Seq<char>, V>;

    closed spec fn view(&self) -> Map<Seq<char>, V> {
        paired(self.order(), self.values@)
    }
}

/// The map that takes each of `keys` to the value at the same place.
spec fn paired<V>(keys: Seq<Seq<char>>, values: Seq<V>) -> Map<Seq<char>, V> {
    Map::new(|k: Seq<char>| keys.contains(k), |k: Seq<char>| values[keys.index_of(k)])
}

/// Replacing the value at place `i` is inserting under the key at place `i`.
proof fn lemma_paired_update<V>(keys: Seq<Seq<char>>, values: Seq<V>, i: int, value: V)
    requires
        keys.no_duplicates(),
        keys.len() == values.len(),
        0 <= i < keys.len(),
    ensures
        paired(keys, values.update(i, value)) == paired(keys, values).insert(keys[i], value),
{
    assert(keys.index_of(keys[i]) == i);
    assert(paired(keys, values.update(i, value)) =~= paired(keys, values).insert(keys[i], value));
}

/// Adding a new key and its value at the end is inserting.
proof fn lemma_paired_push<V>(keys: Seq<Seq<char>>, values: Seq<V>, key: Seq<char>, value: V)
    requires
        keys.no_duplicates(),
        keys.len() == values.len(),
        !keys.contains(key),
    ensures
        keys.push(key).no_duplicates(),
        paired(keys.push(key), values.push(value)) == paired(keys, values).insert(key, value),
{
    let longer = keys.push(key);
    assert(longer.no_duplicates());
    assert(longer[keys.len() as int] == key);
    assert forall|k: Seq<char>| keys.contains(k) implies longer.contains(k) && longer.index_of(k)
        == keys.index_of(k) by {
        assert(longer[keys.index_of(k)] == k);
    }
    assert forall|k: Seq<char>| longer.contains(k) implies k == key || keys.contains(k) by {
        let i = longer.index_of(k);
        if i < keys.len() {
            assert(keys[i] == k);
        }
    }
    assert(paired(longer, values.push(value)) =~= paired(keys, values).insert(key, value));
}

/// Taking out the key at place `i` and its value is removing that key.
proof fn lemma_paired_remove<V>(keys: Seq<Seq<char>>, values: Seq<V>, i: int)
    requires
        keys.no_duplicates(),
        keys.len() == values.len(),
        0 <= i < keys.len(),
    ensures
        keys.remove(i).no_duplicates(),
        keys.remove_value(keys[i]) == keys.remove(i),
        paired(keys.remove(i), values.remove(i)) == paired(keys, values).remove(keys[i]),
{
    let shorter = keys.remove(i);
    keys.index_of_first_ensures(keys[i]);
    assert forall|k: Seq<char>| shorter.contains(k) implies keys.contains(k) && k != keys[i]
        && keys.index_of(k) == (if shorter.index_of(k) < i {
        shorter.index_of(k)
    } else {
        shorter.index_of(k) + 1
    }) by {
        let j = shorter.index_of(k);
        let at = if j < i {
            j
        } else {
            j + 1
        };
        assert(keys[at] == k);
    }
    assert forall|k: Seq<char>| keys.contains(k) && k != keys[i] implies shorter.contains(k) by {
        let at = keys.index_of(k);
        let j = if at < i {
            at
        } else {
            at - 1
        };
        assert(shorter[j] == k);
    }
    assert(paired(shorter, values.remove(i)) =~= paired(keys, values).remove(keys[i]));
}

impl<V> Registry<V> {
    /// The stored keys, in storage order.
    pub closed spec fn order(&self) -> Seq<Seq<char>> {
        Seq::new(self.keys@.len(), |i: int| self.keys@[i]@)
    }

    /// The representation invariant: one value per key, and no key twice.
    pub closed spec fn wf(&self) -> bool {
        &&& self.keys@.len() == self.values@.len()
        &&& self.order().no_duplicates()
    }

    /// An empty registry.
    pub fn new() -> (registry: Self)
        ensures
            registry.wf(),
            registry@ == Map::<Seq<char>, V>::empty(),
            registry.order() == Seq::<Seq<char>>::empty(),
    {
        let registry = Registry { keys: Vec::new(), values: Vec::new() };
        assert(registry.order() =~= Seq::<Seq<char>>::empty());
        assert(registry@ =~= Map::<Seq<char>, V>::empty());
        registry
    }

    /// How `order` and the view belong together: the keys of the map are
    /// exactly the entries of `order`, each once.
    pub proof fn lemma_order(&self)
        requires
            self.wf(),
        ensures
            self.order().no_duplicates(),
            self@.dom() == self.order().to_set(),
            self@.dom().finite(),
            self@.len() == self.order().len(),
            forall|k: Seq<char>| self@.contains_key(k) <==> self.order().contains(k),
    {
        assert(self@.dom() =~= self.order().to_set());
        self.order().unique_seq_to_set();
    }

    /// Number of stored keys.
    pub fn len(&self) -> (n: usize)
        requires
            self.wf(),
        ensures
            n == self@.len(),
            n == self.order().len(),
    {
        proof {
            self.lemma_order();
        }
        self.keys.len()
    }

    /// The key stored at place `i` of `order`.
    pub fn key_at(&self, i: usize) -> (key: &String)
        requires
            self.wf(),
            i < self.order().len(),
        ensures
            key@ == self.order()[i as int],
            self@.contains_key(key@),
    {
        assert(self.order()[i as int] == self.keys@[i as int]@);
        assert(self.order().contains(self.order()[i as int]));
        &self.keys[i]
    }

    /// The value stored under the key at place `i` of `order`.
    pub fn value_at(&self, i: usize) -> (value: &V)
        requires
            self.wf(),
            i < self.order().len(),
        ensures
            self@.contains_key(self.order()[i as int]),
            *value == self@[self.order()[i as int]],
    {
        assert(self.order().index_of(self.order()[i as int]) == i);
        &self.values[i]
    }

    /// Whether `key` is stored.
    pub fn contains_key(&self, key: &str) -> (present: bool)
        requires
            self.wf(),
        ensures
            present == self@.contains_key(key@),
    {
        self.position(key).is_some()
    }

    /// The value stored under `key`.
    pub fn get(&self, key: &str) -> (found: Option<&V>)
        requires
            self.wf(),
        ensures
            match found {
                Some(v) => self@.contains_key(key@) && *v == self@[key@],
                None => !self@.contains_key(key@),
            },
    {
        match self.position(key) {
            Some(i) => {
                assert(self.order().index_of(key@) == i);
                Some(&self.values[i])
            },
            None => None,
        }
    }

    /// Where `key` is stored, if it is.
    fn position(&self, key: &str) -> (found: Option<usize>)
        ensures
            match found {
                Some(i) => i < self.order().len() && self.order()[i as int] == key@,
                None => !self.order().contains(key@),
            },
    {
        let mut i: usize = 0;
        while i < self.keys.len()
            invariant
                i <= self.keys@.len(),
                forall|j: int| 0 <= j < i ==> self.order()[j] != key@,
            decreases self.keys@.len() - i,
        {
            if str_eq(self.keys[i].as_str(), key) {
                return Some(i);
            }
            i += 1;
        }
        None
    }

    /// Mutable access to the value stored under `key`.
    pub fn get_mut(&mut self, key: &str) -> (found: Option<&mut V>)
        requires
            old(self).wf(),
        ensures
            final(self).wf(),
            match found {
                Some(v) => old(self)@.contains_key(key@) && *v == old(self)@[key@]
                    && final(self)@ == old(self)@.insert(key@, *final(v))
                    && final(self).order() == old(self).order(),
                None => !old(self)@.contains_key(key@) && *final(self) == *old(self),
            },
    {
        match self.position(key) {
            Some(i) => {
                assert(self.order().index_of(key@) == i);
                let v = &mut self.values[i];
                Some(v)
            },
            None => None,
        }
    }

    /// Stores `value` under `key`, replacing what was stored there.
    pub fn insert(&mut self, key: String, value: V)
        requires
            old(self).wf(),
        ensures
            final(self).wf(),
            final(self)@ == old(self)@.insert(key@, value),
            old(self)@.contains_key(key@) ==> final(self).order() == old(self).order(),
            !old(self)@.contains_key(key@) ==> final(self).order() == old(self).order().push(key@),
    {
        match self.position(key.as_str()) {
            Some(i) => {
                self.values[i] = value;
                proof {
                    assert(self.order() =~= old(self).order());
                    lemma_paired_update(self.order(), old(self).values@, i as int, value);
                }
            },
            None => {
                self.keys.push(key);
                self.values.push(value);
                proof {
                    assert(self.order() =~= old(self).order().push(key@));
                    lemma_paired_push(old(self).order(), old(self).values@, key@, value);
                }
            },
        }
    }

    /// Removes `key` and returns what was stored under it.
    pub fn remove(&mut self, key: &str) -> (removed: Option<V>)
        requires
            old(self).wf(),
        ensures
            final(self).wf(),
            final(self)@ == old(self)@.remove(key@),
            removed == if old(self)@.contains_key(key@) {
                Some(old(self)@[key@])
            } else {
                None
            },
            final(self).order() == old(self).order().remove_value(key@),
            old(self)@.contains_key(key@) ==> final(self).order().len() == old(self).order().len()
                - 1,
    {
        match self.position(key) {
            Some(i) => {
                let _ = self.keys.remove(i);
                let value = self.values.remove(i);
                proof {
                    assert(old(self).order().index_of(key@) == i);
                    assert(self.order() =~= old(self).order().remove(i as int));
                    lemma_paired_remove(old(self).order(), old(self).values@, i as int);
                }
                Some(value)
            },
            None => {
                proof {
                    old(self).order().index_of_first_ensures(key@);
                    assert(self@ =~= old(self)@.remove(key@));
                }
                None
            },
        }
    }
}

} // verus!
