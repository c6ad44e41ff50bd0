//! The hash table: lookup, insertion and removal over the bucket array, and
//! the growing and shrinking that keep its load bounded.

use crate::buckets::{
    lemma_bucket_len, lemma_empty_buckets, lemma_entry_is_mapped, lemma_push, lemma_remove_at,
    lemma_set_value_any, moved, position, shaped, table_map, total_len, ElementsVecs, KeyVal,
};
use crate::key::{slot, HashKey};
use crate::model::State;
use crate::policy::{
    above_max_load, below_min_load, capacity_after_insert, capacity_after_remove,
    exceeds_max_load, falls_short_of_min_load, lemma_doubled_valid, lemma_halved_valid,
    lemma_initial_capacity_valid, load_in_bounds, valid_capacity, INITIAL_CAP, MIN_CAPACITY,
};
use vstd::prelude::*;

verus! {

/// A hash map with separate chaining: a power-of-two number of buckets, each
/// an unordered list of entries, grown and shrunk to keep the load bounded.
///
/// Its view is the mapping from the keys' models to the values.
pub struct HashMap<K: HashKey, V> {
    n_elements: usize,
    element_vecs: ElementsVecs<K, V>,
}

impl<K: HashKey, V> View for HashMap<K, V> {
    type V = Map<K::V, V>;

    closed spec fn view(&self) -> Map<K::V, V> {
        table_map(self.element_vecs@)
    }
}

impl<K: HashKey, V> HashMap<K, V> {
    /// Number of buckets.
    pub closed spec fn spec_capacity(&self) -> nat {
        self.element_vecs@.len()
    }

    /// The mapping and the capacity together.
    pub open spec fn state(&self) -> State<K::V, V> {
        State { map: self@, capacity: self.spec_capacity() }
    }

    /// Number of entries in bucket `index`.
    pub closed spec fn spec_bucket_len(&self, index: int) -> nat {
        self.element_vecs@[index]@.len()
    }

    /// Number of entries in the first `n` buckets together.
    pub open spec fn entries_in_first(&self, n: nat) -> nat
        decreases n,
    {
        if n == 0 {
            0
        } else {
            self.entries_in_first((n - 1) as nat) + self.spec_bucket_len(n - 1)
        }
    }

    /// The buckets are consistent with each other and with the entry count;
    /// the load may be anything.
    spec fn well_shaped(&self) -> bool {
        &&& shaped(self.element_vecs@)
        &&& self@.dom().finite()
        &&& self@.len() == self.n_elements
        &&& total_len(self.element_vecs@, self.element_vecs@.len()) == self.n_elements
    }

    /// The table's invariant: the number of buckets is a power of two, at
    /// least `MIN_CAPACITY`; every entry lies in the bucket that its key
    /// hashes to; no key occurs twice; the entry count is the number of
    /// entries in the buckets; and the load is at most three quarters.
    pub closed spec fn wf(&self) -> bool {
        &&& self.well_shaped()
        &&& !above_max_load(self.n_elements as nat, self.element_vecs@.len())
    }

    /// What the invariant says of capacity and size: the table holds
    /// finitely many entries, its capacity is a power of two, at least
    /// `MIN_CAPACITY`, and its load is at most three quarters.
    pub proof fn lemma_capacity_and_load(&self)
        requires
            self.wf(),
        ensures
            self@.dom().finite(),
            valid_capacity(self.spec_capacity()),
            !above_max_load(self@.len(), self.spec_capacity()),
            self.state().valid(),
    {
    }

    /// The size is the number of entries in all the buckets together.
    pub proof fn lemma_size_is_bucket_total(&self)
        requires
            self.wf(),
        ensures
            self.entries_in_first(self.spec_capacity()) == self@.len(),
    {
        self.lemma_entries_in_first(self.spec_capacity());
    }

    proof fn lemma_entries_in_first(&self, n: nat)
        ensures
            self.entries_in_first(n) == total_len(self.element_vecs@, n),
        decreases n,
    {
        if n > 0 {
            self.lemma_entries_in_first((n - 1) as nat);
        }
    }

    /// Returns a vector of `capacity` empty buckets.
    fn init_vecs(capacity: &usize) -> (element_vecs: ElementsVecs<K, V>)
        ensures
            element_vecs@.len() == *capacity,
            forall|i: int| 0 <= i < *capacity ==> (#[trigger] element_vecs@[i])@.len() == 0,
    {
        let mut element_vecs: ElementsVecs<K, V> = Vec::new();
        let mut i: usize = 0;
        while i < *capacity
            invariant
                i <= *capacity,
                element_vecs@.len() == i,
                forall|k: int| 0 <= k < i ==> (#[trigger] element_vecs@[k])@.len() == 0,
            decreases *capacity - i,
        {
            element_vecs.push(Vec::new());
            i += 1;
        }
        element_vecs
    }

    /// Returns a new empty hashmap, with `INITIAL_CAP` buckets.
    pub fn new() -> (map: Self)
        ensures
            map.wf(),
            map@ == Map::<K::V, V>::empty(),
            map.spec_capacity() == INITIAL_CAP,
            map.state() == State::<K::V, V>::initial(),
    {
        HashMap::default()
    }

    /// Searches for a given key, and returns an optional mutable reference to
    /// its entry. Whatever value the caller then stores in the entry is the
    /// value that the table holds under the key.
    fn find_mut(&mut self, key: &K) -> (found: Option<&mut KeyVal<K, V>>)
        requires
            old(self).well_shaped(),
        ensures
            match found {
                Some(kv) => {
                    &&& old(self)@.contains_key(key@)
                    &&& kv.key@ == key@
                    &&& kv.val == old(self)@[key@]
                    &&& final(self).n_elements == old(self).n_elements
                    &&& final(self).element_vecs@.len() == old(self).element_vecs@.len()
                    &&& final(kv).key@ == key@ ==> {
                        &&& final(self).well_shaped()
                        &&& final(self)@ == old(self)@.insert(key@, final(kv).val)
                    }
                },
                None => !old(self)@.contains_key(key@) && *final(self) == *old(self),
            },
    {
        let index: usize = self.hash(key);
        match position(&self.element_vecs[index], key) {
            Some(j) => {
                proof {
                    lemma_set_value_any(self.element_vecs@, index as int, j as int);
                }
                Some(&mut self.element_vecs[index][j])
            },
            None => None,
        }
    }

    /// Searches for a given key, and returns an optional reference to its entry.
    fn find(&self, key: &K) -> (found: Option<&KeyVal<K, V>>)
        requires
            self.well_shaped(),
        ensures
            match found {
                Some(kv) => self@.contains_key(key@) && kv.key@ == key@ && kv.val == self@[key@],
                None => !self@.contains_key(key@),
            },
    {
        let index: usize = self.hash(key);
        match position(&self.element_vecs[index], key) {
            Some(j) => Some(&self.element_vecs[index][j]),
            None => None,
        }
    }

    /// Returns the bucket index of the given key, as a function of the current capacity.
    fn hash(&self, key: &K) -> (index: usize)
        requires
            self.element_vecs@.len() > 0,
        ensures
            index == slot::<K>(key@, self.element_vecs@.len()),
            index < self.element_vecs@.len(),
    {
        let capacity: u64 = self.element_vecs.len() as u64;
        (key.hash_code() % capacity) as usize
    }

    /// Returns the current capacity: the number of buckets.
    pub fn capacity(&self) -> (capacity: usize)
        requires
            self.wf(),
        ensures
            capacity == self.spec_capacity(),
            valid_capacity(capacity as nat),
            !above_max_load(self@.len(), capacity as nat),
    {
        self.element_vecs.len()
    }

    /// Returns the number of entries in the bucket `index`: the number of
    /// keys in the table that belong to that bucket.
    pub fn bucket_len(&self, index: usize) -> (len: usize)
        requires
            self.wf(),
            index < self.spec_capacity(),
        ensures
            len == self.spec_bucket_len(index as int),
            len == self@.dom().filter(
                |id: K::V| slot::<K>(id, self.spec_capacity()) == index as int,
            ).len(),
    {
        proof {
            lemma_bucket_len(self.element_vecs@, index as int);
        }
        self.element_vecs[index].len()
    }

    /// Returns true if the hashmap contains a pair with the given key, and false otherwise.
    pub fn contains_key(&self, key: &K) -> (present: bool)
        requires
            self.wf(),
        ensures
            present == self@.contains_key(key@),
    {
        self.find(key).is_some()
    }

    /// Returns the number of items currently in the hashmap.
    pub fn size(&self) -> (size: usize)
        requires
            self.wf(),
        ensures
            size == self@.len(),
    {
        self.n_elements
    }

    /// Returns the value associated with the given key, if it exists.
    pub fn get(&self, key: &K) -> (value: Option<&V>)
        requires
            self.wf(),
        ensures
            value == (if self@.contains_key(key@) {
                Some(&self@[key@])
            } else {
                None
            }),
    {
        if let Some(kv) = self.find(key) {
            Some(kv.to_tuple().1)
        } else {
            None
        }
    }

    /// Returns a copy of the value associated with the given key, if it exists.
    pub fn at(&self, key: K) -> (value: Option<V>) where V: Copy
        requires
            self.wf(),
        ensures
            value == (if self@.contains_key(key@) {
                Some(self@[key@])
            } else {
                None
            }),
    {
        if let Some(kv) = self.find(&key) {
            Some(*kv.to_tuple().1)
        } else {
            None
        }
    }

    /// Inserts the key value pair to the hashmap.
    /// If a pair with this key already exists, overrides the old value.
    ///
    /// A new key adds one to the size, and doubles the capacity if the load
    /// is then above three quarters. The table must hold fewer than
    /// `usize::MAX / 4` entries, so that the capacity can be doubled.
    pub fn insert(&mut self, key: K, value: V)
        requires
            old(self).wf(),
            old(self)@.len() < usize::MAX / 4,
        ensures
            final(self).wf(),
            final(self)@ == old(self)@.insert(key@, value),
            final(self)@.len() == old(self)@.len() + (if old(self)@.contains_key(key@) {
                0int
            } else {
                1int
            }),
            final(self).state() == old(self).state().insert(key@, value),
            load_in_bounds(old(self)@.len(), old(self).spec_capacity()) ==> load_in_bounds(
                final(self)@.len(),
                final(self).spec_capacity(),
            ),
    {
        if let Some(kv) = self.find_mut(&key) {
            kv.val = value;
            return;
        }
        self.push_entry(key, value);
        self.maybe_increase_capacity();
    }

    /// Inserts the key value pair to the hashmap; another name for `insert`.
    pub fn put(&mut self, key: K, value: V)
        requires
            old(self).wf(),
            old(self)@.len() < usize::MAX / 4,
        ensures
            final(self).wf(),
            final(self)@ == old(self)@.insert(key@, value),
            final(self)@.len() == old(self)@.len() + (if old(self)@.contains_key(key@) {
                0int
            } else {
                1int
            }),
            final(self).state() == old(self).state().insert(key@, value),
            load_in_bounds(old(self)@.len(), old(self).spec_capacity()) ==> load_in_bounds(
                final(self)@.len(),
                final(self).spec_capacity(),
            ),
    {
        self.insert(key, value)
    }

    /// Inserts the key value pair, but doesn't override the old value
    /// if a pair already exists: then nothing changes.
    pub fn weak_insert(&mut self, key: K, value: V)
        requires
            old(self).wf(),
            old(self)@.len() < usize::MAX / 4,
        ensures
            final(self).wf(),
            final(self)@ == (if old(self)@.contains_key(key@) {
                old(self)@
            } else {
                old(self)@.insert(key@, value)
            }),
            final(self).state() == old(self).state().weak_insert(key@, value),
            final(self)@.len() == old(self)@.len() + (if old(self)@.contains_key(key@) {
                0int
            } else {
                1int
            }),
            load_in_bounds(old(self)@.len(), old(self).spec_capacity()) ==> load_in_bounds(
                final(self)@.len(),
                final(self).spec_capacity(),
            ),
    {
        if self.contains_key(&key) {
            return;
        }
        self.insert(key, value);
    }

    /// Removes the pair associated with `key`.
    /// Returns true if it was removed, and false if a pair with this key does
    /// not exist: then nothing changes.
    ///
    /// A removal takes one from the size, and halves the capacity, down to
    /// `MIN_CAPACITY`, if the load is then below one quarter.
    pub fn remove(&mut self, key: K) -> (removed: bool)
        requires
            old(self).wf(),
        ensures
            final(self).wf(),
            removed == old(self)@.contains_key(key@),
            final(self)@ == old(self)@.remove(key@),
            final(self).state() == old(self).state().remove(key@),
            final(self)@.len() == old(self)@.len() - (if removed {
                1int
            } else {
                0int
            }),
            load_in_bounds(old(self)@.len(), old(self).spec_capacity()) ==> load_in_bounds(
                final(self)@.len(),
                final(self).spec_capacity(),
            ),
    {
        let vec_ind: usize = self.hash(&key);
        if let Some(index) = position(&self.element_vecs[vec_ind], &key) {
            let ghost before = self.element_vecs@;
            self.element_vecs[vec_ind].remove(index);
            proof {
                lemma_remove_at(before, self.element_vecs@, vec_ind as int, index as int);
            }
            self.n_elements -= 1;
            self.maybe_decrease_capacity();
            return true;
        }
        false
    }

    /// Checks whether capacity needs to be decreased, according to the current load.
    /// If so, halves the capacity, down to the minimum, and re-hashes all pairs.
    fn maybe_decrease_capacity(&mut self) -> (shrunk: bool)
        requires
            old(self).wf(),
        ensures
            final(self).wf(),
            final(self)@ == old(self)@,
            shrunk == below_min_load(old(self).n_elements as nat, old(self).element_vecs@.len()),
            final(self).element_vecs@.len() == capacity_after_remove(
                old(self).element_vecs@.len(),
                old(self).n_elements as nat,
            ),
    {
        if !falls_short_of_min_load(self.n_elements, self.element_vecs.len()) {
            return false;
        }
        proof {
            lemma_halved_valid(self.element_vecs@.len());
        }
        let half: usize = self.element_vecs.len() / 2;
        self.rehash(
            if half > MIN_CAPACITY {
                half
            } else {
                MIN_CAPACITY
            },
        );
        true
    }

    /// Checks whether capacity needs to be increased, according to the current load.
    /// If so, doubles the capacity and re-hashes all pairs. The load may be
    /// above three quarters, by the one entry just added, but not so far
    /// above that doubling would not bring it back.
    fn maybe_increase_capacity(&mut self) -> (grown: bool)
        requires
            old(self).well_shaped(),
            2 * old(self).n_elements <= 3 * old(self).element_vecs@.len(),
            old(self).n_elements <= usize::MAX / 4,
        ensures
            final(self).wf(),
            final(self)@ == old(self)@,
            grown == above_max_load(old(self).n_elements as nat, old(self).element_vecs@.len()),
            final(self).element_vecs@.len() == capacity_after_insert(
                old(self).element_vecs@.len(),
                old(self).n_elements as nat,
            ),
    {
        if !exceeds_max_load(self.n_elements, self.element_vecs.len()) {
            return false;
        }
        proof {
            lemma_doubled_valid(self.element_vecs@.len());
        }
        self.rehash(self.element_vecs.len() * 2);
        true
    }

    /// Appends an entry for a key that the table does not hold yet.
    fn push_entry(&mut self, key: K, value: V)
        requires
            old(self).well_shaped(),
            !old(self)@.contains_key(key@),
            old(self).n_elements < usize::MAX,
        ensures
            final(self).well_shaped(),
            final(self)@ == old(self)@.insert(key@, value),
            final(self).n_elements == old(self).n_elements + 1,
            final(self).element_vecs@.len() == old(self).element_vecs@.len(),
    {
        let index: usize = self.hash(&key);
        let ghost before = self.element_vecs@;
        self.element_vecs[index].push(KeyVal { key, val: value });
        self.n_elements += 1;
        proof {
            lemma_push(before, self.element_vecs@, index as int);
        }
    }

    /// Re-hashes all pairs into a fresh array of `new_capacity` buckets: every
    /// entry is taken out of the old array and appended to the bucket that
    /// its key hashes to under the new capacity.
    fn rehash(&mut self, new_capacity: usize)
        requires
            old(self).well_shaped(),
            valid_capacity(new_capacity as nat),
            !above_max_load(old(self).n_elements as nat, new_capacity as nat),
        ensures
            final(self).wf(),
            final(self)@ == old(self)@,
            final(self).element_vecs@.len() == new_capacity,
    {
        if new_capacity == self.element_vecs.len() {
            return;
        }
        let mut old_element_vecs = Self::init_vecs(&new_capacity);
        std::mem::swap(&mut self.element_vecs, &mut old_element_vecs);
        self.n_elements = 0;
        proof {
            lemma_empty_buckets(self.element_vecs@);
        }
        let ghost old_capacity = old_element_vecs@.len();
        let mut i: usize = 0;
        while i < old_element_vecs.len()
            invariant
                i <= old_element_vecs@.len() == old_capacity,
                shaped(old_element_vecs@),
                forall|k: int| 0 <= k < i ==> (#[trigger] old_element_vecs@[k])@.len() == 0,
                self.well_shaped(),
                self.element_vecs@.len() == new_capacity,
                self.n_elements + total_len(old_element_vecs@, old_capacity)
                    == old(self).n_elements,
                moved(old(self)@, table_map(old_element_vecs@), self@),
            decreases old_element_vecs@.len() - i,
        {
            while old_element_vecs[i].len() > 0
                invariant
                    i < old_element_vecs@.len() == old_capacity,
                    shaped(old_element_vecs@),
                    forall|k: int| 0 <= k < i ==> (#[trigger] old_element_vecs@[k])@.len() == 0,
                    self.well_shaped(),
                    self.element_vecs@.len() == new_capacity,
                    self.n_elements + total_len(old_element_vecs@, old_capacity)
                    == old(self).n_elements,
                    moved(old(self)@, table_map(old_element_vecs@), self@),
                decreases old_element_vecs@[i as int]@.len(),
            {
                let ghost before = old_element_vecs@;
                let ghost last = before[i as int]@.len() - 1;
                let kv = old_element_vecs[i].pop().unwrap();
                proof {
                    lemma_entry_is_mapped(before, i as int, last);
                    lemma_remove_at(before, old_element_vecs@, i as int, last);
                }
                self.push_entry(kv.key, kv.val);
            }
            i += 1;
        }
    }
}

impl<K: HashKey, V> Default for HashMap<K, V> {
    /// The empty hashmap, with `INITIAL_CAP` buckets.
    fn default() -> (map: Self)
        ensures
            map.wf(),
            map@ == Map::<K::V, V>::empty(),
            map.spec_capacity() == INITIAL_CAP,
            map.state() == State::<K::V, V>::initial(),
    {
        let map = HashMap { n_elements: 0, element_vecs: Self::init_vecs(&INITIAL_CAP) };
        proof {
            lemma_initial_capacity_valid();
            lemma_empty_buckets(map.element_vecs@);
        }
        map
    }
}

} // verus!
