//! The table seen from outside: a mapping and a capacity, changed by
//! inserts and removals. What the table's functions promise of one call is
//! one `step` here; what holds of every sequence of calls is proved of `run`.

use crate::policy::{
    above_max_load, capacity_after_insert, capacity_after_remove, lemma_initial_capacity_valid,
    lemma_insert_keeps_load, lemma_remove_keeps_load, load_in_bounds, valid_capacity, INITIAL_CAP,
};
use vstd::prelude::*;

verus! {

/// What a table holds and how many buckets it has.
#[verifier::reject_recursive_types(I)]
pub struct State<I, V> {
    pub map: Map<I, V>,
    pub capacity: nat,
}

/// A call that changes a table.
pub enum Op<I, V> {
    /// `insert(key, value)`, or `put(key, value)`.
    Insert(I, V),
    /// `weak_insert(key, value)`.
    WeakInsert(I, V),
    /// `remove(key)`.
    Remove(I),
}

impl<I, V> Op<I, V> {
    /// The call inserts or removes the key `id`.
    pub open spec fn rebinds(self, id: I) -> bool {
        match self {
            Op::Insert(key, _) => key == id,
            Op::WeakInsert(_, _) => false,
            Op::Remove(key) => key == id,
        }
    }
}

impl<I, V> State<I, V> {
    /// The state of a new table.
    pub open spec fn initial() -> Self {
        State { map: Map::empty(), capacity: INITIAL_CAP as nat }
    }

    /// A state that a table can be in: finitely many entries, a valid
    /// capacity, and a load of at most three quarters.
    pub open spec fn valid(self) -> bool {
        &&& self.map.dom().finite()
        &&& valid_capacity(self.capacity)
        &&& !above_max_load(self.map.len(), self.capacity)
    }

    /// The state after `insert(key, value)`.
    pub open spec fn insert(self, key: I, value: V) -> Self {
        State {
            map: self.map.insert(key, value),
            capacity: if self.map.contains_key(key) {
                self.capacity
            } else {
                capacity_after_insert(self.capacity, self.map.len() + 1)
            },
        }
    }

    /// The state after `weak_insert(key, value)`.
    pub open spec fn weak_insert(self, key: I, value: V) -> Self {
        if self.map.contains_key(key) {
            self
        } else {
            self.insert(key, value)
        }
    }

    /// The state after `remove(key)`.
    pub open spec fn remove(self, key: I) -> Self {
        if self.map.contains_key(key) {
            State {
                map: self.map.remove(key),
                capacity: capacity_after_remove(self.capacity, (self.map.len() - 1) as nat),
            }
        } else {
            self
        }
    }

    /// The state after the call `op`.
    pub open spec fn step(self, op: Op<I, V>) -> Self {
        match op {
            Op::Insert(key, value) => self.insert(key, value),
            Op::WeakInsert(key, value) => self.weak_insert(key, value),
            Op::Remove(key) => self.remove(key),
        }
    }

    /// The state after the calls `ops`, first to last.
    pub open spec fn run(self, ops: Seq<Op<I, V>>) -> Self
        decreases ops.len(),
    {
        if ops.len() == 0 {
            self
        } else {
            self.run(ops.drop_last()).step(ops.last())
        }
    }
}

/// The calls `insert(key, value)` for each pair of `entries`, in order.
pub open spec fn inserts<I, V>(entries: Seq<(I, V)>) -> Seq<Op<I, V>> {
    Seq::new(entries.len(), |i: int| Op::Insert(entries[i].0, entries[i].1))
}

/// The keys of `entries`, in order.
pub open spec fn keys_of<I, V>(entries: Seq<(I, V)>) -> Seq<I> {
    Seq::new(entries.len(), |i: int| entries[i].0)
}

/// A new table is in a valid state.
pub proof fn lemma_initial_valid<I, V>()
    ensures
        State::<I, V>::initial().valid(),
{
    lemma_initial_capacity_valid();
}

/// Every call takes a valid state to a valid state: the capacity stays a
/// power of two, at least `MIN_CAPACITY`, and the load stays at most three
/// quarters. If the load was also at least one quarter, or the capacity
/// minimal, then so it is afterwards.
pub proof fn lemma_step_keeps_valid<I, V>(state: State<I, V>, op: Op<I, V>)
    requires
        state.valid(),
    ensures
        state.step(op).valid(),
        load_in_bounds(state.map.len(), state.capacity) ==> load_in_bounds(
            state.step(op).map.len(),
            state.step(op).capacity,
        ),
{
    match op {
        Op::Insert(key, _) => {
            if !state.map.contains_key(key) {
                lemma_insert_keeps_load(state.capacity, state.map.len());
            }
        },
        Op::WeakInsert(key, _) => {
            if !state.map.contains_key(key) {
                lemma_insert_keeps_load(state.capacity, state.map.len());
            }
        },
        Op::Remove(key) => {
            if state.map.contains_key(key) {
                lemma_remove_keeps_load(state.capacity, state.map.len());
            }
        },
    }
}

/// Every sequence of calls takes a valid state to a valid state, and a
/// load within the bounds to a load within the bounds.
pub proof fn lemma_run_keeps_valid<I, V>(state: State<I, V>, ops: Seq<Op<I, V>>)
    requires
        state.valid(),
    ensures
        state.run(ops).valid(),
        load_in_bounds(state.map.len(), state.capacity) ==> load_in_bounds(
            state.run(ops).map.len(),
            state.run(ops).capacity,
        ),
    decreases ops.len(),
{
    if ops.len() > 0 {
        lemma_run_keeps_valid(state, ops.drop_last());
        lemma_step_keeps_valid(state.run(ops.drop_last()), ops.last());
    }
}

/// After any sequence of inserts into a table, the table holds the keys it
/// held before and the keys inserted.
pub proof fn lemma_inserts_add_keys<I, V>(state: State<I, V>, entries: Seq<(I, V)>)
    ensures
        state.run(inserts(entries)).map.dom()
            == state.map.dom().union(keys_of(entries).to_set()),
    decreases entries.len(),
{
    if entries.len() > 0 {
        let front = entries.drop_last();
        lemma_inserts_add_keys(state, front);
        assert(inserts(entries).drop_last() =~= inserts(front));
        assert(keys_of(entries) =~= keys_of(front).push(entries.last().0));
        keys_of(front).lemma_push_to_set_commute(entries.last().0);
    }
}

/// After any sequence of inserts into a new table, the size is the number of
/// distinct keys inserted.
pub proof fn lemma_size_counts_distinct_keys<I, V>(entries: Seq<(I, V)>)
    ensures
        State::<I, V>::initial().run(inserts(entries)).map.dom() == keys_of(entries).to_set(),
        State::<I, V>::initial().run(inserts(entries)).map.len()
            == keys_of(entries).to_set().len(),
{
    lemma_inserts_add_keys(State::<I, V>::initial(), entries);
    assert(Set::<I>::empty().union(keys_of(entries).to_set()) =~= keys_of(entries).to_set());
}

/// After `insert(id, value)`, the table holds `value` under `id` through
/// every sequence of calls that neither inserts nor removes `id`.
pub proof fn lemma_binding_lasts<I, V>(state: State<I, V>, id: I, value: V, ops: Seq<Op<I, V>>)
    requires
        forall|i: int| 0 <= i < ops.len() ==> !(#[trigger] ops[i]).rebinds(id),
    ensures
        state.insert(id, value).run(ops).map.contains_key(id),
        state.insert(id, value).run(ops).map[id] == value,
    decreases ops.len(),
{
    if ops.len() > 0 {
        lemma_binding_lasts(state, id, value, ops.drop_last());
    }
}

/// Removing a key that the table does not hold changes nothing.
pub proof fn lemma_remove_absent<I, V>(state: State<I, V>, id: I)
    requires
        !state.map.contains_key(id),
    ensures
        state.remove(id) == state,
{
}

/// After `remove(id)` the table does not hold `id`, so that a second
/// `remove(id)` finds nothing and changes nothing.
pub proof fn lemma_remove_twice<I, V>(state: State<I, V>, id: I)
    ensures
        !state.remove(id).map.contains_key(id),
        state.remove(id).remove(id) == state.remove(id),
{
}

/// `weak_insert` of a key that the table holds changes nothing: the value
/// stored under the key stays.
pub proof fn lemma_weak_insert_present<I, V>(state: State<I, V>, id: I, value: V)
    requires
        state.map.contains_key(id),
    ensures
        state.weak_insert(id, value) == state,
        state.weak_insert(id, value).map[id] == state.map[id],
{
}

} // verus!
