//! The resize policy: which capacities a table may have, and when it grows
//! and shrinks. The load of a table is its size divided by its capacity; the
//! policy compares it with the two thresholds in whole numbers.

use vstd::arithmetic::power2::is_pow2;
use vstd::prelude::*;

verus! {

/// Number of buckets in a freshly created table.
pub const INITIAL_CAP: usize = 16;

/// Smallest number of buckets a table ever has.
pub const MIN_CAPACITY: usize = 4;

/// The load above which a table grows, in quarters: three quarters.
pub const MAX_LOAD_QUARTERS: usize = 3;

/// The load below which a table shrinks, in quarters: one quarter.
pub const MIN_LOAD_QUARTERS: usize = 1;

/// The load `size / capacity` is above the upper threshold.
pub open spec fn above_max_load(size: nat, capacity: nat) -> bool {
    4 * size > MAX_LOAD_QUARTERS * capacity
}

/// The load `size / capacity` is below the lower threshold.
pub open spec fn below_min_load(size: nat, capacity: nat) -> bool {
    4 * size < MIN_LOAD_QUARTERS * capacity
}

/// The load is at most the upper threshold and, unless the capacity is
/// `MIN_CAPACITY`, at least the lower one.
pub open spec fn load_in_bounds(size: nat, capacity: nat) -> bool {
    &&& !above_max_load(size, capacity)
    &&& capacity == MIN_CAPACITY as nat || !below_min_load(size, capacity)
}

/// A capacity the table may have: a power of two, at least `MIN_CAPACITY`.
pub open spec fn valid_capacity(capacity: nat) -> bool {
    capacity >= MIN_CAPACITY as nat && is_pow2(capacity as int)
}

/// Half of `capacity`, but never less than `MIN_CAPACITY`.
pub open spec fn halved(capacity: nat) -> nat {
    if capacity / 2 > MIN_CAPACITY as nat {
        capacity / 2
    } else {
        MIN_CAPACITY as nat
    }
}

/// Capacity of a table that had `capacity` buckets and holds `size` entries
/// once a new entry has been added: doubled if the load is above the upper
/// threshold.
pub open spec fn capacity_after_insert(capacity: nat, size: nat) -> nat {
    if above_max_load(size, capacity) {
        2 * capacity
    } else {
        capacity
    }
}

/// Capacity of a table that had `capacity` buckets and holds `size` entries
/// once an entry has been removed: halved, down to `MIN_CAPACITY`, if the
/// load is below the lower threshold.
pub open spec fn capacity_after_remove(capacity: nat, size: nat) -> nat {
    if below_min_load(size, capacity) {
        halved(capacity)
    } else {
        capacity
    }
}

/// Returns true if `size` entries in `capacity` buckets are a load above the
/// upper threshold.
pub fn exceeds_max_load(size: usize, capacity: usize) -> (above: bool)
    ensures
        above == above_max_load(size as nat, capacity as nat),
{
    4 * (size as u128) > (MAX_LOAD_QUARTERS as u128) * (capacity as u128)
}

/// Returns true if `size` entries in `capacity` buckets are a load below the
/// lower threshold.
pub fn falls_short_of_min_load(size: usize, capacity: usize) -> (below: bool)
    ensures
        below == below_min_load(size as nat, capacity as nat),
{
    4 * (size as u128) < (MIN_LOAD_QUARTERS as u128) * (capacity as u128)
}

/// The initial and the minimum capacity are valid.
pub proof fn lemma_initial_capacity_valid()
    ensures
        valid_capacity(INITIAL_CAP as nat),
        valid_capacity(MIN_CAPACITY as nat),
{
    reveal_with_fuel(is_pow2, 6);
}

/// Doubling a valid capacity gives a valid capacity.
pub proof fn lemma_doubled_valid(capacity: nat)
    requires
        valid_capacity(capacity),
    ensures
        valid_capacity(2 * capacity),
{
    reveal_with_fuel(is_pow2, 2);
}

/// Halving a valid capacity, with the floor, gives a valid capacity.
pub proof fn lemma_halved_valid(capacity: nat)
    requires
        valid_capacity(capacity),
    ensures
        valid_capacity(halved(capacity)),
        halved(capacity) <= capacity,
{
    reveal_with_fuel(is_pow2, 6);
}

/// Adding an entry to a table whose load is at most the upper threshold, and
/// resizing as `capacity_after_insert` says, leaves a valid capacity and a
/// load of at most the upper threshold; if the load was within both bounds,
/// so it is afterwards.
pub proof fn lemma_insert_keeps_load(capacity: nat, size: nat)
    requires
        valid_capacity(capacity),
        !above_max_load(size, capacity),
    ensures
        valid_capacity(capacity_after_insert(capacity, size + 1)),
        !above_max_load(size + 1, capacity_after_insert(capacity, size + 1)),
        load_in_bounds(size, capacity) ==> load_in_bounds(
            size + 1,
            capacity_after_insert(capacity, size + 1),
        ),
{
    lemma_doubled_valid(capacity);
}

/// Removing an entry from a table whose load is at most the upper threshold,
/// and resizing as `capacity_after_remove` says, leaves a valid capacity and
/// a load of at most the upper threshold; if the load was within both
/// bounds, so it is afterwards.
pub proof fn lemma_remove_keeps_load(capacity: nat, size: nat)
    requires
        valid_capacity(capacity),
        size >= 1,
        !above_max_load(size, capacity),
    ensures
        valid_capacity(capacity_after_remove(capacity, (size - 1) as nat)),
        !above_max_load((size - 1) as nat, capacity_after_remove(capacity, (size - 1) as nat)),
        load_in_bounds(size, capacity) ==> load_in_bounds(
            (size - 1) as nat,
            capacity_after_remove(capacity, (size - 1) as nat),
        ),
{
    lemma_halved_valid(capacity);
}

} // verus!
