//! A hash map with separate chaining over a resizable array of buckets.
//!
//! [`HashMap`] maps keys to values. A key is any type with a [`HashKey`]: a
//! hash and an equality test that go by the key's model. The table keeps a
//! power-of-two number of buckets, at least [`MIN_CAPACITY`]; it doubles them
//! when an insertion brings the load above three quarters and halves them
//! when a removal brings it below one quarter.
//!
//! Every function of the table is specified over the table's view, a `Map`
//! from key models to values, and over its capacity. [`model`] states what
//! follows for sequences of calls; [`policy`] holds the resize rule.

use vstd::prelude::*;

mod buckets;
pub mod key;
pub mod model;
pub mod policy;
pub mod table;

pub use key::HashKey;
pub use policy::{INITIAL_CAP, MAX_LOAD_QUARTERS, MIN_CAPACITY, MIN_LOAD_QUARTERS};
pub use table::HashMap;

verus! {

/// Returns the sum of two sizes that fit together in a `usize`.
pub fn add(left: usize, right: usize) -> (sum: usize)
    requires
        left + right <= usize::MAX,
    ensures
        sum == left + right,
{
    left + right
}

} // verus!
