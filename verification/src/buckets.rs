//! The bucket array: what a sequence of buckets holds, and how the three
//! changes that the table makes to one bucket change what it holds.

use crate::key::{slot, HashKey};
use crate::policy::valid_capacity;
use vstd::prelude::*;

verus! {

/// A key together with the value stored under it.
pub(crate) struct KeyVal<K, V> {
    pub(crate) key: K,
    pub(crate) val: V,
}

pub(crate) type ElementsVecs<K, V> = Vec<Vec<KeyVal<K, V>>>;

impl<K, V> KeyVal<K, V> {
    /// Both halves of the entry, borrowed.
    pub(crate) fn to_tuple(&self) -> (pair: (&K, &V))
        ensures
            *pair.0 == self.key,
            *pair.1 == self.val,
    {
        (&self.key, &self.val)
    }
}

/// Some entry of `bucket` has the key `id`.
pub(crate) open spec fn holds<K: HashKey, V>(bucket: Seq<KeyVal<K, V>>, id: K::V) -> bool {
    exists|j: int| 0 <= j < bucket.len() && (#[trigger] bucket[j]).key@ == id
}

/// Position in `bucket` of an entry with the key `id`, if there is one.
pub(crate) open spec fn place<K: HashKey, V>(bucket: Seq<KeyVal<K, V>>, id: K::V) -> int {
    choose|j: int| 0 <= j < bucket.len() && (#[trigger] bucket[j]).key@ == id
}

/// No two entries of `bucket` have the same key.
pub(crate) open spec fn distinct_keys<K: HashKey, V>(bucket: Seq<KeyVal<K, V>>) -> bool {
    forall|j1: int, j2: int|
        0 <= j1 < j2 < bucket.len() ==> (#[trigger] bucket[j1]).key@ != (#[trigger] bucket[j2]).key@
}

/// Every entry of `bucket` belongs to slot `i` of a table with `capacity` buckets.
pub(crate) open spec fn all_in_slot<K: HashKey, V>(
    bucket: Seq<KeyVal<K, V>>,
    i: int,
    capacity: nat,
) -> bool {
    forall|j: int| 0 <= j < bucket.len() ==> slot::<K>((#[trigger] bucket[j]).key@, capacity) == i
}

/// The mapping that one bucket holds.
pub(crate) open spec fn bucket_map<K: HashKey, V>(bucket: Seq<KeyVal<K, V>>) -> Map<K::V, V> {
    Map::new(|id: K::V| holds(bucket, id), |id: K::V| bucket[place(bucket, id)].val)
}

/// The buckets form a table: a valid number of them, each entry in the bucket
/// that its key hashes to, and no key twice.
pub(crate) open spec fn shaped<K: HashKey, V>(vecs: Seq<Vec<KeyVal<K, V>>>) -> bool {
    &&& valid_capacity(vecs.len())
    &&& forall|i: int| 0 <= i < vecs.len() ==> all_in_slot((#[trigger] vecs[i])@, i, vecs.len())
    &&& forall|i: int| 0 <= i < vecs.len() ==> distinct_keys((#[trigger] vecs[i])@)
}

/// The bucket in which a key `id` is looked for.
pub(crate) open spec fn home<K: HashKey, V>(vecs: Seq<Vec<KeyVal<K, V>>>, id: K::V) -> Seq<
    KeyVal<K, V>,
> {
    vecs[slot::<K>(id, vecs.len())]@
}

/// The mapping that the buckets hold: each key is looked for in its own bucket.
pub(crate) open spec fn table_map<K: HashKey, V>(vecs: Seq<Vec<KeyVal<K, V>>>) -> Map<K::V, V> {
    Map::new(
        |id: K::V| bucket_map(home(vecs, id)).contains_key(id),
        |id: K::V| bucket_map(home(vecs, id))[id],
    )
}

/// Number of entries in the first `n` buckets together.
pub(crate) open spec fn total_len<K, V>(vecs: Seq<Vec<KeyVal<K, V>>>, n: nat) -> nat
    decreases n,
{
    if n == 0 {
        0
    } else {
        total_len(vecs, (n - 1) as nat) + vecs[n - 1]@.len()
    }
}

/// Two sequences of buckets differ at most in bucket `i`.
pub(crate) open spec fn same_but<K, V>(
    before: Seq<Vec<KeyVal<K, V>>>,
    after: Seq<Vec<KeyVal<K, V>>>,
    i: int,
) -> bool {
    &&& 0 <= i < before.len()
    &&& after.len() == before.len()
    &&& forall|k: int| 0 <= k < before.len() && k != i ==> #[trigger] after[k] == before[k]
}

/// The buckets `after` are the buckets `before` with the entry at position `j`
/// of bucket `i` replaced by one with the same key.
pub(crate) open spec fn value_set<K: HashKey, V>(
    before: Seq<Vec<KeyVal<K, V>>>,
    after: Seq<Vec<KeyVal<K, V>>>,
    i: int,
    j: int,
) -> bool {
    &&& same_but(before, after, i)
    &&& 0 <= j < before[i]@.len()
    &&& after[i]@.len() == before[i]@.len()
    &&& forall|k: int|
        0 <= k < before[i]@.len() && k != j ==> #[trigger] after[i]@[k] == before[i]@[k]
    &&& after[i]@[j].key@ == before[i]@[j].key@
}

/// The mapping `whole` is split between `rest` and `done`, which share no key.
pub(crate) open spec fn moved<I, V>(whole: Map<I, V>, rest: Map<I, V>, done: Map<I, V>) -> bool {
    &&& forall|id: I| #[trigger]
        whole.contains_key(id) <==> rest.contains_key(id) || done.contains_key(id)
    &&& forall|id: I| #[trigger]
        rest.contains_key(id) ==> !done.contains_key(id) && rest[id] == whole[id]
    &&& forall|id: I| #[trigger] done.contains_key(id) ==> done[id] == whole[id]
}

/// Index of the first entry of `bucket` whose key equals `key`.
pub(crate) fn position<K: HashKey, V>(bucket: &Vec<KeyVal<K, V>>, key: &K) -> (found: Option<
    usize,
>)
    ensures
        match found {
            Some(j) => j < bucket@.len() && bucket@[j as int].key@ == key@,
            None => !holds(bucket@, key@),
        },
{
    let mut j: usize = 0;
    while j < bucket.len()
        invariant
            j <= bucket@.len(),
            forall|k: int| 0 <= k < j ==> (#[trigger] bucket@[k]).key@ != key@,
        decreases bucket@.len() - j,
    {
        if bucket[j].key.same_key(key) {
            return Some(j);
        }
        j += 1;
    }
    None
}

/// Appending an entry with a new key inserts it into what the bucket holds.
pub(crate) proof fn lemma_bucket_push<K: HashKey, V>(
    bucket: Seq<KeyVal<K, V>>,
    longer: Seq<KeyVal<K, V>>,
)
    requires
        distinct_keys(bucket),
        longer.len() == bucket.len() + 1,
        longer.drop_last() =~= bucket,
        !holds(bucket, longer.last().key@),
    ensures
        distinct_keys(longer),
        forall|j: int| 0 <= j < bucket.len() ==> #[trigger] longer[j] == bucket[j],
        bucket_map(longer) == bucket_map(bucket).insert(longer.last().key@, longer.last().val),
{
    assert forall|j: int| 0 <= j < bucket.len() implies #[trigger] longer[j] == bucket[j] by {}
}

/// Replacing an entry by one with the same key stores the new value under the key.
pub(crate) proof fn lemma_bucket_update<K: HashKey, V>(
    bucket: Seq<KeyVal<K, V>>,
    changed: Seq<KeyVal<K, V>>,
    j: int,
)
    requires
        distinct_keys(bucket),
        0 <= j < bucket.len(),
        changed.len() == bucket.len(),
        forall|k: int| 0 <= k < bucket.len() && k != j ==> #[trigger] changed[k] == bucket[k],
        changed[j].key@ == bucket[j].key@,
    ensures
        distinct_keys(changed),
        forall|k: int| 0 <= k < bucket.len() ==> (#[trigger] changed[k]).key@ == bucket[k].key@,
        bucket_map(changed) == bucket_map(bucket).insert(bucket[j].key@, changed[j].val),
{
    let target = bucket_map(bucket).insert(bucket[j].key@, changed[j].val);
    assert forall|x: K::V| bucket_map(changed).contains_key(x) == target.contains_key(x) by {
        if holds(bucket, x) {
            assert(changed[place(bucket, x)].key@ == x);
        }
    }
}

/// Taking the entry at position `j` out removes its key from what the bucket holds.
pub(crate) proof fn lemma_bucket_remove<K: HashKey, V>(
    bucket: Seq<KeyVal<K, V>>,
    shorter: Seq<KeyVal<K, V>>,
    j: int,
)
    requires
        distinct_keys(bucket),
        0 <= j < bucket.len(),
        shorter =~= bucket.remove(j),
    ensures
        distinct_keys(shorter),
        forall|k: int|
            0 <= k < shorter.len() ==> #[trigger] shorter[k] == bucket[if k < j {
                k
            } else {
                k + 1
            }],
        bucket_map(shorter) == bucket_map(bucket).remove(bucket[j].key@),
{
    let target = bucket_map(bucket).remove(bucket[j].key@);
    assert forall|x: K::V| bucket_map(shorter).contains_key(x) == target.contains_key(x) by {
        if holds(bucket, x) && x != bucket[j].key@ {
            let p = place(bucket, x);
            assert(shorter[if p < j { p } else { p - 1 }].key@ == x);
        }
    }
}

/// The keys that a table holds in slot `i` are as many as bucket `i` has entries.
pub(crate) proof fn lemma_bucket_len<K: HashKey, V>(vecs: Seq<Vec<KeyVal<K, V>>>, i: int)
    requires
        shaped(vecs),
        0 <= i < vecs.len(),
    ensures
        table_map(vecs).dom().filter(|id: K::V| slot::<K>(id, vecs.len()) == i).finite(),
        table_map(vecs).dom().filter(|id: K::V| slot::<K>(id, vecs.len()) == i).len()
            == vecs[i]@.len(),
{
    let bucket = vecs[i]@;
    let keys = Seq::new(bucket.len(), |j: int| bucket[j].key@);
    let in_slot = table_map(vecs).dom().filter(|id: K::V| slot::<K>(id, vecs.len()) == i);
    keys.unique_seq_to_set();
    assert forall|x: K::V| in_slot.contains(x) == keys.to_set().contains(x) by {
        if in_slot.contains(x) {
            assert(keys[place(bucket, x)] == x);
        }
    }
    assert(in_slot =~= keys.to_set());
}

/// A change of bucket `i` changes the total by the change of that bucket's length.
pub(crate) proof fn lemma_total_change<K, V>(
    before: Seq<Vec<KeyVal<K, V>>>,
    after: Seq<Vec<KeyVal<K, V>>>,
    i: int,
    n: nat,
)
    requires
        same_but(before, after, i),
        n <= before.len(),
    ensures
        i < n ==> total_len(after, n) - after[i]@.len() == total_len(before, n) - before[i]@.len(),
        i >= n ==> total_len(after, n) == total_len(before, n),
    decreases n,
{
    if n > 0 {
        lemma_total_change(before, after, i, (n - 1) as nat);
    }
}

/// Buckets that are all empty hold no entry.
pub(crate) proof fn lemma_empty_total<K, V>(vecs: Seq<Vec<KeyVal<K, V>>>, n: nat)
    requires
        n <= vecs.len(),
        forall|i: int| 0 <= i < vecs.len() ==> (#[trigger] vecs[i])@.len() == 0,
    ensures
        total_len(vecs, n) == 0,
    decreases n,
{
    if n > 0 {
        lemma_empty_total(vecs, (n - 1) as nat);
    }
}

/// Buckets that are all empty form a table that holds the empty mapping.
pub(crate) proof fn lemma_empty_buckets<K: HashKey, V>(vecs: Seq<Vec<KeyVal<K, V>>>)
    requires
        valid_capacity(vecs.len()),
        forall|i: int| 0 <= i < vecs.len() ==> (#[trigger] vecs[i])@.len() == 0,
    ensures
        table_map(vecs) == Map::<K::V, V>::empty(),
        total_len(vecs, vecs.len()) == 0,
        shaped(vecs),
{
    lemma_empty_total(vecs, vecs.len());
}

/// In a table, the entry at position `j` of bucket `i` is what the mapping
/// holds under that entry's key.
pub(crate) proof fn lemma_entry_is_mapped<K: HashKey, V>(
    vecs: Seq<Vec<KeyVal<K, V>>>,
    i: int,
    j: int,
)
    requires
        shaped(vecs),
        0 <= i < vecs.len(),
        0 <= j < vecs[i]@.len(),
    ensures
        slot::<K>(vecs[i]@[j].key@, vecs.len()) == i,
        table_map(vecs).contains_key(vecs[i]@[j].key@),
        table_map(vecs)[vecs[i]@[j].key@] == vecs[i]@[j].val,
{
}

/// Appending an entry with a new key to the bucket that the key belongs to
/// inserts the entry into the mapping.
pub(crate) proof fn lemma_push<K: HashKey, V>(
    before: Seq<Vec<KeyVal<K, V>>>,
    after: Seq<Vec<KeyVal<K, V>>>,
    i: int,
)
    requires
        shaped(before),
        same_but(before, after, i),
        after[i]@.len() == before[i]@.len() + 1,
        after[i]@.drop_last() =~= before[i]@,
        slot::<K>(after[i]@.last().key@, before.len()) == i,
        !table_map(before).contains_key(after[i]@.last().key@),
    ensures
        shaped(after),
        table_map(after) == table_map(before).insert(after[i]@.last().key@, after[i]@.last().val),
        total_len(after, after.len()) == total_len(before, before.len()) + 1,
{
    lemma_total_change(before, after, i, before.len());
    lemma_bucket_push(before[i]@, after[i]@);
}

/// Replacing the entry at position `j` of bucket `i` by one with the same key
/// stores that entry's value under the key.
pub(crate) proof fn lemma_set_value<K: HashKey, V>(
    before: Seq<Vec<KeyVal<K, V>>>,
    after: Seq<Vec<KeyVal<K, V>>>,
    i: int,
    j: int,
)
    requires
        shaped(before),
        value_set(before, after, i, j),
    ensures
        shaped(after),
        table_map(after) == table_map(before).insert(before[i]@[j].key@, after[i]@[j].val),
        total_len(after, after.len()) == total_len(before, before.len()),
{
    lemma_total_change(before, after, i, before.len());
    lemma_bucket_update(before[i]@, after[i]@, j);
}

/// `lemma_set_value`, for whatever entry takes the place.
pub(crate) proof fn lemma_set_value_any<K: HashKey, V>(
    before: Seq<Vec<KeyVal<K, V>>>,
    i: int,
    j: int,
)
    requires
        shaped(before),
    ensures
        forall|after: Seq<Vec<KeyVal<K, V>>>|
            #![trigger shaped(after)]
            #![trigger table_map(after)]
            value_set(before, after, i, j) ==> {
                &&& shaped(after)
                &&& table_map(after) == table_map(before).insert(
                    before[i]@[j].key@,
                    after[i]@[j].val,
                )
                &&& total_len(after, after.len()) == total_len(before, before.len())
            },
{
    assert forall|after: Seq<Vec<KeyVal<K, V>>>|
        #![trigger shaped(after)]
        #![trigger table_map(after)]
        value_set(before, after, i, j) implies {
        &&& shaped(after)
        &&& table_map(after) == table_map(before).insert(before[i]@[j].key@, after[i]@[j].val)
        &&& total_len(after, after.len()) == total_len(before, before.len())
    } by {
        lemma_set_value(before, after, i, j);
    }
}

/// Taking the entry at position `j` out of bucket `i` removes its key from the mapping.
pub(crate) proof fn lemma_remove_at<K: HashKey, V>(
    before: Seq<Vec<KeyVal<K, V>>>,
    after: Seq<Vec<KeyVal<K, V>>>,
    i: int,
    j: int,
)
    requires
        shaped(before),
        same_but(before, after, i),
        0 <= j < before[i]@.len(),
        after[i]@ =~= before[i]@.remove(j),
    ensures
        shaped(after),
        table_map(after) == table_map(before).remove(before[i]@[j].key@),
        total_len(after, after.len()) == total_len(before, before.len()) - 1,
{
    lemma_total_change(before, after, i, before.len());
    lemma_bucket_remove(before[i]@, after[i]@, j);
}

} // verus!
