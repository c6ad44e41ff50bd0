//! What the table asks of a key: a hash and an equality test, both decided
//! by the key's model alone.

use std::collections::hash_map::DefaultHasher;
use std::hash::Hasher;
use vstd::bytes::{
    spec_u32_to_le_bytes, spec_u64_to_le_bytes, u32_to_le_bytes, u64_to_le_bytes,
};
use vstd::prelude::*;
use vstd::std_specs::hash::DefaultHasherAdditionalSpecFns;
use vstd::utf8::encode_utf8;

verus! {

/// A key of the table. Its view is the model by which the table knows it:
/// two keys with the same model are the same key, and hash alike.
pub trait HashKey: View {
    /// The hash of every key with the model `id`.
    spec fn digest(id: Self::V) -> u64;

    /// Returns the key's hash: a function of its model.
    fn hash_code(&self) -> (h: u64)
        ensures
            h == Self::digest(self@),
    ;

    /// Returns true if the two keys are the same key: if their models are equal.
    fn same_key(&self, other: &Self) -> (same: bool)
        ensures
            same == (self@ == other@),
    ;
}

/// The bucket, of `capacity` many, that a key with the model `id` belongs to.
pub open spec fn slot<K: HashKey>(id: K::V, capacity: nat) -> int {
    K::digest(id) as int % capacity as int
}

/// The hash that the standard hasher gives to one write of `bytes`.
pub open spec fn digest_of_bytes(bytes: Seq<u8>) -> u64 {
    DefaultHasher::spec_finish(seq![bytes])
}

/// Hashes `bytes` with the standard hasher, in one write.
pub fn hash_bytes(bytes: &[u8]) -> (h: u64)
    ensures
        h == digest_of_bytes(bytes@),
{
    let mut hasher = DefaultHasher::new();
    hasher.write(bytes);
    hasher.finish()
}

/// A string is hashed by its bytes in UTF-8.
impl HashKey for String {
    open spec fn digest(id: Seq<char>) -> u64 {
        digest_of_bytes(encode_utf8(id))
    }

    fn hash_code(&self) -> (h: u64) {
        hash_bytes(self.as_str().as_bytes())
    }

    fn same_key(&self, other: &Self) -> (same: bool) {
        *self == *other
    }
}

/// An `i32` is hashed by its four bytes, lowest first.
impl HashKey for i32 {
    open spec fn digest(id: i32) -> u64 {
        digest_of_bytes(spec_u32_to_le_bytes(id as u32))
    }

    fn hash_code(&self) -> (h: u64) {
        let bytes = u32_to_le_bytes(*self as u32);
        hash_bytes(bytes.as_slice())
    }

    fn same_key(&self, other: &Self) -> (same: bool) {
        *self == *other
    }
}

/// A `u32` is hashed by its four bytes, lowest first.
impl HashKey for u32 {
    open spec fn digest(id: u32) -> u64 {
        digest_of_bytes(spec_u32_to_le_bytes(id))
    }

    fn hash_code(&self) -> (h: u64) {
        let bytes = u32_to_le_bytes(*self);
        hash_bytes(bytes.as_slice())
    }

    fn same_key(&self, other: &Self) -> (same: bool) {
        *self == *other
    }
}

/// An `i64` is hashed by its eight bytes, lowest first.
impl HashKey for i64 {
    open spec fn digest(id: i64) -> u64 {
        digest_of_bytes(spec_u64_to_le_bytes(id as u64))
    }

    fn hash_code(&self) -> (h: u64) {
        let bytes = u64_to_le_bytes(*self as u64);
        hash_bytes(bytes.as_slice())
    }

    fn same_key(&self, other: &Self) -> (same: bool) {
        *self == *other
    }
}

/// A `u64` is hashed by its eight bytes, lowest first.
impl HashKey for u64 {
    open spec fn digest(id: u64) -> u64 {
        digest_of_bytes(spec_u64_to_le_bytes(id))
    }

    fn hash_code(&self) -> (h: u64) {
        let bytes = u64_to_le_bytes(*self);
        hash_bytes(bytes.as_slice())
    }

    fn same_key(&self, other: &Self) -> (same: bool) {
        *self == *other
    }
}

/// A `usize` is hashed as the `u64` of the same value.
impl HashKey for usize {
    open spec fn digest(id: usize) -> u64 {
        digest_of_bytes(spec_u64_to_le_bytes(id as u64))
    }

    fn hash_code(&self) -> (h: u64) {
        let bytes = u64_to_le_bytes(*self as u64);
        hash_bytes(bytes.as_slice())
    }

    fn same_key(&self, other: &Self) -> (same: bool) {
        *self == *other
    }
}

} // verus!
