//! The byte-oriented key/value store that the engine reads and writes.
//!
//! The store itself is `cosmwasm_std::MemoryStorage`. Nothing in this
//! module is proved: each item states what the outside crate does, and
//! the rest of the library is proved from these statements.

use cosmwasm_std::MemoryStorage;
use cosmwasm_std::Storage;
use vstd::prelude::*;

verus! {

/// `cosmwasm_std::MemoryStorage`, an ordered map from byte keys to byte
/// values. Its field is private to the outside crate.
#[verifier::external_type_specification]
#[verifier::external_body]
pub struct ExMemoryStorage(MemoryStorage);

/// The entries that a store holds: each key with the value last set for it.
pub uninterp spec fn store_entries(s: MemoryStorage) -> Map<Seq<u8>, Seq<u8>>;

/// `Storage::get` on `MemoryStorage`: a copy of the value under `key`,
/// or `None` where the store holds no such key.
#[verifier::external_body]
pub(crate) fn store_get(s: &MemoryStorage, key: &[u8]) -> (r: Option<Vec<u8>>)
    ensures
        match r {
            Some(v) => store_entries(*s).contains_key(key@) && v@ == store_entries(*s)[key@],
            None => !store_entries(*s).contains_key(key@),
        },
{
    s.get(key)
}

/// `Storage::set` on `MemoryStorage`: puts `value` under `key`, replacing
/// what was there. The outside function panics on an empty value, which
/// the precondition leaves out.
#[verifier::external_body]
pub(crate) fn store_set(s: &mut MemoryStorage, key: &[u8], value: &[u8])
    requires
        value@.len() > 0,
    ensures
        store_entries(*final(s)) == store_entries(*old(s)).insert(key@, value@),
{
    s.set(key, value)
}

/// `Storage::remove` on `MemoryStorage`: takes `key` and its value out;
/// a key that is not there leaves the store as it was.
#[verifier::external_body]
pub(crate) fn store_remove(s: &mut MemoryStorage, key: &[u8])
    ensures
        store_entries(*final(s)) == store_entries(*old(s)).remove(key@),
{
    s.remove(key)
}

} // verus!
