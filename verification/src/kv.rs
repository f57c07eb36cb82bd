//! Text keys over the byte store: a key is the UTF-8 encoding of its text.

use crate::store::store_entries;
use crate::store::store_get;
use crate::store::store_remove;
use crate::store::store_set;
use cosmwasm_std::MemoryStorage;
use vstd::prelude::*;
use vstd::utf8::*;

verus! {

/// The bytes under which the store keeps the key `text`.
pub open spec fn key_bytes(text: Seq<char>) -> Seq<u8> {
    encode_utf8(text)
}

/// Different key texts stand for different byte keys.
pub proof fn lemma_key_bytes_injective(a: Seq<char>, b: Seq<char>)
    requires
        key_bytes(a) == key_bytes(b),
    ensures
        a == b,
{
    crate::encoding::lemma_utf8_injective(a, b);
}

/// Text that is not empty has an encoding that is not empty.
pub proof fn lemma_encoding_nonempty(text: Seq<char>)
    requires
        text.len() > 0,
    ensures
        encode_utf8(text).len() > 0,
{
}

/// The value under the key `key`, if the store holds one.
pub(crate) fn read_key(s: &MemoryStorage, key: &str) -> (r: Option<Vec<u8>>)
    ensures
        match r {
            Some(v) => store_entries(*s).contains_key(key_bytes(key@)) && v@ == store_entries(
                *s,
            )[key_bytes(key@)],
            None => !store_entries(*s).contains_key(key_bytes(key@)),
        },
{
    store_get(s, key.as_bytes())
}

/// Puts `value` under the key `key`.
pub(crate) fn write_key(s: &mut MemoryStorage, key: &str, value: &[u8])
    requires
        value@.len() > 0,
    ensures
        store_entries(*final(s)) == store_entries(*old(s)).insert(key_bytes(key@), value@),
{
    store_set(s, key.as_bytes(), value)
}

/// Takes the key `key` out of the store.
pub(crate) fn delete_key(s: &mut MemoryStorage, key: &str)
    ensures
        store_entries(*final(s)) == store_entries(*old(s)).remove(key_bytes(key@)),
{
    store_remove(s, key.as_bytes())
}

} // verus!
