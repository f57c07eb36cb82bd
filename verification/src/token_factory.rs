//! The token factory: who created a denomination, and who may mint and
//! burn it.
//!
//! A denomination is recorded once, under its full name, with the address
//! of its creator. Minting and burning are for the creator alone; the
//! bank that moves the coins is outside this library, which hands back
//! what the bank is to do.

use crate::error::SeiError;
use crate::keys::denom_key;
use crate::keys::make_denom_key;
use crate::kv::key_bytes;
use crate::kv::lemma_encoding_nonempty;
use crate::kv::lemma_key_bytes_injective;
use crate::kv::read_key;
use crate::kv::write_key;
use crate::order_book::AppResponse;
use crate::order_book::Entries;
use crate::sei_types::Coin;
use crate::store::store_entries;
use cosmwasm_std::MemoryStorage;
use vstd::prelude::*;
use vstd::utf8::*;

verus! {

/// What the bank is to do after a message has been accepted.
#[derive(Debug, PartialEq, Eq)]
pub enum BankAction {
    /// Mint `amount` to `to_address`.
    Mint { to_address: String, amount: Vec<Coin> },
    /// Burn `amount` from the balance of `sender`.
    Burn { sender: String, amount: Vec<Coin> },
}

/// What `CreateDenom` does to the entries of the store, or why it fails.
pub open spec fn create_denom_spec(m: Entries, creator: Seq<char>, subdenom: Seq<char>) -> Result<
    Entries,
    SeiError,
> {
    let k = key_bytes(denom_key(creator, subdenom));
    if m.contains_key(k) {
        Err(SeiError::DenomAlreadyExists)
    } else if creator.len() == 0 {
        Err(SeiError::EmptyCreator)
    } else {
        Ok(m.insert(k, encode_utf8(creator)))
    }
}

/// Whether the store records `sender` as the creator of `denom`.
pub open spec fn owns_denom(m: Entries, sender: Seq<char>, denom: Seq<char>) -> bool {
    m.contains_key(key_bytes(denom)) && m[key_bytes(denom)] == encode_utf8(sender)
}

/// Creates the denomination `factory/{sender}/{subdenom}` and hands its
/// name back.
pub fn execute_create_denom_helper(storage: &mut MemoryStorage, sender: String, subdenom: String) -> (r:
    Result<AppResponse, SeiError>)
    ensures
        match create_denom_spec(store_entries(*old(storage)), sender@, subdenom@) {
            Ok(after) => r is Ok && r.unwrap().data is Some && r.unwrap().data.unwrap()@
                == denom_key(sender@, subdenom@) && store_entries(*final(storage)) == after,
            Err(e) => r == Err::<AppResponse, SeiError>(e) && store_entries(*final(storage))
                == store_entries(*old(storage)),
        },
{
    let denom = make_denom_key(sender.as_str(), subdenom.as_str());
    if read_key(storage, denom.as_str()).is_some() {
        return Err(SeiError::DenomAlreadyExists);
    }
    if sender.as_str().is_empty() {
        return Err(SeiError::EmptyCreator);
    }
    proof {
        lemma_encoding_nonempty(sender@);
    }
    write_key(storage, denom.as_str(), sender.as_str().as_bytes());
    Ok(AppResponse { data: Some(denom) })
}

/// Whether two runs of bytes are the same.
pub fn bytes_equal(a: &[u8], b: &[u8]) -> (r: bool)
    ensures
        r == (a@ == b@),
{
    if a.len() != b.len() {
        return false;
    }
    let mut i: usize = 0;
    while i < a.len()
        invariant
            i <= a.len(),
            a@.len() == b@.len(),
            forall|j: int| 0 <= j < i ==> a@[j] == b@[j],
        decreases a.len() - i,
    {
        if a[i] != b[i] {
            return false;
        }
        i = i + 1;
    }
    assert(a@ =~= b@);
    true
}

/// Whether the store records `sender` as the creator of `denom`.
pub fn is_denom_owner(storage: &MemoryStorage, sender: &String, denom: &String) -> (r: bool)
    ensures
        r == owns_denom(store_entries(*storage), sender@, denom@),
{
    match read_key(storage, denom.as_str()) {
        None => false,
        Some(owner) => bytes_equal(owner.as_slice(), sender.as_str().as_bytes()),
    }
}

/// Accepts `MintTokens` from the creator of the denomination of `amount`:
/// the bank is to mint `amount` to the sender. Anyone else is refused.
pub fn execute_mint_tokens_helper(storage: &MemoryStorage, sender: String, amount: Coin) -> (r:
    Result<BankAction, SeiError>)
    ensures
        owns_denom(store_entries(*storage), sender@, amount.denom@) ==> r == Ok::<
            BankAction,
            SeiError,
        >(BankAction::Mint { to_address: sender, amount: r.unwrap()->Mint_amount })
            && r.unwrap()->Mint_amount@ == seq![amount],
        !owns_denom(store_entries(*storage), sender@, amount.denom@) ==> r == Err::<
            BankAction,
            SeiError,
        >(SeiError::MintNotOwner),
{
    if !is_denom_owner(storage, &sender, &amount.denom) {
        return Err(SeiError::MintNotOwner);
    }
    let mut coins: Vec<Coin> = Vec::new();
    coins.push(amount);
    assert(coins@ =~= seq![amount]);
    Ok(BankAction::Mint { to_address: sender, amount: coins })
}

/// Accepts `BurnTokens` from the creator of the denomination of `amount`:
/// the bank is to burn `amount` from the sender's balance. Anyone else is
/// refused.
pub fn execute_burn_tokens_helper(storage: &MemoryStorage, sender: String, amount: Coin) -> (r:
    Result<BankAction, SeiError>)
    ensures
        owns_denom(store_entries(*storage), sender@, amount.denom@) ==> r == Ok::<
            BankAction,
            SeiError,
        >(BankAction::Burn { sender: sender, amount: r.unwrap()->Burn_amount })
            && r.unwrap()->Burn_amount@ == seq![amount],
        !owns_denom(store_entries(*storage), sender@, amount.denom@) ==> r == Err::<
            BankAction,
            SeiError,
        >(SeiError::BurnNotOwner),
{
    if !is_denom_owner(storage, &sender, &amount.denom) {
        return Err(SeiError::BurnNotOwner);
    }
    let mut coins: Vec<Coin> = Vec::new();
    coins.push(amount);
    assert(coins@ =~= seq![amount]);
    Ok(BankAction::Burn { sender: sender, amount: coins })
}

/// Once a denomination has been created, the store records its creator
/// as its owner, and nobody else: minting and burning are accepted from
/// the creator and refused to every other address.
pub proof fn lemma_only_creator_owns(
    m: Entries,
    creator: Seq<char>,
    subdenom: Seq<char>,
    sender: Seq<char>,
)
    requires
        create_denom_spec(m, creator, subdenom) is Ok,
    ensures
        owns_denom(
            create_denom_spec(m, creator, subdenom).unwrap(),
            sender,
            denom_key(creator, subdenom),
        ) <==> sender == creator,
{
    if encode_utf8(sender) == encode_utf8(creator) {
        lemma_key_bytes_injective(sender, creator);
    }
}

/// A denomination can be created once: creating it again fails and
/// leaves its owner as it was.
pub proof fn lemma_create_denom_once(m: Entries, creator: Seq<char>, subdenom: Seq<char>)
    requires
        create_denom_spec(m, creator, subdenom) is Ok,
    ensures
        create_denom_spec(create_denom_spec(m, creator, subdenom).unwrap(), creator, subdenom)
            == Err::<Entries, SeiError>(SeiError::DenomAlreadyExists),
{
}

} // verus!
