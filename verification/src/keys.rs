//! The keys under which the engine keeps its state.
//!
//! | key | value |
//! |---|---|
//! | `OrderIdCounter` | the next order id, as decimal text |
//! | `{contract}-OrderResponses` | the contract's orders |
//! | `{contract}-OrderResponseById-{price_denom}-{asset_denom}-{id}` | one order |
//! | `OrderTimestamp-{id}` | the block time of the placement, 8 bytes |
//! | `factory/{creator}/{subdenom}` | the creator's address |

use crate::kv::key_bytes;
use crate::kv::lemma_key_bytes_injective;
use crate::text::digits;
use crate::text::is_digit;
use crate::text::lemma_digits_injective;
use crate::text::lemma_digits_round_trip;
use crate::text::push_digits;
use vstd::prelude::*;
use vstd::string::StringExecFns;

verus! {

/// The key of the order-id counter.
pub open spec fn counter_key() -> Seq<char> {
    "OrderIdCounter"@
}

/// The key of the list of a contract's orders.
pub open spec fn orders_key(contract: Seq<char>) -> Seq<char> {
    contract + "-OrderResponses"@
}

/// The key of the order `id` of a contract in a market.
pub open spec fn order_by_id_key(
    contract: Seq<char>,
    price_denom: Seq<char>,
    asset_denom: Seq<char>,
    id: u64,
) -> Seq<char> {
    contract + "-OrderResponseById-"@ + price_denom + "-"@ + asset_denom + "-"@ + digits(
        id as nat,
    )
}

/// The key of the placement time of the order `id`.
pub open spec fn timestamp_key(id: u64) -> Seq<char> {
    "OrderTimestamp-"@ + digits(id as nat)
}

/// The key, and the full name, of a token-factory denomination.
pub open spec fn denom_key(creator: Seq<char>, subdenom: Seq<char>) -> Seq<char> {
    "factory/"@ + creator + "/"@ + subdenom
}

/// The key of the order-id counter.
pub fn make_counter_key() -> (r: String)
    ensures
        r@ == counter_key(),
{
    String::from_str("OrderIdCounter")
}

/// The key of the list of a contract's orders.
pub fn make_orders_key(contract: &str) -> (r: String)
    ensures
        r@ == orders_key(contract@),
{
    let mut key = String::from_str(contract);
    key.append("-OrderResponses");
    key
}

/// The key of the order `id` of a contract in a market.
pub fn make_order_by_id_key(contract: &str, price_denom: &str, asset_denom: &str, id: u64) -> (r:
    String)
    ensures
        r@ == order_by_id_key(contract@, price_denom@, asset_denom@, id),
{
    let mut key = String::from_str(contract);
    key.append("-OrderResponseById-");
    key.append(price_denom);
    key.append("-");
    key.append(asset_denom);
    key.append("-");
    push_digits(&mut key, id);
    key
}

/// The key of the placement time of the order `id`.
pub fn make_timestamp_key(id: u64) -> (r: String)
    ensures
        r@ == timestamp_key(id),
{
    let mut key = String::from_str("OrderTimestamp-");
    push_digits(&mut key, id);
    key
}

/// The key, and the full name, of a token-factory denomination.
pub fn make_denom_key(creator: &str, subdenom: &str) -> (r: String)
    ensures
        r@ == denom_key(creator@, subdenom@),
{
    let mut key = String::from_str("factory/");
    key.append(creator);
    key.append("/");
    key.append(subdenom);
    key
}

/// The text before the id in the key of an order.
pub open spec fn order_by_id_stem(
    contract: Seq<char>,
    price_denom: Seq<char>,
    asset_denom: Seq<char>,
) -> Seq<char> {
    contract + "-OrderResponseById-"@ + price_denom + "-"@ + asset_denom
}

/// If two texts that end in a hyphen and a number are the same, then the
/// numbers are the same, and so is what stands before the hyphens.
pub proof fn lemma_numbered_keys(a: Seq<char>, x: nat, b: Seq<char>, y: nat)
    requires
        a + seq!['-'] + digits(x) == b + seq!['-'] + digits(y),
    ensures
        x == y,
        a == b,
{
    let dx = digits(x);
    let dy = digits(y);
    let ka = a + seq!['-'] + dx;
    let kb = b + seq!['-'] + dy;
    lemma_digits_round_trip(x);
    lemma_digits_round_trip(y);
    assert(ka.len() == a.len() + 1 + dx.len());
    assert(kb.len() == b.len() + 1 + dy.len());
    if dx.len() < dy.len() {
        let at = ka.len() - dx.len() - 1;
        assert(ka[at] == '-');
        assert(kb[at] == dy[at - b.len() - 1]);
        assert(is_digit(dy[at - b.len() - 1]));
        assert(false);
    }
    if dy.len() < dx.len() {
        let at = kb.len() - dy.len() - 1;
        assert(kb[at] == '-');
        assert(ka[at] == dx[at - a.len() - 1]);
        assert(is_digit(dx[at - a.len() - 1]));
        assert(false);
    }
    assert(dx =~= ka.subrange(a.len() as int + 1, ka.len() as int));
    assert(dy =~= kb.subrange(b.len() as int + 1, kb.len() as int));
    assert(a =~= ka.subrange(0, a.len() as int));
    assert(b =~= kb.subrange(0, b.len() as int));
    lemma_digits_injective(x, y);
}

/// The key of an order is its stem, a hyphen and its id.
pub proof fn lemma_order_by_id_key_parts(
    contract: Seq<char>,
    price_denom: Seq<char>,
    asset_denom: Seq<char>,
    id: u64,
)
    ensures
        order_by_id_key(contract, price_denom, asset_denom, id) == order_by_id_stem(
            contract,
            price_denom,
            asset_denom,
        ) + seq!['-'] + digits(id as nat),
        order_by_id_stem(contract, price_denom, asset_denom).len() > 14,
        order_by_id_key(contract, price_denom, asset_denom, id).len() > 0,
        is_digit(order_by_id_key(contract, price_denom, asset_denom, id).last()),
{
    reveal_strlit("-");
    reveal_strlit("-OrderResponseById-");
    lemma_digits_round_trip(id as nat);
    assert("-"@ =~= seq!['-']);
    let d = digits(id as nat);
    assert(is_digit(d[d.len() - 1]));
}

/// The key of a placement time is `OrderTimestamp`, a hyphen and the id.
pub proof fn lemma_timestamp_key_parts(id: u64)
    ensures
        timestamp_key(id) == "OrderTimestamp"@ + seq!['-'] + digits(id as nat),
        "OrderTimestamp"@.len() == 14,
        timestamp_key(id).len() > 0,
        is_digit(timestamp_key(id).last()),
{
    reveal_strlit("OrderTimestamp-");
    reveal_strlit("OrderTimestamp");
    lemma_digits_round_trip(id as nat);
    assert("OrderTimestamp-"@ =~= "OrderTimestamp"@ + seq!['-']);
    let d = digits(id as nat);
    assert(is_digit(d[d.len() - 1]));
}

/// The key of a list ends in `s`, the key of the counter in `r`.
pub proof fn lemma_plain_keys(contract: Seq<char>)
    ensures
        orders_key(contract).len() > 0,
        orders_key(contract).last() == 's',
        counter_key().len() > 0,
        counter_key().last() == 'r',
{
    reveal_strlit("-OrderResponses");
    reveal_strlit("OrderIdCounter");
}

/// The keys of a list and of the counter differ from each other, and
/// from every key of an order and of a placement time.
pub proof fn lemma_key_classes(
    contract: Seq<char>,
    other: Seq<char>,
    price_denom: Seq<char>,
    asset_denom: Seq<char>,
    id: u64,
    time_id: u64,
)
    ensures
        key_bytes(orders_key(contract)) != key_bytes(counter_key()),
        key_bytes(orders_key(contract)) != key_bytes(
            order_by_id_key(other, price_denom, asset_denom, id),
        ),
        key_bytes(orders_key(contract)) != key_bytes(timestamp_key(time_id)),
        key_bytes(counter_key()) != key_bytes(order_by_id_key(other, price_denom, asset_denom, id)),
        key_bytes(counter_key()) != key_bytes(timestamp_key(time_id)),
        key_bytes(order_by_id_key(other, price_denom, asset_denom, id)) != key_bytes(
            timestamp_key(time_id),
        ),
{
    let list = orders_key(contract);
    let counter = counter_key();
    let order = order_by_id_key(other, price_denom, asset_denom, id);
    let time = timestamp_key(time_id);
    lemma_plain_keys(contract);
    lemma_order_by_id_key_parts(other, price_denom, asset_denom, id);
    lemma_timestamp_key_parts(time_id);
    if key_bytes(list) == key_bytes(counter) {
        lemma_key_bytes_injective(list, counter);
    }
    if key_bytes(list) == key_bytes(order) {
        lemma_key_bytes_injective(list, order);
    }
    if key_bytes(list) == key_bytes(time) {
        lemma_key_bytes_injective(list, time);
    }
    if key_bytes(counter) == key_bytes(order) {
        lemma_key_bytes_injective(counter, order);
    }
    if key_bytes(counter) == key_bytes(time) {
        lemma_key_bytes_injective(counter, time);
    }
    if key_bytes(order) == key_bytes(time) {
        lemma_key_bytes_injective(order, time);
        lemma_numbered_keys(
            order_by_id_stem(other, price_denom, asset_denom),
            id as nat,
            "OrderTimestamp"@,
            time_id as nat,
        );
    }
}

/// Different contracts have different list keys.
pub proof fn lemma_orders_key_injective(a: Seq<char>, b: Seq<char>)
    requires
        key_bytes(orders_key(a)) == key_bytes(orders_key(b)),
    ensures
        a == b,
{
    lemma_key_bytes_injective(orders_key(a), orders_key(b));
    let suffix = "-OrderResponses"@;
    assert(a =~= (a + suffix).subrange(0, a.len() as int));
    assert(b =~= (b + suffix).subrange(0, b.len() as int));
}

/// Orders with different ids have different keys.
pub proof fn lemma_order_by_id_key_id(
    contract: Seq<char>,
    price_denom: Seq<char>,
    asset_denom: Seq<char>,
    id: u64,
    other_contract: Seq<char>,
    other_price_denom: Seq<char>,
    other_asset_denom: Seq<char>,
    other_id: u64,
)
    requires
        key_bytes(order_by_id_key(contract, price_denom, asset_denom, id)) == key_bytes(
            order_by_id_key(other_contract, other_price_denom, other_asset_denom, other_id),
        ),
    ensures
        id == other_id,
{
    lemma_key_bytes_injective(
        order_by_id_key(contract, price_denom, asset_denom, id),
        order_by_id_key(other_contract, other_price_denom, other_asset_denom, other_id),
    );
    lemma_order_by_id_key_parts(contract, price_denom, asset_denom, id);
    lemma_order_by_id_key_parts(other_contract, other_price_denom, other_asset_denom, other_id);
    lemma_numbered_keys(
        order_by_id_stem(contract, price_denom, asset_denom),
        id as nat,
        order_by_id_stem(other_contract, other_price_denom, other_asset_denom),
        other_id as nat,
    );
}

/// Different ids have different keys for their placement times.
pub proof fn lemma_timestamp_key_injective(id: u64, other_id: u64)
    requires
        key_bytes(timestamp_key(id)) == key_bytes(timestamp_key(other_id)),
    ensures
        id == other_id,
{
    lemma_key_bytes_injective(timestamp_key(id), timestamp_key(other_id));
    lemma_timestamp_key_parts(id);
    lemma_timestamp_key_parts(other_id);
    lemma_numbered_keys("OrderTimestamp"@, id as nat, "OrderTimestamp"@, other_id as nat);
}

} // verus!
