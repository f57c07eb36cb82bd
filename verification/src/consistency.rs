//! What holds of the order book from one operation to the next: a placed
//! order is found in both views, a cancelled order in neither, and no id
//! is given out twice.

use crate::codec::encode_order;
use crate::codec::lemma_order_round_trip;
use crate::codec::lemma_orders_round_trip;
use crate::dex::ids_increasing;
use crate::dex::stored_timestamp;
use crate::encoding::be_bytes;
use crate::encoding::lemma_be_bytes_len;
use crate::encoding::lemma_be_round_trip;
use crate::encoding::lemma_byte_limits;
use crate::encoding::lemma_utf8_round_trip;
use crate::error::SeiError;
use crate::keys::counter_key;
use crate::keys::lemma_key_classes;
use crate::keys::lemma_order_by_id_key_id;
use crate::keys::lemma_orders_key_injective;
use crate::keys::lemma_timestamp_key_injective;
use crate::keys::order_by_id_key;
use crate::keys::orders_key;
use crate::keys::timestamp_key;
use crate::kv::key_bytes;
use crate::order_book::all_known;
use crate::order_book::cancel_orders_spec;
use crate::order_book::find_order;
use crate::order_book::get_order_by_id_spec;
use crate::order_book::get_orders_spec;
use crate::order_book::place_orders_spec;
use crate::order_book::placed_order;
use crate::order_book::placed_orders;
use crate::order_book::remove_own_keys;
use crate::order_book::stored_counter;
use crate::order_book::stored_orders;
use crate::order_book::without_ids;
use crate::order_book::write_all_placed;
use crate::order_book::Entries;
use crate::sei_types::OrderResponseView;
use crate::sei_types::OrderStatus;
use crate::sei_types::OrderView;
use crate::text::digits;
use crate::text::lemma_parse_digits;
use vstd::prelude::*;

verus! {

/// The list of a contract's orders in the store: empty where the store
/// holds none.
pub open spec fn existing_orders(m: Entries, contract: Seq<char>) -> Seq<OrderResponseView> {
    match stored_orders(m, contract) {
        Some(Ok(list)) => list,
        _ => Seq::empty(),
    }
}

/// The id that the next placed order gets.
pub open spec fn next_id(m: Entries) -> u64 {
    match stored_counter(m) {
        Ok(first) => first,
        Err(_) => 0,
    }
}

/// Whether the book of a contract is in order: the counter can be read,
/// and the ids of the contract's list, where it has one, grow from each
/// order to the next and are below the counter.
pub open spec fn book_valid(m: Entries, contract: Seq<char>) -> bool {
    &&& stored_counter(m) is Ok
    &&& match stored_orders(m, contract) {
        None => true,
        Some(Ok(list)) => ids_increasing(list) && forall|i: int|
            0 <= i < list.len() ==> (#[trigger] list[i]).id < next_id(m),
        Some(Err(_)) => false,
    }
}

/// Writing placed orders leaves every key but their own as it was.
pub proof fn lemma_write_leaves_others(
    m: Entries,
    contract: Seq<char>,
    rs: Seq<OrderResponseView>,
    now: u64,
    k: Seq<u8>,
)
    requires
        forall|i: int|
            0 <= i < rs.len() ==> k != key_bytes(
                order_by_id_key(contract, (#[trigger] rs[i]).price_denom, rs[i].asset_denom, rs[i].id),
            ) && k != key_bytes(timestamp_key(rs[i].id)),
    ensures
        write_all_placed(m, contract, rs, now).contains_key(k) == m.contains_key(k),
        m.contains_key(k) ==> write_all_placed(m, contract, rs, now)[k] == m[k],
    decreases rs.len(),
{
    if rs.len() > 0 {
        let before = rs.drop_last();
        assert forall|i: int| 0 <= i < before.len() implies k != key_bytes(
            order_by_id_key(
                contract,
                (#[trigger] before[i]).price_denom,
                before[i].asset_denom,
                before[i].id,
            ),
        ) && k != key_bytes(timestamp_key(before[i].id)) by {
            assert(before[i] == rs[i]);
        }
        lemma_write_leaves_others(m, contract, before, now, k);
        let last = rs.last();
        assert(last == rs[rs.len() - 1]);
    }
}

/// Writing placed orders leaves the lists of all contracts and the
/// counter as they were.
pub proof fn lemma_write_leaves_lists(
    m: Entries,
    contract: Seq<char>,
    rs: Seq<OrderResponseView>,
    now: u64,
    other: Seq<char>,
)
    ensures
        stored_orders(write_all_placed(m, contract, rs, now), other) == stored_orders(m, other),
        stored_counter(write_all_placed(m, contract, rs, now)) == stored_counter(m),
{
    assert forall|i: int| 0 <= i < rs.len() implies key_bytes(orders_key(other)) != key_bytes(
        order_by_id_key(contract, (#[trigger] rs[i]).price_denom, rs[i].asset_denom, rs[i].id),
    ) && key_bytes(orders_key(other)) != key_bytes(timestamp_key(rs[i].id)) by {
        lemma_key_classes(other, contract, rs[i].price_denom, rs[i].asset_denom, rs[i].id, rs[i].id);
    }
    lemma_write_leaves_others(m, contract, rs, now, key_bytes(orders_key(other)));
    assert forall|i: int| 0 <= i < rs.len() implies key_bytes(counter_key()) != key_bytes(
        order_by_id_key(contract, (#[trigger] rs[i]).price_denom, rs[i].asset_denom, rs[i].id),
    ) && key_bytes(counter_key()) != key_bytes(timestamp_key(rs[i].id)) by {
        lemma_key_classes(other, contract, rs[i].price_denom, rs[i].asset_denom, rs[i].id, rs[i].id);
    }
    lemma_write_leaves_others(m, contract, rs, now, key_bytes(counter_key()));
}

/// After placed orders with different ids have been written, each is
/// under its own key, and its placement time under the key of its id.
pub proof fn lemma_write_keeps_each(
    m: Entries,
    contract: Seq<char>,
    rs: Seq<OrderResponseView>,
    now: u64,
    i: int,
)
    requires
        0 <= i < rs.len(),
        forall|a: int, b: int| 0 <= a < b < rs.len() ==> rs[a].id != rs[b].id,
    ensures
        write_all_placed(m, contract, rs, now).contains_key(
            key_bytes(order_by_id_key(contract, rs[i].price_denom, rs[i].asset_denom, rs[i].id)),
        ),
        write_all_placed(m, contract, rs, now)[key_bytes(
            order_by_id_key(contract, rs[i].price_denom, rs[i].asset_denom, rs[i].id),
        )] == encode_order(rs[i]),
        write_all_placed(m, contract, rs, now).contains_key(key_bytes(timestamp_key(rs[i].id))),
        write_all_placed(m, contract, rs, now)[key_bytes(timestamp_key(rs[i].id))] == be_bytes(
            now as nat,
            8,
        ),
    decreases rs.len(),
{
    let last = rs.last();
    let own = key_bytes(order_by_id_key(contract, rs[i].price_denom, rs[i].asset_denom, rs[i].id));
    let time = key_bytes(timestamp_key(rs[i].id));
    let last_own = key_bytes(
        order_by_id_key(contract, last.price_denom, last.asset_denom, last.id),
    );
    let last_time = key_bytes(timestamp_key(last.id));
    lemma_key_classes(
        contract,
        contract,
        rs[i].price_denom,
        rs[i].asset_denom,
        rs[i].id,
        last.id,
    );
    lemma_key_classes(contract, contract, last.price_denom, last.asset_denom, last.id, rs[i].id);
    if i < rs.len() - 1 {
        let before = rs.drop_last();
        assert(before[i] == rs[i]);
        assert forall|a: int, b: int| 0 <= a < b < before.len() implies before[a].id
            != before[b].id by {
            assert(before[a] == rs[a]);
            assert(before[b] == rs[b]);
        }
        lemma_write_keeps_each(m, contract, before, now, i);
        assert(rs[i].id != rs[rs.len() - 1].id);
        if own == last_own {
            lemma_order_by_id_key_id(
                contract,
                rs[i].price_denom,
                rs[i].asset_denom,
                rs[i].id,
                contract,
                last.price_denom,
                last.asset_denom,
                last.id,
            );
        }
        if time == last_time {
            lemma_timestamp_key_injective(rs[i].id, last.id);
        }
    }
}

/// The ids of placed orders differ from each other, grow, and start at
/// the first id.
pub proof fn lemma_placed_ids(orders: Seq<OrderView>, first: u64)
    requires
        first + orders.len() <= u64::MAX,
    ensures
        placed_orders(orders, first).len() == orders.len(),
        forall|i: int|
            0 <= i < orders.len() ==> (#[trigger] placed_orders(orders, first)[i]).id == first + i,
        forall|a: int, b: int|
            0 <= a < b < orders.len() ==> placed_orders(orders, first)[a].id != placed_orders(
                orders,
                first,
            )[b].id,
{
}

/// After a placement, `GetOrders` answers the list as it was before with
/// the placed orders at its end, in the order in which they were handed
/// in.
pub proof fn lemma_place_then_get_orders(
    m: Entries,
    contract: Seq<char>,
    orders: Seq<OrderView>,
    now: u64,
)
    requires
        place_orders_spec(m, contract, orders, now) is Ok,
    ensures
        get_orders_spec(place_orders_spec(m, contract, orders, now).unwrap(), contract) == Ok::<
            Seq<OrderResponseView>,
            SeiError,
        >(existing_orders(m, contract) + placed_orders(orders, next_id(m))),
{
    let list = existing_orders(m, contract) + placed_orders(orders, next_id(m));
    lemma_key_classes(contract, contract, Seq::empty(), Seq::empty(), 0, 0);
    lemma_orders_round_trip(list);
}

/// Placing N orders for a contract that has none, in a store that has
/// given out no id, and asking for the contract's orders gives N orders
/// with the ids 0 to N-1, all of them placed, each with the price, the
/// quantity, the denominations, the type, the direction, the data and the
/// description of the order that it was made from.
pub proof fn lemma_round_trip(m: Entries, contract: Seq<char>, orders: Seq<OrderView>, now: u64)
    requires
        !m.contains_key(key_bytes(counter_key())),
        !m.contains_key(key_bytes(orders_key(contract))),
        orders.len() <= u64::MAX,
    ensures
        place_orders_spec(m, contract, orders, now) is Ok,
        get_orders_spec(place_orders_spec(m, contract, orders, now).unwrap(), contract) matches Ok(
            list,
        ) && {
            &&& list.len() == orders.len()
            &&& forall|i: int|
                #![trigger list[i]]
                0 <= i < orders.len() ==> {
                    &&& list[i].id == i
                    &&& list[i].status == OrderStatus::Placed
                    &&& list[i].price == orders[i].price
                    &&& list[i].quantity == orders[i].quantity
                    &&& list[i].price_denom == orders[i].price_denom
                    &&& list[i].asset_denom == orders[i].asset_denom
                    &&& list[i].order_type == orders[i].order_type
                    &&& list[i].position_direction == orders[i].position_direction
                    &&& list[i].data == orders[i].data
                    &&& list[i].status_description == orders[i].status_description
                }
        },
{
    let rs = placed_orders(orders, 0);
    assert(existing_orders(m, contract) + rs =~= rs);
    lemma_place_then_get_orders(m, contract, orders, now);
}

/// After a placement, `GetOrderById` answers each placed order, under the
/// denominations of the order and the id that it was given, and the
/// answer is the order's entry in the answer of `GetOrders`.
pub proof fn lemma_place_then_get_order_by_id(
    m: Entries,
    contract: Seq<char>,
    orders: Seq<OrderView>,
    now: u64,
    i: int,
)
    requires
        place_orders_spec(m, contract, orders, now) is Ok,
        0 <= i < orders.len(),
    ensures
        get_order_by_id_spec(
            place_orders_spec(m, contract, orders, now).unwrap(),
            contract,
            orders[i].price_denom,
            orders[i].asset_denom,
            (next_id(m) + i) as u64,
        ) == Ok::<OrderResponseView, SeiError>(placed_order(orders[i], (next_id(m) + i) as u64)),
        get_orders_spec(place_orders_spec(m, contract, orders, now).unwrap(), contract) matches Ok(
            list,
        ) && list[existing_orders(m, contract).len() + i] == placed_order(
            orders[i],
            (next_id(m) + i) as u64,
        ),
{
    let first = next_id(m);
    let rs = placed_orders(orders, first);
    let list = existing_orders(m, contract) + rs;
    let id = (first + i) as u64;
    lemma_place_then_get_orders(m, contract, orders, now);
    lemma_placed_ids(orders, first);
    lemma_write_keeps_each(m, contract, rs, now, i);
    lemma_key_classes(contract, contract, rs[i].price_denom, rs[i].asset_denom, rs[i].id, 0);
    lemma_order_round_trip(rs[i]);
}

/// Removing the own keys of orders leaves every other key as it was, and
/// none of the own keys behind.
pub proof fn lemma_remove_own_keys(
    m: Entries,
    contract: Seq<char>,
    list: Seq<OrderResponseView>,
    ids: Seq<u64>,
    k: Seq<u8>,
)
    requires
        all_known(list, ids),
    ensures
        (forall|j: int|
            0 <= j < ids.len() ==> k != key_bytes(
                order_by_id_key(
                    contract,
                    find_order(list, #[trigger] ids[j]).unwrap().price_denom,
                    find_order(list, ids[j]).unwrap().asset_denom,
                    ids[j],
                ),
            )) ==> remove_own_keys(m, contract, list, ids).contains_key(k) == m.contains_key(k) && (
        m.contains_key(k) ==> remove_own_keys(m, contract, list, ids)[k] == m[k]),
        (exists|j: int|
            0 <= j < ids.len() && k == key_bytes(
                order_by_id_key(
                    contract,
                    find_order(list, #[trigger] ids[j]).unwrap().price_denom,
                    find_order(list, ids[j]).unwrap().asset_denom,
                    ids[j],
                ),
            )) ==> !remove_own_keys(m, contract, list, ids).contains_key(k),
    decreases ids.len(),
{
    if ids.len() > 0 {
        let before = ids.drop_last();
        assert forall|j: int| 0 <= j < before.len() implies find_order(
            list,
            #[trigger] before[j],
        ) is Some by {
            assert(before[j] == ids[j]);
        }
        lemma_remove_own_keys(m, contract, list, before, k);
        assert(ids.last() == ids[ids.len() - 1]);
        assert(find_order(list, ids[ids.len() - 1]) is Some);
        if forall|j: int|
            0 <= j < ids.len() ==> k != key_bytes(
                order_by_id_key(
                    contract,
                    find_order(list, #[trigger] ids[j]).unwrap().price_denom,
                    find_order(list, ids[j]).unwrap().asset_denom,
                    ids[j],
                ),
            ) {
            assert forall|j: int| 0 <= j < before.len() implies k != key_bytes(
                order_by_id_key(
                    contract,
                    find_order(list, #[trigger] before[j]).unwrap().price_denom,
                    find_order(list, before[j]).unwrap().asset_denom,
                    before[j],
                ),
            ) by {
                assert(before[j] == ids[j]);
            }
        }
        if exists|j: int|
            0 <= j < ids.len() && k == key_bytes(
                order_by_id_key(
                    contract,
                    find_order(list, #[trigger] ids[j]).unwrap().price_denom,
                    find_order(list, ids[j]).unwrap().asset_denom,
                    ids[j],
                ),
            ) {
            let j = choose|j: int|
                0 <= j < ids.len() && k == key_bytes(
                    order_by_id_key(
                        contract,
                        find_order(list, #[trigger] ids[j]).unwrap().price_denom,
                        find_order(list, ids[j]).unwrap().asset_denom,
                        ids[j],
                    ),
                );
            if j < before.len() {
                assert(before[j] == ids[j]);
            }
        }
    }
}

/// What `find_order` finds is an order of the list with the id asked for.
pub proof fn lemma_find_order(list: Seq<OrderResponseView>, id: u64)
    ensures
        find_order(list, id) is Some ==> find_order(list, id).unwrap().id == id && list.contains(
            find_order(list, id).unwrap(),
        ),
        find_order(list, id) is None ==> forall|i: int|
            0 <= i < list.len() ==> (#[trigger] list[i]).id != id,
    decreases list.len(),
{
    if list.len() > 0 {
        if list[0].id != id {
            let tail = list.skip(1);
            lemma_find_order(tail, id);
            if find_order(tail, id) is Some {
                let o = find_order(tail, id).unwrap();
                let at = choose|i: int| 0 <= i < tail.len() && tail[i] == o;
                assert(list[at + 1] == o);
            } else {
                assert forall|i: int| 0 <= i < list.len() implies (#[trigger] list[i]).id != id by {
                    if i > 0 {
                        assert(tail[i - 1] == list[i]);
                    }
                }
            }
        }
    }
}

/// After a cancellation, `GetOrderById` fails as not found for each
/// cancelled order, and `GetOrders` answers the list without the cancelled
/// orders.
pub proof fn lemma_cancel_then_lookups(m: Entries, contract: Seq<char>, ids: Seq<u64>, j: int)
    requires
        cancel_orders_spec(m, contract, ids) is Ok,
        0 <= j < ids.len(),
    ensures
        get_order_by_id_spec(
            cancel_orders_spec(m, contract, ids).unwrap(),
            contract,
            find_order(existing_orders(m, contract), ids[j]).unwrap().price_denom,
            find_order(existing_orders(m, contract), ids[j]).unwrap().asset_denom,
            ids[j],
        ) == Err::<OrderResponseView, SeiError>(SeiError::GetOrderByIdNotFound),
        get_orders_spec(cancel_orders_spec(m, contract, ids).unwrap(), contract) == Ok::<
            Seq<OrderResponseView>,
            SeiError,
        >(without_ids(existing_orders(m, contract), ids)),
{
    let list = existing_orders(m, contract);
    let o = find_order(list, ids[j]).unwrap();
    let k = key_bytes(order_by_id_key(contract, o.price_denom, o.asset_denom, ids[j]));
    lemma_remove_own_keys(m, contract, list, ids, k);
    lemma_key_classes(contract, contract, o.price_denom, o.asset_denom, ids[j], 0);
    lemma_orders_round_trip(without_ids(list, ids));
}

/// A list whose ids differ from each other is one order shorter without
/// one of its ids.
pub proof fn lemma_without_one_id(list: Seq<OrderResponseView>, id: u64)
    requires
        ids_increasing(list),
        find_order(list, id) is Some,
    ensures
        without_ids(list, seq![id]).len() == list.len() - 1,
    decreases list.len(),
{
    reveal(Seq::filter);
    let keep = |o: OrderResponseView| !seq![id].contains(o.id);
    lemma_find_order(list, id);
    if list.len() > 0 {
        let before = list.drop_last();
        let last = list.last();
        assert forall|a: int, b: int| 0 <= a < b < before.len() implies before[a].id
            < before[b].id by {
            assert(before[a] == list[a]);
            assert(before[b] == list[b]);
        }
        lemma_find_order(before, id);
        if last.id == id {
            assert(seq![id][0] == id);
            assert(!keep(last));
            assert forall|i: int| 0 <= i < before.len() implies keep(#[trigger] before[i]) by {
                assert(before[i] == list[i]);
                assert(list[i].id < list[list.len() - 1].id);
            }
            lemma_filter_keeps_all(before, keep);
        } else {
            assert(keep(last));
            let o = find_order(list, id).unwrap();
            let at = choose|i: int| 0 <= i < list.len() && list[i] == o;
            assert(at < list.len() - 1);
            assert(before[at] == o);
            if find_order(before, id) is None {
                assert(before[at].id != id);
            }
            lemma_without_one_id(before, id);
        }
    }
}

/// A filter that keeps every element keeps the list.
proof fn lemma_filter_keeps_all(
    list: Seq<OrderResponseView>,
    keep: spec_fn(OrderResponseView) -> bool,
)
    requires
        forall|i: int| 0 <= i < list.len() ==> keep(#[trigger] list[i]),
    ensures
        list.filter(keep) == list,
    decreases list.len(),
{
    reveal(Seq::filter);
    if list.len() > 0 {
        let before = list.drop_last();
        assert forall|i: int| 0 <= i < before.len() implies keep(#[trigger] before[i]) by {
            assert(before[i] == list[i]);
        }
        lemma_filter_keeps_all(before, keep);
        assert(before.push(list.last()) =~= list);
    }
}

/// After the order `id` of a book that is in order has been cancelled,
/// `GetOrderById` for it fails as not found, and `GetOrders` answers one
/// order less than before.
pub proof fn lemma_cancel_one(m: Entries, contract: Seq<char>, id: u64)
    requires
        book_valid(m, contract),
        cancel_orders_spec(m, contract, seq![id]) is Ok,
    ensures
        get_order_by_id_spec(
            cancel_orders_spec(m, contract, seq![id]).unwrap(),
            contract,
            find_order(existing_orders(m, contract), id).unwrap().price_denom,
            find_order(existing_orders(m, contract), id).unwrap().asset_denom,
            id,
        ) == Err::<OrderResponseView, SeiError>(SeiError::GetOrderByIdNotFound),
        get_orders_spec(m, contract) matches Ok(before) && get_orders_spec(
            cancel_orders_spec(m, contract, seq![id]).unwrap(),
            contract,
        ) matches Ok(after) && after.len() == before.len() - 1,
{
    let ids = seq![id];
    assert(ids[0] == id);
    lemma_cancel_then_lookups(m, contract, ids, 0);
    assert(find_order(existing_orders(m, contract), ids[0]) is Some);
    lemma_without_one_id(existing_orders(m, contract), id);
}

/// After a placement, the counter is past every id that was given out.
pub proof fn lemma_place_advances_counter(
    m: Entries,
    contract: Seq<char>,
    orders: Seq<OrderView>,
    now: u64,
)
    requires
        place_orders_spec(m, contract, orders, now) is Ok,
    ensures
        stored_counter(place_orders_spec(m, contract, orders, now).unwrap()) == Ok::<u64, SeiError>(
            (next_id(m) + orders.len()) as u64,
        ),
        next_id(m) + orders.len() <= u64::MAX,
{
    let next = (next_id(m) + orders.len()) as u64;
    lemma_utf8_round_trip(digits(next as nat));
    lemma_parse_digits(next);
}

/// Orders placed one after another, for the same contract or for two
/// contracts, never get the same id.
pub proof fn lemma_ids_never_repeat(
    m: Entries,
    first_contract: Seq<char>,
    first_orders: Seq<OrderView>,
    first_now: u64,
    second_contract: Seq<char>,
    second_orders: Seq<OrderView>,
    second_now: u64,
)
    requires
        place_orders_spec(m, first_contract, first_orders, first_now) is Ok,
        place_orders_spec(
            place_orders_spec(m, first_contract, first_orders, first_now).unwrap(),
            second_contract,
            second_orders,
            second_now,
        ) is Ok,
    ensures
        forall|i: int, j: int|
            0 <= i < first_orders.len() && 0 <= j < second_orders.len() ==> (
            #[trigger] placed_orders(first_orders, next_id(m))[i]).id != (#[trigger] placed_orders(
                second_orders,
                next_id(place_orders_spec(m, first_contract, first_orders, first_now).unwrap()),
            )[j]).id,
{
    let after = place_orders_spec(m, first_contract, first_orders, first_now).unwrap();
    lemma_place_advances_counter(m, first_contract, first_orders, first_now);
    lemma_place_advances_counter(after, second_contract, second_orders, second_now);
    lemma_placed_ids(first_orders, next_id(m));
    lemma_placed_ids(second_orders, next_id(after));
}

/// A placement keeps the book of every contract in order: that of the
/// contract that placed, and that of any other.
pub proof fn lemma_place_keeps_books_valid(
    m: Entries,
    contract: Seq<char>,
    orders: Seq<OrderView>,
    now: u64,
    other: Seq<char>,
)
    requires
        place_orders_spec(m, contract, orders, now) is Ok,
        book_valid(m, other),
        book_valid(m, contract),
    ensures
        book_valid(place_orders_spec(m, contract, orders, now).unwrap(), other),
{
    let after = place_orders_spec(m, contract, orders, now).unwrap();
    let first = next_id(m);
    let rs = placed_orders(orders, first);
    lemma_place_advances_counter(m, contract, orders, now);
    lemma_placed_ids(orders, first);
    if other == contract {
        lemma_place_then_get_orders(m, contract, orders, now);
        let old_list = existing_orders(m, contract);
        let list = old_list + rs;
        assert forall|a: int, b: int| 0 <= a < b < list.len() implies list[a].id < list[b].id by {
            if b < old_list.len() {
                assert(list[a] == old_list[a]);
                assert(list[b] == old_list[b]);
            } else if a < old_list.len() {
                assert(list[a] == old_list[a]);
                assert(list[b] == rs[b - old_list.len()]);
            } else {
                assert(list[a] == rs[a - old_list.len()]);
                assert(list[b] == rs[b - old_list.len()]);
            }
        }
        assert forall|i: int| 0 <= i < list.len() implies (#[trigger] list[i]).id < next_id(
            after,
        ) by {
            if i < old_list.len() {
                assert(list[i] == old_list[i]);
            } else {
                assert(list[i] == rs[i - old_list.len()]);
            }
        }
    } else {
        lemma_write_leaves_lists(m, contract, rs, now, other);
        lemma_key_classes(other, contract, Seq::empty(), Seq::empty(), 0, 0);
        if key_bytes(orders_key(other)) == key_bytes(orders_key(contract)) {
            lemma_orders_key_injective(other, contract);
        }
        assert(stored_orders(after, other) == stored_orders(m, other));
    }
}

/// After a placement, the store holds the block time of the placement
/// for each placed order.
pub proof fn lemma_place_then_timestamp(
    m: Entries,
    contract: Seq<char>,
    orders: Seq<OrderView>,
    now: u64,
    i: int,
)
    requires
        place_orders_spec(m, contract, orders, now) is Ok,
        0 <= i < orders.len(),
    ensures
        stored_timestamp(
            place_orders_spec(m, contract, orders, now).unwrap(),
            (next_id(m) + i) as u64,
        ) == Some(now),
{
    let first = next_id(m);
    let rs = placed_orders(orders, first);
    lemma_placed_ids(orders, first);
    lemma_write_keeps_each(m, contract, rs, now, i);
    lemma_key_classes(contract, contract, Seq::empty(), Seq::empty(), 0, rs[i].id);
    lemma_be_bytes_len(now as nat, 8);
    lemma_byte_limits();
    lemma_be_round_trip(now as nat, 8);
}

/// The orders that a filter keeps are in the order of the list: where the
/// ids of the list grow, so do those of what is kept, and what is kept
/// has no id that the list has not.
pub proof fn lemma_filter_keeps_order(
    list: Seq<OrderResponseView>,
    keep: spec_fn(OrderResponseView) -> bool,
    bound: u64,
)
    requires
        ids_increasing(list),
        forall|i: int| 0 <= i < list.len() ==> (#[trigger] list[i]).id < bound,
    ensures
        ids_increasing(list.filter(keep)),
        forall|i: int| 0 <= i < list.filter(keep).len() ==> (#[trigger] list.filter(keep)[i]).id < bound,
    decreases list.len(),
{
    reveal(Seq::filter);
    if list.len() > 0 {
        let before = list.drop_last();
        let last = list.last();
        assert forall|a: int, b: int| 0 <= a < b < before.len() implies before[a].id
            < before[b].id by {
            assert(before[a] == list[a]);
            assert(before[b] == list[b]);
        }
        assert forall|i: int| 0 <= i < before.len() implies (#[trigger] before[i]).id
            < last.id by {
            assert(before[i] == list[i]);
            assert(list[i].id < list[list.len() - 1].id);
        }
        assert(last.id < bound);
        lemma_filter_keeps_order(before, keep, last.id);
        let kept = before.filter(keep);
        if keep(last) {
            let all = kept.push(last);
            assert forall|a: int, b: int| 0 <= a < b < all.len() implies all[a].id < all[b].id by {
                if b == kept.len() {
                    assert(all[a] == kept[a]);
                } else {
                    assert(all[a] == kept[a]);
                    assert(all[b] == kept[b]);
                }
            }
            assert forall|i: int| 0 <= i < all.len() implies (#[trigger] all[i]).id < bound by {
                if i < kept.len() {
                    assert(all[i] == kept[i]);
                }
            }
        }
    }
}

/// A cancellation keeps the book of every contract in order: that of the
/// contract that cancelled, and that of any other.
pub proof fn lemma_cancel_keeps_books_valid(
    m: Entries,
    contract: Seq<char>,
    ids: Seq<u64>,
    other: Seq<char>,
)
    requires
        cancel_orders_spec(m, contract, ids) is Ok,
        book_valid(m, other),
        book_valid(m, contract),
    ensures
        book_valid(cancel_orders_spec(m, contract, ids).unwrap(), other),
        stored_counter(cancel_orders_spec(m, contract, ids).unwrap()) == stored_counter(m),
{
    let after = cancel_orders_spec(m, contract, ids).unwrap();
    let list = existing_orders(m, contract);
    let counter = key_bytes(counter_key());
    let other_list = key_bytes(orders_key(other));
    assert forall|j: int| 0 <= j < ids.len() implies counter != key_bytes(
        order_by_id_key(
            contract,
            find_order(list, #[trigger] ids[j]).unwrap().price_denom,
            find_order(list, ids[j]).unwrap().asset_denom,
            ids[j],
        ),
    ) && other_list != key_bytes(
        order_by_id_key(
            contract,
            find_order(list, ids[j]).unwrap().price_denom,
            find_order(list, ids[j]).unwrap().asset_denom,
            ids[j],
        ),
    ) by {
        let o = find_order(list, ids[j]).unwrap();
        lemma_key_classes(other, contract, o.price_denom, o.asset_denom, ids[j], 0);
    }
    lemma_remove_own_keys(m, contract, list, ids, counter);
    lemma_remove_own_keys(m, contract, list, ids, other_list);
    lemma_key_classes(contract, contract, Seq::empty(), Seq::empty(), 0, 0);
    lemma_key_classes(other, contract, Seq::empty(), Seq::empty(), 0, 0);
    assert(stored_counter(after) == stored_counter(m));
    if other == contract {
        if ids.len() > 0 {
            lemma_cancel_then_lookups(m, contract, ids, 0);
        } else {
            lemma_orders_round_trip(without_ids(list, ids));
        }
        lemma_filter_keeps_order(
            list,
            |o: OrderResponseView| !ids.contains(o.id),
            next_id(m),
        );
    } else {
        if other_list == key_bytes(orders_key(contract)) {
            lemma_orders_key_injective(other, contract);
        }
        assert(stored_orders(after, other) == stored_orders(m, other));
    }
}

} // verus!
