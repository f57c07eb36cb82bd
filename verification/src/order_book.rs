//! The order book: placement, cancellation and lookup of orders.
//!
//! Each placed order is stored twice, in the list of its contract and
//! under a key of its own, with the block time of its placement beside
//! it. Ids come from one counter that all contracts share. Every
//! operation is stated as a function from the entries of the store before
//! it to the entries after it.

use crate::block::BlockInfo;
use crate::codec::decode_order;
use crate::codec::decode_order_bytes;
use crate::codec::decode_orders;
use crate::codec::decode_orders_bytes;
use crate::codec::encode_order;
use crate::codec::encode_order_bytes;
use crate::codec::encode_orders;
use crate::codec::encode_orders_bytes;
use crate::encoding::be_bytes;
use crate::encoding::lemma_be_bytes_len;
use crate::encoding::push_be;
use crate::encoding::string_from_utf8;
use crate::encoding::utf8_text;
use crate::error::SeiError;
use crate::keys::counter_key;
use crate::keys::make_counter_key;
use crate::keys::make_order_by_id_key;
use crate::keys::make_orders_key;
use crate::keys::make_timestamp_key;
use crate::keys::order_by_id_key;
use crate::keys::orders_key;
use crate::keys::timestamp_key;
use crate::kv::delete_key;
use crate::kv::key_bytes;
use crate::kv::lemma_encoding_nonempty;
use crate::kv::read_key;
use crate::kv::write_key;
use crate::sei_types::Cancellation;
use crate::sei_types::Coin;
use crate::sei_types::Order;
use crate::sei_types::OrderResponse;
use crate::sei_types::OrderResponseView;
use crate::sei_types::OrderStatus;
use crate::sei_types::OrderView;
use crate::store::store_entries;
use crate::text::digits;
use crate::text::lemma_digits_round_trip;
use crate::text::parse_u64;
use crate::text::parse_u64_spec;
use crate::text::u64_to_string;
use cosmwasm_std::MemoryStorage;
use vstd::prelude::*;
use vstd::string::StringExecFns;
use vstd::utf8::*;

verus! {

/// The entries of a store.
pub type Entries = Map<Seq<u8>, Seq<u8>>;

/// What a successful execution hands back: the address of the contract, or
/// the name of the denomination, that it acted on.
#[derive(Debug, PartialEq, Eq)]
pub struct AppResponse {
    pub data: Option<String>,
}

/// The answer to `GetOrders`.
#[derive(Debug, PartialEq)]
pub struct GetOrdersResponse {
    pub orders: Vec<OrderResponse>,
}

/// The answer to `GetOrderById`.
#[derive(Debug, PartialEq)]
pub struct GetOrderByIdResponse {
    pub order: OrderResponse,
}

/// The next order id that the store holds: zero where it holds none.
pub open spec fn stored_counter(m: Entries) -> Result<u64, SeiError> {
    let k = key_bytes(counter_key());
    if !m.contains_key(k) {
        Ok(0)
    } else {
        match utf8_text(m[k]) {
            Some(t) => match parse_u64_spec(t) {
                Some(n) => Ok(n),
                None => Err(SeiError::CorruptStore),
            },
            None => Err(SeiError::CorruptStore),
        }
    }
}

/// The list of a contract's orders that the store holds, if it holds one.
pub open spec fn stored_orders(m: Entries, contract: Seq<char>) -> Option<
    Result<Seq<OrderResponseView>, SeiError>,
> {
    let k = key_bytes(orders_key(contract));
    if !m.contains_key(k) {
        None
    } else {
        match decode_orders(m[k]) {
            Some(list) => Some(Ok(list)),
            None => Some(Err(SeiError::CorruptStore)),
        }
    }
}

/// The order that placing `o` under the id `id` gives.
pub open spec fn placed_order(o: OrderView, id: u64) -> OrderResponseView {
    OrderResponseView {
        id: id,
        status: OrderStatus::Placed,
        account: "test account"@,
        contract_address: "test contract"@,
        price: o.price,
        quantity: o.quantity,
        price_denom: o.price_denom,
        asset_denom: o.asset_denom,
        order_type: o.order_type,
        position_direction: o.position_direction,
        data: o.data,
        status_description: o.status_description,
    }
}

/// The orders that placing `orders` gives, with ids from `first` on.
pub open spec fn placed_orders(orders: Seq<OrderView>, first: u64) -> Seq<OrderResponseView> {
    Seq::new(orders.len(), |i: int| placed_order(orders[i], (first + i) as u64))
}

/// The entries after one placed order has been written: the order under
/// its own key, and the time under the key of its id.
pub open spec fn write_placed(
    m: Entries,
    contract: Seq<char>,
    r: OrderResponseView,
    now: u64,
) -> Entries {
    m.insert(
        key_bytes(order_by_id_key(contract, r.price_denom, r.asset_denom, r.id)),
        encode_order(r),
    ).insert(key_bytes(timestamp_key(r.id)), be_bytes(now as nat, 8))
}

/// The entries after the placed orders `rs` have been written, one after
/// another.
pub open spec fn write_all_placed(
    m: Entries,
    contract: Seq<char>,
    rs: Seq<OrderResponseView>,
    now: u64,
) -> Entries
    decreases rs.len(),
{
    if rs.len() == 0 {
        m
    } else {
        write_placed(write_all_placed(m, contract, rs.drop_last(), now), contract, rs.last(), now)
    }
}

/// What `PlaceOrders` does to the entries of the store, or why it fails.
///
/// The counter is read (zero where there is none), then the contract's
/// list (empty where there is none). Each order gets the next id and is
/// written under its own key with the block time beside it; then the
/// list, with the new orders at its end, and the counter are written.
pub open spec fn place_orders_spec(
    m: Entries,
    contract: Seq<char>,
    orders: Seq<OrderView>,
    now: u64,
) -> Result<Entries, SeiError> {
    match stored_counter(m) {
        Err(e) => Err(e),
        Ok(first) => {
            let existing = match stored_orders(m, contract) {
                None => Ok(Seq::empty()),
                Some(found) => found,
            };
            match existing {
                Err(e) => Err(e),
                Ok(list) => {
                    if first + orders.len() > u64::MAX {
                        Err(SeiError::Overflow)
                    } else {
                        let rs = placed_orders(orders, first);
                        Ok(
                            write_all_placed(m, contract, rs, now).insert(
                                key_bytes(orders_key(contract)),
                                encode_orders(list + rs),
                            ).insert(
                                key_bytes(counter_key()),
                                encode_utf8(digits((first + orders.len()) as nat)),
                            ),
                        )
                    }
                },
            }
        },
    }
}

/// The first order of `list` with the id `id`.
pub open spec fn find_order(list: Seq<OrderResponseView>, id: u64) -> Option<OrderResponseView>
    decreases list.len(),
{
    if list.len() == 0 {
        None
    } else if list[0].id == id {
        Some(list[0])
    } else {
        find_order(list.skip(1), id)
    }
}

/// The ids that the cancellations name, in their order.
pub open spec fn cancellation_ids(cancellations: Seq<Cancellation>) -> Seq<u64> {
    Seq::new(cancellations.len(), |i: int| cancellations[i].id)
}

/// Whether `list` holds an order for each of `ids`.
pub open spec fn all_known(list: Seq<OrderResponseView>, ids: Seq<u64>) -> bool {
    forall|i: int| 0 <= i < ids.len() ==> find_order(list, #[trigger] ids[i]) is Some
}

/// The entries after the own keys of the orders `ids` have been removed,
/// one after another, each key built from the market of the order in
/// `list`.
pub open spec fn remove_own_keys(
    m: Entries,
    contract: Seq<char>,
    list: Seq<OrderResponseView>,
    ids: Seq<u64>,
) -> Entries
    decreases ids.len(),
{
    if ids.len() == 0 {
        m
    } else {
        let before = remove_own_keys(m, contract, list, ids.drop_last());
        match find_order(list, ids.last()) {
            Some(o) => before.remove(
                key_bytes(order_by_id_key(contract, o.price_denom, o.asset_denom, ids.last())),
            ),
            None => before,
        }
    }
}

/// The orders of `list` whose id is not among `ids`, in their order.
pub open spec fn without_ids(list: Seq<OrderResponseView>, ids: Seq<u64>) -> Seq<
    OrderResponseView,
> {
    list.filter(|o: OrderResponseView| !ids.contains(o.id))
}

/// What `CancelOrders` does to the entries of the store, or why it fails.
///
/// It fails for a contract without a list and for an id that the list
/// does not hold. Otherwise the own key of each named order is removed
/// and the list is written without the named orders.
pub open spec fn cancel_orders_spec(m: Entries, contract: Seq<char>, ids: Seq<u64>) -> Result<
    Entries,
    SeiError,
> {
    match stored_orders(m, contract) {
        None => Err(SeiError::CancelOrdersNotFound),
        Some(Err(e)) => Err(e),
        Some(Ok(list)) => {
            if !all_known(list, ids) {
                Err(SeiError::CancelOrderIdNotFound)
            } else {
                Ok(
                    remove_own_keys(m, contract, list, ids).insert(
                        key_bytes(orders_key(contract)),
                        encode_orders(without_ids(list, ids)),
                    ),
                )
            }
        },
    }
}

/// What `GetOrders` answers: the contract's list, whole and in its order.
pub open spec fn get_orders_spec(m: Entries, contract: Seq<char>) -> Result<
    Seq<OrderResponseView>,
    SeiError,
> {
    match stored_orders(m, contract) {
        None => Err(SeiError::GetOrdersNotFound),
        Some(found) => found,
    }
}

/// What `GetOrderById` answers: the order under the key of the contract,
/// the market and the id.
pub open spec fn get_order_by_id_spec(
    m: Entries,
    contract: Seq<char>,
    price_denom: Seq<char>,
    asset_denom: Seq<char>,
    id: u64,
) -> Result<OrderResponseView, SeiError> {
    let k = key_bytes(order_by_id_key(contract, price_denom, asset_denom, id));
    if !m.contains_key(k) {
        Err(SeiError::GetOrderByIdNotFound)
    } else {
        match decode_order(m[k]) {
            Some(o) => Ok(o),
            None => Err(SeiError::CorruptStore),
        }
    }
}

/// Reads the order-id counter.
pub fn read_counter(storage: &MemoryStorage) -> (r: Result<u64, SeiError>)
    ensures
        r == stored_counter(store_entries(*storage)),
{
    let key = make_counter_key();
    match read_key(storage, key.as_str()) {
        None => Ok(0),
        Some(bytes) => match string_from_utf8(bytes) {
            Some(text) => match parse_u64(text.as_str()) {
                Some(n) => Ok(n),
                None => Err(SeiError::CorruptStore),
            },
            None => Err(SeiError::CorruptStore),
        },
    }
}

/// Reads the list of a contract's orders.
pub fn read_orders(storage: &MemoryStorage, contract: &str) -> (r: Option<
    Result<Vec<OrderResponse>, SeiError>,
>)
    ensures
        match r {
            None => stored_orders(store_entries(*storage), contract@) is None,
            Some(Ok(list)) => stored_orders(store_entries(*storage), contract@) == Some(
                Ok::<Seq<OrderResponseView>, SeiError>(list.deep_view()),
            ),
            Some(Err(e)) => stored_orders(store_entries(*storage), contract@) == Some(
                Err::<Seq<OrderResponseView>, SeiError>(e),
            ),
        },
{
    let key = make_orders_key(contract);
    match read_key(storage, key.as_str()) {
        None => None,
        Some(bytes) => match decode_orders_bytes(bytes.as_slice()) {
            Some(list) => Some(Ok(list)),
            None => Some(Err(SeiError::CorruptStore)),
        },
    }
}

/// Places `orders` for the contract at `contract_address`, at the time of
/// `block`, and hands the address back. The funds are accepted and not
/// used.
pub fn execute_place_orders_helper(
    storage: &mut MemoryStorage,
    block: &BlockInfo,
    orders: Vec<Order>,
    _funds: Vec<Coin>,
    contract_address: String,
) -> (r: Result<AppResponse, SeiError>)
    ensures
        match place_orders_spec(
            store_entries(*old(storage)),
            contract_address@,
            orders.deep_view(),
            block.time.spec_seconds(),
        ) {
            Ok(after) => r is Ok && r.unwrap().data is Some && r.unwrap().data.unwrap()@
                == contract_address@ && store_entries(*final(storage)) == after,
            Err(e) => r == Err::<AppResponse, SeiError>(e) && store_entries(*final(storage))
                == store_entries(*old(storage)),
        },
{
    let ghost m0 = store_entries(*storage);
    let ghost contract = contract_address@;
    let ghost views = orders.deep_view();
    let now = block.time.seconds();
    let first = match read_counter(storage) {
        Ok(n) => n,
        Err(e) => {
            return Err(e);
        },
    };
    let mut list: Vec<OrderResponse> = match read_orders(storage, contract_address.as_str()) {
        None => Vec::new(),
        Some(Ok(found)) => found,
        Some(Err(e)) => {
            return Err(e);
        },
    };
    let ghost existing = list.deep_view();
    proof {
        if stored_orders(m0, contract) is None {
            assert(existing =~= Seq::<OrderResponseView>::empty());
        }
    }
    let n = orders.len();
    let next = match first.checked_add(n as u64) {
        Some(v) => v,
        None => {
            return Err(SeiError::Overflow);
        },
    };
    let ghost rs = placed_orders(views, first);
    let mut i: usize = 0;
    proof {
        assert(existing + rs.take(0) =~= existing);
    }
    while i < n
        invariant
            i <= n,
            n == orders.len(),
            views == orders.deep_view(),
            first + n <= u64::MAX,
            rs == placed_orders(views, first),
            contract == contract_address@,
            now == block.time.spec_seconds(),
            store_entries(*storage) == write_all_placed(m0, contract, rs.take(i as int), now),
            list.deep_view() == existing + rs.take(i as int),
        decreases n - i,
    {
        let order = &orders[i];
        let id = first + i as u64;
        let response = OrderResponse {
            id: id,
            status: OrderStatus::Placed,
            account: String::from_str("test account"),
            contract_address: String::from_str("test contract"),
            price: order.price,
            quantity: order.quantity,
            price_denom: order.price_denom.clone(),
            asset_denom: order.asset_denom.clone(),
            order_type: order.order_type,
            position_direction: order.position_direction,
            data: order.data.clone(),
            status_description: order.status_description.clone(),
        };
        proof {
            assert(views[i as int] == orders@[i as int]@);
            assert(response@ == rs[i as int]);
            assert(rs.take(i + 1).drop_last() =~= rs.take(i as int));
            assert(rs.take(i + 1).last() == rs[i as int]);
            lemma_be_bytes_len(now as nat, 8);
        }
        let value = encode_order_bytes(&response);
        let key = make_order_by_id_key(
            contract_address.as_str(),
            order.price_denom.as_str(),
            order.asset_denom.as_str(),
            id,
        );
        write_key(storage, key.as_str(), value.as_slice());
        let time_key = make_timestamp_key(id);
        let mut time_value: Vec<u8> = Vec::new();
        push_be(&mut time_value, now as u128, 8);
        assert(time_value@ =~= be_bytes(now as nat, 8));
        write_key(storage, time_key.as_str(), time_value.as_slice());
        let ghost before = list.deep_view();
        list.push(response);
        proof {
            assert(list.deep_view() =~= before.push(rs[i as int]));
            assert(existing + rs.take(i + 1) =~= (existing + rs.take(i as int)).push(rs[i as int]));
        }
        i = i + 1;
    }
    proof {
        assert(rs.take(n as int) =~= rs);
        lemma_digits_round_trip(next as nat);
        lemma_encoding_nonempty(digits(next as nat));
    }
    let list_key = make_orders_key(contract_address.as_str());
    let list_value = encode_orders_bytes(&list);
    write_key(storage, list_key.as_str(), list_value.as_slice());
    let counter_key = make_counter_key();
    let counter_text = u64_to_string(next);
    write_key(storage, counter_key.as_str(), counter_text.as_str().as_bytes());
    Ok(AppResponse { data: Some(contract_address) })
}

/// The place of the first order of `list` with the id `id`.
pub fn find_order_index(list: &Vec<OrderResponse>, id: u64) -> (r: Option<usize>)
    ensures
        match r {
            Some(i) => i < list.len() && find_order(list.deep_view(), id) == Some(list[i as int]@)
                && list[i as int].id == id,
            None => find_order(list.deep_view(), id) is None,
        },
{
    let ghost views = list.deep_view();
    let mut i: usize = 0;
    proof {
        assert(views.skip(0) =~= views);
    }
    while i < list.len()
        invariant
            i <= list.len(),
            views == list.deep_view(),
            find_order(views, id) == find_order(views.skip(i as int), id),
        decreases list.len() - i,
    {
        proof {
            assert(views.skip(i as int)[0] == views[i as int]);
            assert(views.skip(i as int).skip(1) =~= views.skip(i + 1));
        }
        if list[i].id == id {
            return Some(i);
        }
        i = i + 1;
    }
    None
}

/// Whether `id` is among `ids`.
pub fn contains_id(ids: &Vec<u64>, id: u64) -> (r: bool)
    ensures
        r == ids@.contains(id),
{
    let mut i: usize = 0;
    while i < ids.len()
        invariant
            i <= ids.len(),
            forall|j: int| 0 <= j < i ==> ids@[j] != id,
        decreases ids.len() - i,
    {
        if ids[i] == id {
            return true;
        }
        i = i + 1;
    }
    false
}

/// The orders of `list` whose id is not among `ids`.
pub fn orders_without(list: &Vec<OrderResponse>, ids: &Vec<u64>) -> (r: Vec<OrderResponse>)
    ensures
        r.deep_view() == without_ids(list.deep_view(), ids@),
{
    let ghost views = list.deep_view();
    let ghost keep = |o: OrderResponseView| !ids@.contains(o.id);
    let mut kept: Vec<OrderResponse> = Vec::new();
    let mut i: usize = 0;
    proof {
        reveal(Seq::filter);
        assert(views.take(0) =~= Seq::<OrderResponseView>::empty());
        assert(kept.deep_view() =~= views.take(0).filter(keep));
    }
    while i < list.len()
        invariant
            i <= list.len(),
            views == list.deep_view(),
            keep == (|o: OrderResponseView| !ids@.contains(o.id)),
            kept.deep_view() == views.take(i as int).filter(keep),
        decreases list.len() - i,
    {
        proof {
            reveal(Seq::filter);
            assert(views.take(i + 1).drop_last() =~= views.take(i as int));
            assert(views.take(i + 1).last() == views[i as int]);
        }
        if !contains_id(ids, list[i].id) {
            let ghost before = kept.deep_view();
            kept.push(list[i].clone());
            assert(kept.deep_view() =~= before.push(views[i as int]));
        }
        i = i + 1;
    }
    proof {
        assert(views.take(list.len() as int) =~= views);
    }
    kept
}

/// Cancels the orders that `cancellations` name for the contract at
/// `contract_address`, and hands the address back.
pub fn execute_cancel_orders_helper(
    storage: &mut MemoryStorage,
    cancellations: Vec<Cancellation>,
    contract_address: String,
) -> (r: Result<AppResponse, SeiError>)
    ensures
        match cancel_orders_spec(
            store_entries(*old(storage)),
            contract_address@,
            cancellation_ids(cancellations@),
        ) {
            Ok(after) => r is Ok && r.unwrap().data is Some && r.unwrap().data.unwrap()@
                == contract_address@ && store_entries(*final(storage)) == after,
            Err(e) => r == Err::<AppResponse, SeiError>(e) && store_entries(*final(storage))
                == store_entries(*old(storage)),
        },
{
    let ghost m0 = store_entries(*storage);
    let ghost contract = contract_address@;
    let list = match read_orders(storage, contract_address.as_str()) {
        None => {
            return Err(SeiError::CancelOrdersNotFound);
        },
        Some(Ok(found)) => found,
        Some(Err(e)) => {
            return Err(e);
        },
    };
    let ghost views = list.deep_view();
    let ghost wanted = cancellation_ids(cancellations@);
    let mut ids: Vec<u64> = Vec::new();
    let mut places: Vec<usize> = Vec::new();
    let mut i: usize = 0;
    while i < cancellations.len()
        invariant
            i <= cancellations.len(),
            views == list.deep_view(),
            wanted == cancellation_ids(cancellations@),
            ids@ == wanted.take(i as int),
            places@.len() == i,
            forall|j: int|
                #![trigger wanted[j]]
                0 <= j < i ==> places@[j] < list.len() && find_order(views, wanted[j]) == Some(
                    list[places@[j] as int]@,
                ),
            store_entries(*storage) == m0,
            m0 == store_entries(*old(storage)),
            contract == contract_address@,
            stored_orders(m0, contract) == Some(Ok::<Seq<OrderResponseView>, SeiError>(views)),
        decreases cancellations.len() - i,
    {
        let id = cancellations[i].id;
        match find_order_index(&list, id) {
            Some(at) => {
                places.push(at);
            },
            None => {
                assert(wanted[i as int] == id);
                assert(find_order(views, wanted[i as int]) is None);
                assert(!all_known(views, wanted));
                return Err(SeiError::CancelOrderIdNotFound);
            },
        }
        ids.push(id);
        assert(ids@ =~= wanted.take(i + 1));
        i = i + 1;
    }
    proof {
        assert(wanted.take(cancellations.len() as int) =~= wanted);
        assert(all_known(views, wanted));
    }
    let mut k: usize = 0;
    while k < ids.len()
        invariant
            k <= ids.len(),
            ids@ == wanted,
            places@.len() == ids@.len(),
            views == list.deep_view(),
            contract == contract_address@,
            forall|j: int|
                #![trigger wanted[j]]
                0 <= j < ids@.len() ==> places@[j] < list.len() && find_order(views, wanted[j])
                    == Some(list[places@[j] as int]@),
            store_entries(*storage) == remove_own_keys(m0, contract, views, wanted.take(k as int)),
        decreases ids.len() - k,
    {
        assert(wanted[k as int] == ids@[k as int]);
        let order = &list[places[k]];
        proof {
            assert(wanted.take(k + 1).drop_last() =~= wanted.take(k as int));
            assert(wanted.take(k + 1).last() == wanted[k as int]);
        }
        let key = make_order_by_id_key(
            contract_address.as_str(),
            order.price_denom.as_str(),
            order.asset_denom.as_str(),
            ids[k],
        );
        delete_key(storage, key.as_str());
        k = k + 1;
    }
    proof {
        assert(wanted.take(ids.len() as int) =~= wanted);
    }
    let kept = orders_without(&list, &ids);
    let list_key = make_orders_key(contract_address.as_str());
    let list_value = encode_orders_bytes(&kept);
    write_key(storage, list_key.as_str(), list_value.as_slice());
    Ok(AppResponse { data: Some(contract_address) })
}

/// Answers `GetOrders`: the whole list of the contract's orders. The
/// account is accepted and not used.
pub fn query_get_orders_helper(
    storage: &MemoryStorage,
    contract_address: String,
    _account: String,
) -> (r: Result<GetOrdersResponse, SeiError>)
    ensures
        match get_orders_spec(store_entries(*storage), contract_address@) {
            Ok(list) => r is Ok && r.unwrap().orders.deep_view() == list,
            Err(e) => r == Err::<GetOrdersResponse, SeiError>(e),
        },
{
    match read_orders(storage, contract_address.as_str()) {
        None => Err(SeiError::GetOrdersNotFound),
        Some(Ok(list)) => Ok(GetOrdersResponse { orders: list }),
        Some(Err(e)) => Err(e),
    }
}

/// Answers `GetOrderById`: the order stored for the contract, the market
/// and the id.
pub fn query_get_order_by_id_helper(
    storage: &MemoryStorage,
    contract_address: String,
    price_denom: String,
    asset_denom: String,
    id: u64,
) -> (r: Result<GetOrderByIdResponse, SeiError>)
    ensures
        match get_order_by_id_spec(
            store_entries(*storage),
            contract_address@,
            price_denom@,
            asset_denom@,
            id,
        ) {
            Ok(o) => r is Ok && r.unwrap().order@ == o,
            Err(e) => r == Err::<GetOrderByIdResponse, SeiError>(e),
        },
{
    let key = make_order_by_id_key(
        contract_address.as_str(),
        price_denom.as_str(),
        asset_denom.as_str(),
        id,
    );
    match read_key(storage, key.as_str()) {
        None => Err(SeiError::GetOrderByIdNotFound),
        Some(bytes) => match decode_order_bytes(bytes.as_slice()) {
            Some(order) => Ok(GetOrderByIdResponse { order }),
            None => Err(SeiError::CorruptStore),
        },
    }
}

} // verus!
