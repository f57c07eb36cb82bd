//! The DEX queries: time-weighted average prices of a contract's markets,
//! and the simulation of an order against the contract's resting orders.
//!
//! The average of a market is taken over the orders of the contract by
//! falling id, the newest first. The price of an order holds from its
//! placement until the placement of the order before it in that walk, or
//! until now for the newest.

use crate::block::BlockInfo;
use crate::decimal::lemma_div_by_seconds;
use crate::decimal::lemma_mul_by_seconds;
use crate::decimal::Decimal;
use crate::encoding::be_value;
use crate::encoding::lemma_be_value_bound;
use crate::encoding::lemma_byte_limits;
use crate::encoding::read_be;
use crate::error::SeiError;
use crate::keys::make_timestamp_key;
use crate::keys::timestamp_key;
use crate::kv::key_bytes;
use crate::kv::read_key;
use crate::order_book::get_orders_spec;
use crate::order_book::read_orders;
use crate::order_book::Entries;
use crate::proto_structs::DexPair;
use crate::proto_structs::DexPairView;
use crate::proto_structs::DexTwap;
use crate::proto_structs::DexTwapView;
use crate::sei_types::Order;
use crate::sei_types::OrderResponse;
use crate::sei_types::OrderResponseView;
use crate::sei_types::OrderView;
use crate::sei_types::PositionDirection;
use crate::store::store_entries;
use cosmwasm_std::MemoryStorage;
use vstd::prelude::*;

verus! {

/// The tick size of prices and quantities in every market: 1/10000.
pub const TICK_ATOMICS: u128 = 100_000_000_000_000;

/// The answer to `DexTwaps`.
#[derive(Debug, PartialEq)]
pub struct DexTwapsResponse {
    pub twaps: Vec<DexTwap>,
}

/// The answer to `OrderSimulation`.
#[derive(Clone, Copy, Debug, PartialEq, Eq, Structural)]
pub struct OrderSimulationResponse {
    pub executed_quantity: Decimal,
}

/// The weighted sum of the prices of one market, in atomic units times
/// seconds.
pub struct PairSum {
    pub asset_denom: String,
    pub price_denom: String,
    pub sum: u128,
}

/// What a [`PairSum`] holds, with its denominations as character
/// sequences.
pub struct PairSumView {
    pub asset_denom: Seq<char>,
    pub price_denom: Seq<char>,
    pub sum: int,
}

impl View for PairSum {
    type V = PairSumView;

    open spec fn view(&self) -> PairSumView {
        PairSumView {
            asset_denom: self.asset_denom@,
            price_denom: self.price_denom@,
            sum: self.sum as int,
        }
    }
}

impl DeepView for PairSum {
    type V = PairSumView;

    open spec fn deep_view(&self) -> PairSumView {
        self@
    }
}

/// Where the walk over the orders stands: the placement time of the order
/// seen last, and the sums of the markets seen so far, in the order in
/// which they were first seen.
pub struct DexWalk {
    pub previous: u64,
    pub sums: Seq<PairSumView>,
}

/// Whether the ids of `list` grow from each order to the next, as they do
/// in every list that the order book writes.
pub open spec fn ids_increasing(list: Seq<OrderResponseView>) -> bool {
    forall|i: int, j: int| 0 <= i < j < list.len() ==> list[i].id < list[j].id
}

/// The place of an order with the id `id` among `sorted`: behind the
/// orders at the start whose id is at least `id`.
pub open spec fn newest_position(sorted: Seq<OrderResponseView>, id: u64) -> int
    decreases sorted.len(),
{
    if sorted.len() > 0 && sorted[0].id >= id {
        1 + newest_position(sorted.skip(1), id)
    } else {
        0
    }
}

/// The orders of `list` by falling id. Orders of the same id keep the
/// order that they have in `list`.
pub open spec fn newest_first(list: Seq<OrderResponseView>) -> Seq<OrderResponseView>
    decreases list.len(),
{
    if list.len() == 0 {
        Seq::empty()
    } else {
        let before = newest_first(list.drop_last());
        before.insert(newest_position(before, list.last().id), list.last())
    }
}

/// The placement time that the store holds for the order `id`.
pub open spec fn stored_timestamp(m: Entries, id: u64) -> Option<u64> {
    let k = key_bytes(timestamp_key(id));
    if m.contains_key(k) && m[k].len() == 8 {
        Some(be_value(m[k]) as u64)
    } else {
        None
    }
}

/// The placement times of the first `k` of `orders`, where the store holds
/// them all.
pub open spec fn stored_timestamps(m: Entries, orders: Seq<OrderResponseView>, k: int) -> Option<
    Seq<u64>,
>
    decreases k,
{
    if k <= 0 {
        Some(Seq::empty())
    } else {
        match stored_timestamps(m, orders, k - 1) {
            Some(before) => match stored_timestamp(m, orders[k - 1].id) {
                Some(t) => Some(before.push(t)),
                None => None,
            },
            None => None,
        }
    }
}

/// The place of a market in `sums`: the length of `sums` where it has
/// none.
pub open spec fn pair_index(sums: Seq<PairSumView>, asset_denom: Seq<char>, price_denom: Seq<char>) -> int
    decreases sums.len(),
{
    if sums.len() == 0 {
        0
    } else if sums[0].asset_denom == asset_denom && sums[0].price_denom == price_denom {
        0
    } else {
        1 + pair_index(sums.skip(1), asset_denom, price_denom)
    }
}

/// The sums with `amount` added to the sum of a market, which comes last
/// where it is new.
pub open spec fn add_to_pair(
    sums: Seq<PairSumView>,
    asset_denom: Seq<char>,
    price_denom: Seq<char>,
    amount: int,
) -> Seq<PairSumView> {
    let i = pair_index(sums, asset_denom, price_denom);
    if i == sums.len() {
        sums.push(PairSumView { asset_denom: asset_denom, price_denom: price_denom, sum: amount })
    } else {
        sums.update(
            i,
            PairSumView {
                asset_denom: sums[i].asset_denom,
                price_denom: sums[i].price_denom,
                sum: sums[i].sum + amount,
            },
        )
    }
}

/// The sum that a market has after `add_to_pair`.
pub open spec fn pair_sum_after(
    sums: Seq<PairSumView>,
    asset_denom: Seq<char>,
    price_denom: Seq<char>,
    amount: int,
) -> int {
    let i = pair_index(sums, asset_denom, price_denom);
    if i == sums.len() {
        amount
    } else {
        sums[i].sum + amount
    }
}

/// The walk after the price of `o` has been counted for `seconds`
/// seconds, and `o` has become the order seen last.
pub open spec fn count_price(w: DexWalk, o: OrderResponseView, placed: u64, seconds: int) -> Result<
    DexWalk,
    SeiError,
> {
    let amount = o.price.atomics * seconds;
    if pair_sum_after(w.sums, o.asset_denom, o.price_denom, amount) > u128::MAX {
        Err(SeiError::Overflow)
    } else {
        Ok(
            DexWalk {
                previous: placed,
                sums: add_to_pair(w.sums, o.asset_denom, o.price_denom, amount),
            },
        )
    }
}

/// One step of the walk, for the order `o` placed at `placed`.
///
/// An order as old as the window or older closes it: its price counts for
/// what is left of the window, if anything is left. An order inside the
/// window counts from its placement to the placement of the order seen
/// before it, unless the window was closed already.
pub open spec fn dex_step(w: DexWalk, o: OrderResponseView, placed: u64, now: u64, lookback: u64) -> Result<
    DexWalk,
    SeiError,
> {
    if placed > now {
        Err(SeiError::FutureTimestamp)
    } else if now - placed >= lookback {
        if now - w.previous <= lookback {
            count_price(w, o, placed, lookback - (now - w.previous))
        } else {
            Ok(DexWalk { previous: placed, sums: w.sums })
        }
    } else if now - w.previous < lookback {
        if placed > w.previous {
            Err(SeiError::TimestampOrder)
        } else {
            count_price(w, o, placed, w.previous - placed)
        }
    } else {
        Ok(w)
    }
}

/// The walk over the first `k` of `orders`, which starts at `now` with no
/// sums.
pub open spec fn dex_walk(
    orders: Seq<OrderResponseView>,
    times: Seq<u64>,
    now: u64,
    lookback: u64,
    k: int,
) -> Result<DexWalk, SeiError>
    decreases k,
{
    if k <= 0 {
        Ok(DexWalk { previous: now, sums: Seq::empty() })
    } else {
        match dex_walk(orders, times, now, lookback, k - 1) {
            Err(e) => Err(e),
            Ok(w) => dex_step(w, orders[k - 1], times[k - 1], now, lookback),
        }
    }
}

/// The averages of the markets: each sum divided by the length of the
/// window, rounded down to 10^-18.
pub open spec fn dex_twaps_of(sums: Seq<PairSumView>, lookback: u64) -> Seq<DexTwapView> {
    Seq::new(
        sums.len(),
        |i: int|
            DexTwapView {
                pair: DexPairView {
                    price_denom: sums[i].price_denom,
                    asset_denom: sums[i].asset_denom,
                    price_tick_size: Decimal { atomics: TICK_ATOMICS },
                    quantity_tick_size: Decimal { atomics: TICK_ATOMICS },
                },
                twap: Decimal { atomics: (sums[i].sum / (lookback as int)) as u128 },
                lookback_seconds: lookback,
            },
    )
}

/// What `DexTwaps` answers for the entries `m` of the store.
///
/// It fails as `GetOrders` does; on an order without a stored placement
/// time, as on a corrupt store; on a window of zero seconds where there
/// are orders; and as the walk over the orders, the newest first, does.
pub open spec fn dex_twaps_spec(m: Entries, contract: Seq<char>, now: u64, lookback: u64) -> Result<
    Seq<DexTwapView>,
    SeiError,
> {
    match get_orders_spec(m, contract) {
        Err(e) => Err(e),
        Ok(list) => {
            let orders = newest_first(list);
            match stored_timestamps(m, orders, orders.len() as int) {
                None => Err(SeiError::CorruptStore),
                Some(times) => {
                    if lookback == 0 && orders.len() > 0 {
                        Err(SeiError::ZeroLookback)
                    } else {
                        match dex_walk(orders, times, now, lookback, orders.len() as int) {
                            Err(e) => Err(e),
                            Ok(w) => Ok(dex_twaps_of(w.sums, lookback)),
                        }
                    }
                },
            }
        },
    }
}

/// What `newest_position` counts: the orders before it have an id of at
/// least `id`, the order at it has a smaller one.
pub proof fn lemma_newest_position(sorted: Seq<OrderResponseView>, id: u64)
    ensures
        0 <= newest_position(sorted, id) <= sorted.len(),
        forall|i: int| 0 <= i < newest_position(sorted, id) ==> (#[trigger] sorted[i]).id >= id,
        newest_position(sorted, id) < sorted.len() ==> sorted[newest_position(sorted, id)].id < id,
    decreases sorted.len(),
{
    if sorted.len() > 0 && sorted[0].id >= id {
        let tail = sorted.skip(1);
        lemma_newest_position(tail, id);
        let p = newest_position(sorted, id);
        assert forall|i: int| 0 <= i < p implies (#[trigger] sorted[i]).id >= id by {
            if i > 0 {
                assert(tail[i - 1] == sorted[i]);
            }
        }
        if p < sorted.len() {
            assert(tail[p - 1] == sorted[p]);
        }
    }
}

/// `newest_first` sorts: it gives the orders of the list, each as often
/// as the list has it, and no id in it is followed by a greater one.
pub proof fn lemma_newest_first_sorts(list: Seq<OrderResponseView>)
    ensures
        newest_first(list).len() == list.len(),
        newest_first(list).to_multiset() == list.to_multiset(),
        forall|a: int, b: int|
            0 <= a < b < list.len() ==> newest_first(list)[a].id >= newest_first(list)[b].id,
    decreases list.len(),
{
    if list.len() == 0 {
        assert(list =~= Seq::<OrderResponseView>::empty());
    } else {
        let before = newest_first(list.drop_last());
        let last = list.last();
        let p = newest_position(before, last.id);
        lemma_newest_first_sorts(list.drop_last());
        lemma_newest_position(before, last.id);
        let all = before.insert(p, last);
        vstd::seq_lib::to_multiset_insert(before, p, last);
        vstd::seq_lib::to_multiset_build(list.drop_last(), last);
        assert(list.drop_last().push(last) =~= list);
        assert forall|a: int, b: int| 0 <= a < b < all.len() implies all[a].id >= all[b].id by {
            if b == p {
                assert(all[a] == before[a]);
            } else if a == p {
                assert(all[b] == before[b - 1]);
                if b - 1 > p {
                    assert(before[p].id >= before[b - 1].id);
                }
            } else {
                let x = if a < p {
                    a
                } else {
                    a - 1
                };
                let y = if b < p {
                    b
                } else {
                    b - 1
                };
                assert(all[a] == before[x]);
                assert(all[b] == before[y]);
            }
        }
    }
}

/// Where the ids of a list grow, as they do in every list that the order
/// book writes, the newest first is the list from its end to its start.
pub proof fn lemma_newest_first_reverses(list: Seq<OrderResponseView>)
    requires
        ids_increasing(list),
    ensures
        newest_first(list) == list.reverse(),
    decreases list.len(),
{
    if list.len() == 0 {
        assert(newest_first(list) =~= list.reverse());
    } else {
        let shorter = list.drop_last();
        let before = newest_first(shorter);
        let last = list.last();
        assert forall|a: int, b: int| 0 <= a < b < shorter.len() implies shorter[a].id
            < shorter[b].id by {
            assert(shorter[a] == list[a]);
            assert(shorter[b] == list[b]);
        }
        lemma_newest_first_reverses(shorter);
        if before.len() > 0 {
            assert(before[0] == shorter[shorter.len() - 1]);
            assert(shorter[shorter.len() - 1] == list[list.len() - 2]);
            assert(list[list.len() - 2].id < list[list.len() - 1].id);
        }
        assert(newest_position(before, last.id) == 0);
        assert(before.insert(0, last) =~= list.reverse());
    }
}

/// The orders of `list` by falling id.
pub fn sort_newest_first(list: &Vec<OrderResponse>) -> (r: Vec<OrderResponse>)
    ensures
        r.deep_view() == newest_first(list.deep_view()),
{
    let ghost views = list.deep_view();
    let mut sorted: Vec<OrderResponse> = Vec::new();
    let mut i: usize = 0;
    proof {
        assert(views.take(0) =~= Seq::<OrderResponseView>::empty());
        assert(sorted.deep_view() =~= newest_first(views.take(0)));
    }
    while i < list.len()
        invariant
            i <= list.len(),
            views == list.deep_view(),
            sorted.deep_view() == newest_first(views.take(i as int)),
        decreases list.len() - i,
    {
        let order = &list[i];
        let ghost before = sorted.deep_view();
        let mut at: usize = 0;
        proof {
            assert(before.skip(0) =~= before);
        }
        while at < sorted.len() && sorted[at].id >= order.id
            invariant
                at <= sorted.len(),
                before == sorted.deep_view(),
                newest_position(before, order.id) == at + newest_position(
                    before.skip(at as int),
                    order.id,
                ),
            decreases sorted.len() - at,
        {
            proof {
                assert(before.skip(at as int)[0] == before[at as int]);
                assert(before[at as int] == sorted@[at as int]@);
                assert(before.skip(at as int).skip(1) =~= before.skip(at + 1));
            }
            at = at + 1;
        }
        proof {
            if at < before.len() {
                assert(before.skip(at as int)[0] == before[at as int]);
                assert(before[at as int] == sorted@[at as int]@);
            }
            assert(newest_position(before, order.id) == at);
            assert(views.take(i + 1).drop_last() =~= views.take(i as int));
            assert(views.take(i + 1).last() == order@);
        }
        sorted.insert(at, order.clone());
        assert(sorted.deep_view() =~= before.insert(at as int, order@));
        i = i + 1;
    }
    proof {
        assert(views.take(list.len() as int) =~= views);
    }
    sorted
}

/// Reads the placement time of the order `id`.
pub fn read_timestamp(storage: &MemoryStorage, id: u64) -> (r: Option<u64>)
    ensures
        r == stored_timestamp(store_entries(*storage), id),
{
    let key = make_timestamp_key(id);
    match read_key(storage, key.as_str()) {
        None => None,
        Some(bytes) => {
            if bytes.len() != 8 {
                None
            } else {
                let value = read_be(bytes.as_slice(), 0, 8);
                proof {
                    assert(bytes@.subrange(0int, 0int + 8) =~= bytes@);
                    lemma_be_value_bound(bytes@);
                    lemma_byte_limits();
                }
                Some(value as u64)
            }
        },
    }
}

/// The place of a market is a place in the sums, or their length.
proof fn lemma_pair_index(sums: Seq<PairSumView>, asset_denom: Seq<char>, price_denom: Seq<char>)
    ensures
        0 <= pair_index(sums, asset_denom, price_denom) <= sums.len(),
    decreases sums.len(),
{
    if sums.len() > 0 {
        lemma_pair_index(sums.skip(1), asset_denom, price_denom);
    }
}

/// The place of a market in `sums`.
fn find_pair(sums: &Vec<PairSum>, asset_denom: &String, price_denom: &String) -> (r: usize)
    ensures
        r == pair_index(sums.deep_view(), asset_denom@, price_denom@),
        r <= sums.len(),
{
    let ghost s = sums.deep_view();
    let mut i: usize = 0;
    proof {
        assert(s.skip(0) =~= s);
    }
    while i < sums.len()
        invariant
            s == sums.deep_view(),
            i <= sums.len(),
            pair_index(s, asset_denom@, price_denom@) == i + pair_index(
                s.skip(i as int),
                asset_denom@,
                price_denom@,
            ),
        decreases sums.len() - i,
    {
        proof {
            assert(s.skip(i as int)[0] == s[i as int]);
            assert(s.skip(i as int).skip(1) =~= s.skip(i + 1));
            assert(s[i as int] == sums@[i as int]@);
        }
        if sums[i].asset_denom == *asset_denom && sums[i].price_denom == *price_denom {
            return i;
        }
        i = i + 1;
    }
    i
}

/// Counts the price of `order` for `seconds` seconds in the sum of its
/// market.
fn count_into(sums: &mut Vec<PairSum>, order: &OrderResponse, seconds: u64) -> (r: Result<
    (),
    SeiError,
>)
    ensures
        pair_sum_after(
            old(sums).deep_view(),
            order@.asset_denom,
            order@.price_denom,
            order.price.atomics * seconds,
        ) <= u128::MAX ==> r is Ok && final(sums).deep_view() == add_to_pair(
            old(sums).deep_view(),
            order@.asset_denom,
            order@.price_denom,
            order.price.atomics * seconds,
        ),
        pair_sum_after(
            old(sums).deep_view(),
            order@.asset_denom,
            order@.price_denom,
            order.price.atomics * seconds,
        ) > u128::MAX ==> r == Err::<(), SeiError>(SeiError::Overflow),
{
    let ghost s = sums.deep_view();
    proof {
        lemma_mul_by_seconds(order.price.atomics, seconds);
        assert(order.price.atomics * seconds >= 0) by (nonlinear_arith)
            requires
                order.price.atomics >= 0,
                seconds >= 0,
        ;
    }
    let amount = match order.price.checked_mul(Decimal::from_seconds(seconds)) {
        Some(v) => v.atomics,
        None => {
            proof {
                let i = pair_index(s, order@.asset_denom, order@.price_denom);
                lemma_pair_index(s, order@.asset_denom, order@.price_denom);
                if i < s.len() {
                    assert(s[i] == sums@[i]@);
                }
            }
            return Err(SeiError::Overflow);
        },
    };
    let at = find_pair(sums, &order.asset_denom, &order.price_denom);
    if at == sums.len() {
        sums.push(
            PairSum {
                asset_denom: order.asset_denom.clone(),
                price_denom: order.price_denom.clone(),
                sum: amount,
            },
        );
        assert(sums.deep_view() =~= add_to_pair(
            s,
            order@.asset_denom,
            order@.price_denom,
            order.price.atomics * seconds,
        ));
        Ok(())
    } else {
        assert(s[at as int] == sums@[at as int]@);
        let total = match sums[at].sum.checked_add(amount) {
            Some(v) => v,
            None => {
                return Err(SeiError::Overflow);
            },
        };
        let entry = sums.remove(at);
        sums.insert(
            at,
            PairSum { asset_denom: entry.asset_denom, price_denom: entry.price_denom, sum: total },
        );
        assert(sums.deep_view() =~= add_to_pair(
            s,
            order@.asset_denom,
            order@.price_denom,
            order.price.atomics * seconds,
        ));
        Ok(())
    }
}

/// A failure among the first steps of the walk is the failure of the
/// whole walk.
proof fn lemma_walk_failure(
    orders: Seq<OrderResponseView>,
    times: Seq<u64>,
    now: u64,
    lookback: u64,
    k: int,
    n: int,
)
    requires
        0 <= k <= n,
        dex_walk(orders, times, now, lookback, k) is Err,
    ensures
        dex_walk(orders, times, now, lookback, n) == dex_walk(orders, times, now, lookback, k),
    decreases n - k,
{
    if k < n {
        lemma_walk_failure(orders, times, now, lookback, k, n - 1);
    }
}

/// Reads the placement times of `orders`, in their order.
pub(crate) fn read_timestamps(storage: &MemoryStorage, orders: &Vec<OrderResponse>) -> (r: Option<
    Vec<u64>,
>)
    ensures
        match r {
            Some(times) => stored_timestamps(
                store_entries(*storage),
                orders.deep_view(),
                orders.len() as int,
            ) == Some(times@) && times@.len() == orders.len(),
            None => stored_timestamps(
                store_entries(*storage),
                orders.deep_view(),
                orders.len() as int,
            ) is None,
        },
{
    let ghost m = store_entries(*storage);
    let ghost views = orders.deep_view();
    let n = orders.len();
    let mut times: Vec<u64> = Vec::new();
    let mut k: usize = 0;
    while k < n
        invariant
            k <= n,
            n == orders.len(),
            views == orders.deep_view(),
            m == store_entries(*storage),
            stored_timestamps(m, views, k as int) == Some(times@),
        decreases n - k,
    {
        let order = &orders[k];
        assert(views[k as int] == order@);
        match read_timestamp(storage, order.id) {
            Some(t) => {
                times.push(t);
            },
            None => {
                proof {
                    lemma_timestamps_failure(m, views, k + 1, n as int);
                }
                return None;
            },
        }
        k = k + 1;
    }
    proof {
        lemma_timestamps_len(m, views, n as int);
    }
    Some(times)
}

/// Walks over `list` in its order, with the placement times `times`, and
/// sums up the prices of each market.
pub(crate) fn walk_orders(list: &Vec<OrderResponse>, times: &Vec<u64>, now: u64, lookback_seconds: u64) -> (r:
    Result<Vec<PairSum>, SeiError>)
    requires
        times@.len() == list.len(),
    ensures
        match dex_walk(list.deep_view(), times@, now, lookback_seconds, list.len() as int) {
            Ok(w) => r is Ok && r.unwrap().deep_view() == w.sums,
            Err(e) => r == Err::<Vec<PairSum>, SeiError>(e),
        },
{
    let ghost orders = list.deep_view();
    let n = list.len();
    let mut previous: u64 = now;
    let mut sums: Vec<PairSum> = Vec::new();
    let mut k: usize = 0;
    assert(sums.deep_view() =~= Seq::<PairSumView>::empty());
    while k < n
        invariant
            k <= n,
            n == list.len(),
            n == times@.len(),
            orders == list.deep_view(),
            previous <= now,
            dex_walk(orders, times@, now, lookback_seconds, k as int) == Ok::<DexWalk, SeiError>(
                DexWalk { previous: previous, sums: sums.deep_view() },
            ),
        decreases n - k,
    {
        let order = &list[k];
        let placed = times[k];
        proof {
            assert(orders[k as int] == order@);
        }
        if placed > now {
            proof {
                lemma_walk_failure(orders, times@, now, lookback_seconds, k + 1, n as int);
            }
            return Err(SeiError::FutureTimestamp);
        }
        if now - placed >= lookback_seconds {
            if now - previous <= lookback_seconds {
                match count_into(&mut sums, order, lookback_seconds - (now - previous)) {
                    Ok(()) => {},
                    Err(e) => {
                        proof {
                            lemma_walk_failure(orders, times@, now, lookback_seconds, k + 1, n as int);
                        }
                        return Err(e);
                    },
                }
            }
            previous = placed;
        } else if now - previous < lookback_seconds {
            if placed > previous {
                proof {
                    lemma_walk_failure(orders, times@, now, lookback_seconds, k + 1, n as int);
                }
                return Err(SeiError::TimestampOrder);
            }
            match count_into(&mut sums, order, previous - placed) {
                Ok(()) => {},
                Err(e) => {
                    proof {
                        lemma_walk_failure(orders, times@, now, lookback_seconds, k + 1, n as int);
                    }
                    return Err(e);
                },
            }
            previous = placed;
        }
        k = k + 1;
    }
    Ok(sums)
}

/// The average of each market: its sum divided by the length of the
/// window.
pub(crate) fn twaps_from_sums(sums: &Vec<PairSum>, lookback_seconds: u64) -> (r: Vec<DexTwap>)
    requires
        lookback_seconds > 0,
    ensures
        r.deep_view() == dex_twaps_of(sums.deep_view(), lookback_seconds),
{
    let ghost walked = sums.deep_view();
    let mut twaps: Vec<DexTwap> = Vec::new();
    let mut i: usize = 0;
    assert(twaps.deep_view() =~= dex_twaps_of(walked, lookback_seconds).take(0));
    while i < sums.len()
        invariant
            i <= sums.len(),
            walked == sums.deep_view(),
            lookback_seconds > 0,
            twaps.deep_view() == dex_twaps_of(walked, lookback_seconds).take(i as int),
        decreases sums.len() - i,
    {
        let entry = &sums[i];
        proof {
            lemma_div_by_seconds(entry.sum, lookback_seconds);
            assert(walked[i as int] == entry@);
        }
        let twap = match Decimal::raw(entry.sum).checked_div(Decimal::from_seconds(lookback_seconds)) {
            Some(v) => v,
            None => Decimal::zero(),
        };
        let tick = Decimal::raw(TICK_ATOMICS);
        let ghost before = twaps.deep_view();
        twaps.push(
            DexTwap {
                pair: DexPair {
                    price_denom: entry.price_denom.clone(),
                    asset_denom: entry.asset_denom.clone(),
                    price_tick_size: tick,
                    quantity_tick_size: tick,
                },
                twap: twap,
                lookback_seconds: lookback_seconds,
            },
        );
        proof {
            let all = dex_twaps_of(walked, lookback_seconds);
            assert(twaps.deep_view() =~= before.push(all[i as int]));
            assert(all.take(i + 1) =~= all.take(i as int).push(all[i as int]));
        }
        i = i + 1;
    }
    proof {
        let all = dex_twaps_of(walked, lookback_seconds);
        assert(all.take(sums.len() as int) =~= all);
    }
    twaps
}

/// Answers `DexTwaps`: the time-weighted average price of each market of
/// the contract over the `lookback_seconds` before the time of `block`.
pub fn get_dex_twaps(
    storage: &MemoryStorage,
    block: &BlockInfo,
    contract_address: String,
    lookback_seconds: u64,
) -> (r: Result<DexTwapsResponse, SeiError>)
    ensures
        match dex_twaps_spec(
            store_entries(*storage),
            contract_address@,
            block.time.spec_seconds(),
            lookback_seconds,
        ) {
            Ok(twaps) => r is Ok && r.unwrap().twaps.deep_view() == twaps,
            Err(e) => r == Err::<DexTwapsResponse, SeiError>(e),
        },
{
    let now = block.time.seconds();
    let list = match read_orders(storage, contract_address.as_str()) {
        None => {
            return Err(SeiError::GetOrdersNotFound);
        },
        Some(Ok(found)) => found,
        Some(Err(e)) => {
            return Err(e);
        },
    };
    let orders = sort_newest_first(&list);
    proof {
        lemma_newest_first_sorts(list.deep_view());
    }
    let times = match read_timestamps(storage, &orders) {
        Some(v) => v,
        None => {
            return Err(SeiError::CorruptStore);
        },
    };
    if orders.len() == 0 {
        let twaps: Vec<DexTwap> = Vec::new();
        assert(twaps.deep_view() =~= dex_twaps_of(Seq::<PairSumView>::empty(), lookback_seconds));
        return Ok(DexTwapsResponse { twaps });
    }
    if lookback_seconds == 0 {
        return Err(SeiError::ZeroLookback);
    }
    let sums = match walk_orders(&orders, &times, now, lookback_seconds) {
        Ok(v) => v,
        Err(e) => {
            return Err(e);
        },
    };
    Ok(DexTwapsResponse { twaps: twaps_from_sums(&sums, lookback_seconds) })
}

/// A placement time missing among the first orders is missing from the
/// whole.
proof fn lemma_timestamps_failure(m: Entries, orders: Seq<OrderResponseView>, k: int, n: int)
    requires
        0 <= k <= n,
        stored_timestamps(m, orders, k) is None,
    ensures
        stored_timestamps(m, orders, n) is None,
    decreases n - k,
{
    if k < n {
        lemma_timestamps_failure(m, orders, k, n - 1);
    }
}

/// There are as many placement times as orders.
proof fn lemma_timestamps_len(m: Entries, orders: Seq<OrderResponseView>, k: int)
    requires
        0 <= k,
    ensures
        stored_timestamps(m, orders, k) is Some ==> stored_timestamps(m, orders, k).unwrap().len()
            == k,
    decreases k,
{
    if k > 0 {
        lemma_timestamps_len(m, orders, k - 1);
    }
}

/// Whether the resting order `r` would trade with the order `o`: it is on
/// the other side, and a long `o` pays at least its price, a short `o`
/// asks at most its price.
pub open spec fn crosses(o: OrderView, r: OrderResponseView) -> bool {
    &&& r.position_direction == o.position_direction.spec_opposite()
    &&& (r.position_direction == PositionDirection::Long && o.price.atomics <= r.price.atomics
        || r.position_direction == PositionDirection::Short && o.price.atomics
        >= r.price.atomics)
}

/// The quantity of the first `k` orders of `list` that would trade with
/// `o`, in atomic units.
pub open spec fn crossing_quantity(list: Seq<OrderResponseView>, o: OrderView, k: int) -> int
    decreases k,
{
    if k <= 0 {
        0
    } else {
        crossing_quantity(list, o, k - 1) + if crosses(o, list[k - 1]) {
            list[k - 1].quantity.atomics as int
        } else {
            0
        }
    }
}

/// What `OrderSimulation` answers: the quantity of the resting orders
/// that would trade with `o`, at most the quantity of `o` itself.
pub open spec fn order_simulation_spec(m: Entries, o: OrderView, contract: Seq<char>) -> Result<
    Decimal,
    SeiError,
> {
    match get_orders_spec(m, contract) {
        Err(e) => Err(e),
        Ok(list) => {
            let total = crossing_quantity(list, o, list.len() as int);
            if total > o.quantity.atomics {
                Ok(o.quantity)
            } else {
                Ok(Decimal { atomics: total as u128 })
            }
        },
    }
}

/// The quantity that would trade is never negative.
proof fn lemma_crossing_quantity_grows(list: Seq<OrderResponseView>, o: OrderView, k: int)
    ensures
        crossing_quantity(list, o, k) >= 0,
    decreases k,
{
    if k > 0 {
        lemma_crossing_quantity_grows(list, o, k - 1);
    }
}

/// Answers `OrderSimulation`: how much of `order` would execute against
/// the resting orders of the contract. The store is not changed.
pub fn get_order_simulation(storage: &MemoryStorage, order: Order, contract_address: String) -> (r:
    Result<OrderSimulationResponse, SeiError>)
    ensures
        match order_simulation_spec(store_entries(*storage), order@, contract_address@) {
            Ok(q) => r == Ok::<OrderSimulationResponse, SeiError>(
                OrderSimulationResponse { executed_quantity: q },
            ),
            Err(e) => r == Err::<OrderSimulationResponse, SeiError>(e),
        },
{
    let list = match read_orders(storage, contract_address.as_str()) {
        None => {
            return Err(SeiError::GetOrdersNotFound);
        },
        Some(Ok(found)) => found,
        Some(Err(e)) => {
            return Err(e);
        },
    };
    let ghost views = list.deep_view();
    let wanted = order.position_direction.opposite();
    let limit = order.quantity.atomics;
    let mut executed: u128 = 0;
    let mut i: usize = 0;
    while i < list.len()
        invariant
            i <= list.len(),
            views == list.deep_view(),
            wanted == order@.position_direction.spec_opposite(),
            limit == order@.quantity.atomics,
            executed <= limit,
            crossing_quantity(views, order@, i as int) >= limit ==> executed == limit,
            crossing_quantity(views, order@, i as int) < limit ==> executed == crossing_quantity(
                views,
                order@,
                i as int,
            ),
        decreases list.len() - i,
    {
        let resting = &list[i];
        proof {
            assert(views[i as int] == resting@);
            lemma_crossing_quantity_grows(views, order@, i as int);
        }
        let long_crosses = match resting.position_direction {
            PositionDirection::Long => order.price.le(&resting.price),
            PositionDirection::Short => false,
        };
        let short_crosses = match resting.position_direction {
            PositionDirection::Long => false,
            PositionDirection::Short => order.price.ge(&resting.price),
        };
        if resting.position_direction == wanted && (long_crosses || short_crosses) {
            if resting.quantity.atomics >= limit - executed {
                executed = limit;
            } else {
                executed = executed + resting.quantity.atomics;
            }
        }
        i = i + 1;
    }
    Ok(OrderSimulationResponse { executed_quantity: Decimal { atomics: executed } })
}

} // verus!
