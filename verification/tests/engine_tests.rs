use cosmwasm_std::testing::MockStorage;
use cosmwasm_std::Storage;
use sei_cosmwasm::block::{BlockInfo, Timestamp};
use sei_cosmwasm::codec::{
    decode_order_bytes, decode_orders_bytes, encode_order_bytes, encode_orders_bytes,
};
use sei_cosmwasm::decimal::Decimal;
use sei_cosmwasm::dex::{get_dex_twaps, get_order_simulation, read_timestamp, sort_newest_first};
use sei_cosmwasm::encoding::{push_be, read_be};
use sei_cosmwasm::error::SeiError;
use sei_cosmwasm::keys::{
    make_counter_key, make_denom_key, make_order_by_id_key, make_orders_key, make_timestamp_key,
};
use sei_cosmwasm::module::{ExecuteOutcome, QueryResponse, SeiModule};
use sei_cosmwasm::msg::{SeiMsg, SudoMsg};
use sei_cosmwasm::oracle::{
    get_exchange_rates, get_oracle_twaps, history_in_order, oracle_twap, ExchangeRates,
};
use sei_cosmwasm::order_book::{
    execute_cancel_orders_helper, execute_place_orders_helper, query_get_order_by_id_helper,
    query_get_orders_helper, read_counter,
};
use sei_cosmwasm::proto_structs::{DenomOracleExchangeRatePair, Epoch, OracleExchangeRate};
use sei_cosmwasm::query::{SeiQuery, SeiQueryWrapper};
use sei_cosmwasm::route::SeiRoute;
use sei_cosmwasm::sei_types::{
    Cancellation, Coin, Order, OrderResponse, OrderStatus, OrderType, PositionDirection,
};
use sei_cosmwasm::text::{parse_u64, u64_to_string};
use sei_cosmwasm::token_factory::{
    execute_burn_tokens_helper, execute_create_denom_helper, execute_mint_tokens_helper,
    BankAction,
};

fn block_at(seconds: u64) -> BlockInfo {
    BlockInfo {
        height: 1,
        time: Timestamp::from_seconds(seconds).unwrap(),
        chain_id: "test".to_string(),
    }
}

fn order(price: u128, quantity: u128, price_denom: &str, direction: PositionDirection) -> Order {
    Order {
        price: Decimal::raw(price),
        quantity: Decimal::raw(quantity),
        price_denom: price_denom.to_string(),
        asset_denom: "ATOM".to_string(),
        order_type: OrderType::Limit,
        position_direction: direction,
        data: "{\"leverage\":\"1\"}".to_string(),
        status_description: "mine".to_string(),
        nominal: Decimal::zero(),
    }
}

fn place(storage: &mut MockStorage, seconds: u64, contract: &str, orders: Vec<Order>) {
    execute_place_orders_helper(
        storage,
        &block_at(seconds),
        orders,
        vec![],
        contract.to_string(),
    )
    .unwrap();
}

fn cancel(id: u64) -> Cancellation {
    Cancellation {
        id,
        contract_address: "ignored".to_string(),
        price_denom: "ignored".to_string(),
        asset_denom: "ignored".to_string(),
        order_type: OrderType::Market,
        position_direction: PositionDirection::Short,
        price: Decimal::zero(),
    }
}

fn orders_of(storage: &MockStorage, contract: &str) -> Vec<OrderResponse> {
    query_get_orders_helper(storage, contract.to_string(), String::new())
        .unwrap()
        .orders
}

fn rate(percent: u64, last_update: u64) -> OracleExchangeRate {
    OracleExchangeRate {
        exchange_rate: Decimal::percent(percent),
        last_update,
        last_update_timestamp: 0,
    }
}

fn pair(denom: &str, percent: u64, last_update: u64) -> DenomOracleExchangeRatePair {
    DenomOracleExchangeRatePair {
        denom: denom.to_string(),
        oracle_exchange_rate: rate(percent, last_update),
    }
}

#[test]
fn placed_orders_come_back_in_order_with_their_fields() {
    let mut storage = MockStorage::new();
    let input = vec![
        order(100, 1000, "USDC", PositionDirection::Long),
        order(200, 2000, "DAI", PositionDirection::Short),
        order(300, 3000, "USDC", PositionDirection::Long),
    ];
    place(&mut storage, 50, "c1", input.clone());

    let list = orders_of(&storage, "c1");
    assert_eq!(list.len(), 3);
    for (i, response) in list.iter().enumerate() {
        assert_eq!(response.id, i as u64);
        assert_eq!(response.status, OrderStatus::Placed);
        assert_eq!(response.price, input[i].price);
        assert_eq!(response.quantity, input[i].quantity);
        assert_eq!(response.price_denom, input[i].price_denom);
        assert_eq!(response.asset_denom, input[i].asset_denom);
        assert_eq!(response.order_type, input[i].order_type);
        assert_eq!(response.position_direction, input[i].position_direction);
        assert_eq!(response.data, input[i].data);
        assert_eq!(response.status_description, input[i].status_description);
        assert_eq!(response.account, "test account");
        assert_eq!(response.contract_address, "test contract");
    }
}

#[test]
fn lookup_by_id_gives_the_entry_of_the_list() {
    let mut storage = MockStorage::new();
    place(
        &mut storage,
        50,
        "c1",
        vec![
            order(100, 1000, "USDC", PositionDirection::Long),
            order(200, 2000, "DAI", PositionDirection::Short),
        ],
    );
    let list = orders_of(&storage, "c1");
    for response in list.iter() {
        let found = query_get_order_by_id_helper(
            &storage,
            "c1".to_string(),
            response.price_denom.clone(),
            response.asset_denom.clone(),
            response.id,
        )
        .unwrap();
        assert_eq!(&found.order, response);
    }
    let missing = query_get_order_by_id_helper(
        &storage,
        "c1".to_string(),
        "USDC".to_string(),
        "ATOM".to_string(),
        1,
    );
    assert_eq!(missing.err(), Some(SeiError::GetOrderByIdNotFound));
}

#[test]
fn cancellation_removes_from_both_views() {
    let mut storage = MockStorage::new();
    place(
        &mut storage,
        50,
        "c1",
        vec![
            order(100, 1000, "USDC", PositionDirection::Long),
            order(200, 2000, "DAI", PositionDirection::Short),
            order(300, 3000, "USDC", PositionDirection::Long),
        ],
    );
    let res = execute_cancel_orders_helper(&mut storage, vec![cancel(1)], "c1".to_string()).unwrap();
    assert_eq!(res.data, Some("c1".to_string()));

    let list = orders_of(&storage, "c1");
    assert_eq!(list.len(), 2);
    assert_eq!(list[0].id, 0);
    assert_eq!(list[1].id, 2);
    let gone = query_get_order_by_id_helper(
        &storage,
        "c1".to_string(),
        "DAI".to_string(),
        "ATOM".to_string(),
        1,
    );
    assert_eq!(gone.err(), Some(SeiError::GetOrderByIdNotFound));
    assert_eq!(
        SeiError::GetOrderByIdNotFound.message(),
        "GetOrderById: order for id does not exist"
    );
    assert!(query_get_order_by_id_helper(
        &storage,
        "c1".to_string(),
        "USDC".to_string(),
        "ATOM".to_string(),
        2,
    )
    .is_ok());
}

#[test]
fn cancelling_an_unknown_id_fails_and_changes_nothing() {
    let mut storage = MockStorage::new();
    place(
        &mut storage,
        50,
        "c1",
        vec![
            order(100, 1000, "USDC", PositionDirection::Long),
            order(200, 2000, "DAI", PositionDirection::Short),
        ],
    );
    let res = execute_cancel_orders_helper(
        &mut storage,
        vec![cancel(0), cancel(7)],
        "c1".to_string(),
    );
    assert_eq!(res.err(), Some(SeiError::CancelOrderIdNotFound));
    assert_eq!(orders_of(&storage, "c1").len(), 2);
    assert!(query_get_order_by_id_helper(
        &storage,
        "c1".to_string(),
        "USDC".to_string(),
        "ATOM".to_string(),
        0,
    )
    .is_ok());
}

#[test]
fn cancelling_for_a_contract_without_orders_fails() {
    let mut storage = MockStorage::new();
    let res = execute_cancel_orders_helper(&mut storage, vec![cancel(0)], "nobody".to_string());
    let err = res.err().unwrap();
    assert_eq!(err, SeiError::CancelOrdersNotFound);
    assert_eq!(
        err.message(),
        "CancelOrders: orders for contract_address do not exist"
    );
    let res = query_get_orders_helper(&storage, "nobody".to_string(), String::new());
    let err = res.err().unwrap();
    assert_eq!(err, SeiError::GetOrdersNotFound);
    assert_eq!(
        err.message(),
        "GetOrders: orders for contract_address do not exist"
    );
}

#[test]
fn ids_are_never_given_out_twice_across_contracts() {
    let mut storage = MockStorage::new();
    place(
        &mut storage,
        50,
        "first",
        vec![
            order(100, 1000, "USDC", PositionDirection::Long),
            order(200, 2000, "DAI", PositionDirection::Short),
        ],
    );
    place(
        &mut storage,
        51,
        "second",
        vec![
            order(100, 1000, "USDC", PositionDirection::Long),
            order(200, 2000, "DAI", PositionDirection::Short),
        ],
    );
    place(
        &mut storage,
        52,
        "first",
        vec![order(300, 3000, "USDC", PositionDirection::Long)],
    );
    let first: Vec<u64> = orders_of(&storage, "first").iter().map(|o| o.id).collect();
    let second: Vec<u64> = orders_of(&storage, "second").iter().map(|o| o.id).collect();
    assert_eq!(first, vec![0, 1, 4]);
    assert_eq!(second, vec![2, 3]);
    assert_eq!(read_counter(&storage), Ok(5));
}

#[test]
fn the_store_holds_the_documented_keys() {
    let mut storage = MockStorage::new();
    let orders: Vec<Order> = (0..12)
        .map(|_| order(100, 1000, "USDC", PositionDirection::Long))
        .collect();
    place(&mut storage, 1_571_797_419, "c1", orders);

    assert_eq!(storage.get(b"OrderIdCounter"), Some(b"12".to_vec()));
    assert_eq!(
        storage.get(b"OrderTimestamp-11"),
        Some(1_571_797_419u64.to_be_bytes().to_vec())
    );
    let stored_list: serde_json::Value =
        serde_json::from_slice(&storage.get(b"c1-OrderResponses").unwrap()).unwrap();
    assert_eq!(stored_list.as_array().unwrap().len(), 12);
    let stored_order: serde_json::Value =
        serde_json::from_slice(&storage.get(b"c1-OrderResponseById-USDC-ATOM-11").unwrap())
            .unwrap();
    assert_eq!(stored_order, stored_list[11]);
    assert_eq!(stored_order["id"].as_u64(), Some(11));
    assert_eq!(stored_order["price"].as_str(), Some("0.0000000000000001"));
    assert_eq!(storage.get(b"c1-OrderResponseById-USDC-ATOM-12"), None);
    assert_eq!(read_timestamp(&storage, 11), Some(1_571_797_419));
    assert_eq!(read_timestamp(&storage, 12), None);

    assert_eq!(make_counter_key(), "OrderIdCounter");
    assert_eq!(make_orders_key("c1"), "c1-OrderResponses");
    assert_eq!(
        make_order_by_id_key("c1", "USDC", "ATOM", 11),
        "c1-OrderResponseById-USDC-ATOM-11"
    );
    assert_eq!(make_timestamp_key(0), "OrderTimestamp-0");
    assert_eq!(make_denom_key("admin", "test"), "factory/admin/test");
}

#[test]
fn a_stored_counter_is_read_as_decimal_text() {
    let mut storage = MockStorage::new();
    assert_eq!(read_counter(&storage), Ok(0));
    storage.set(b"OrderIdCounter", b"41");
    place(
        &mut storage,
        5,
        "c1",
        vec![order(100, 1000, "USDC", PositionDirection::Long)],
    );
    assert_eq!(orders_of(&storage, "c1")[0].id, 41);
    assert_eq!(storage.get(b"OrderIdCounter"), Some(b"42".to_vec()));
}

#[test]
fn a_malformed_store_is_reported_and_left_alone() {
    let mut storage = MockStorage::new();
    storage.set(b"OrderIdCounter", b"forty");
    let res = execute_place_orders_helper(
        &mut storage,
        &block_at(5),
        vec![order(100, 1000, "USDC", PositionDirection::Long)],
        vec![],
        "c1".to_string(),
    );
    assert_eq!(res.err(), Some(SeiError::CorruptStore));
    assert_eq!(storage.get(b"c1-OrderResponses"), None);

    let mut storage = MockStorage::new();
    storage.set(b"c1-OrderResponses", b"[{}]");
    let res = query_get_orders_helper(&storage, "c1".to_string(), String::new());
    assert_eq!(res.err(), Some(SeiError::CorruptStore));
    let res = execute_cancel_orders_helper(&mut storage, vec![cancel(0)], "c1".to_string());
    assert_eq!(res.err(), Some(SeiError::CorruptStore));
    assert_eq!(storage.get(b"c1-OrderResponses"), Some(b"[{}]".to_vec()));
}

#[test]
fn a_full_counter_refuses_further_orders() {
    let mut storage = MockStorage::new();
    storage.set(b"OrderIdCounter", b"18446744073709551615");
    let res = execute_place_orders_helper(
        &mut storage,
        &block_at(5),
        vec![order(100, 1000, "USDC", PositionDirection::Long)],
        vec![],
        "c1".to_string(),
    );
    assert_eq!(res.err(), Some(SeiError::Overflow));
    assert_eq!(storage.get(b"c1-OrderResponses"), None);
    assert_eq!(
        storage.get(b"OrderIdCounter"),
        Some(b"18446744073709551615".to_vec())
    );
}

#[test]
fn oracle_twap_with_history_older_than_the_window() {
    // One update at time 0, looked at from time 0 over 10 seconds.
    let history = vec![rate(70, 0)];
    assert_eq!(oracle_twap(&history, 0, 10), Ok(Decimal::percent(70)));
    // The same update, long after.
    assert_eq!(
        oracle_twap(&history, 1_571_797_419, 10),
        Ok(Decimal::percent(70))
    );
}

#[test]
fn oracle_twap_averages_over_the_window() {
    let t = 1_571_797_411u64;
    let history = vec![rate(90, t + 4), rate(80, t)];
    // 90% for 4 seconds and 80% for 6 seconds.
    assert_eq!(oracle_twap(&history, t + 8, 10), Ok(Decimal::percent(84)));
    // 90% for no time and 80% for 10 seconds.
    assert_eq!(oracle_twap(&history, t + 4, 10), Ok(Decimal::percent(80)));
    // The older update lies at the edge of the window: 90% for 6 seconds,
    // 80% for 4 seconds.
    assert_eq!(oracle_twap(&history, t + 10, 10), Ok(Decimal::percent(86)));
    // Both updates are older than the window.
    assert_eq!(oracle_twap(&history, t + 15, 10), Ok(Decimal::percent(90)));
    // Rounding down: 90% for 1 second and 80% for 2 seconds, over 3.
    assert_eq!(
        oracle_twap(&history, t + 5, 3),
        Ok(Decimal::raw(833_333_333_333_333_333))
    );
}

#[test]
fn oracle_twap_failures() {
    let history = vec![rate(90, 100), rate(80, 50)];
    assert_eq!(
        oracle_twap(&history, 99, 10),
        Err(SeiError::FutureTimestamp)
    );
    assert_eq!(oracle_twap(&history, 100, 0), Err(SeiError::ZeroLookback));
    assert_eq!(oracle_twap(&history, 101, 0), Ok(Decimal::percent(90)));
    let huge = vec![OracleExchangeRate {
        exchange_rate: Decimal::raw(u128::MAX),
        last_update: 100,
        last_update_timestamp: 0,
    }];
    assert_eq!(oracle_twap(&huge, 102, 10), Err(SeiError::Overflow));
    assert_eq!(oracle_twap(&huge, 100, 1), Ok(Decimal::raw(u128::MAX)));
    assert_eq!(oracle_twap(&vec![], 100, 10), Err(SeiError::HistoryOutOfOrder));
    assert_eq!(
        oracle_twap(&vec![rate(80, 50), rate(90, 100)], 100, 10),
        Err(SeiError::HistoryOutOfOrder)
    );
    assert_eq!(
        oracle_twap(&vec![rate(80, 50), rate(90, 50)], 100, 10),
        Err(SeiError::HistoryOutOfOrder)
    );
    assert!(history_in_order(&history));
    assert!(!history_in_order(&vec![]));
}

#[test]
fn histories_are_kept_newest_first_without_repeated_times() {
    let rates = ExchangeRates::from_pairs(&vec![
        pair("uusdc", 80, 5),
        pair("usei", 70, 0),
        pair("uusdc", 90, 9),
        pair("uusdc", 85, 7),
        pair("uusdc", 99, 9),
        pair("uatom", 10, 3),
    ]);
    assert_eq!(rates.len(), 3);
    let current = get_exchange_rates(&rates).denom_oracle_exchange_rate_pairs;
    assert_eq!(
        current,
        vec![
            pair("uusdc", 90, 9),
            pair("usei", 70, 0),
            pair("uatom", 10, 3)
        ]
    );
    // 90% for 1 second, 85% for 2, 80% for 2, and 80% for the 5 before.
    let twaps = get_oracle_twaps(&block_at(10), &rates, 10)
        .unwrap()
        .oracle_twaps;
    assert_eq!(twaps.len(), 3);
    assert_eq!(twaps[0].denom, "uusdc");
    assert_eq!(twaps[0].twap, Decimal::percent(82));
    assert_eq!(twaps[0].lookback_seconds, 10);
    assert_eq!(twaps[1].twap, Decimal::percent(70));
    assert_eq!(twaps[2].twap, Decimal::percent(10));
    assert_eq!(
        get_oracle_twaps(&block_at(8), &rates, 10).err(),
        Some(SeiError::FutureTimestamp)
    );
}

#[test]
fn dex_twap_of_two_markets() {
    let mut storage = MockStorage::new();
    place(
        &mut storage,
        100,
        "c1",
        vec![order(100, 1, "USDC", PositionDirection::Long)],
    );
    place(
        &mut storage,
        104,
        "c1",
        vec![order(300, 1, "DAI", PositionDirection::Long)],
    );
    place(
        &mut storage,
        107,
        "c1",
        vec![order(500, 1, "USDC", PositionDirection::Long)],
    );
    // From 110 over 20 seconds: 500 for 3 seconds, 300 for 3, 100 for 4.
    let twaps = get_dex_twaps(&storage, &block_at(110), "c1".to_string(), 20)
        .unwrap()
        .twaps;
    assert_eq!(twaps.len(), 2);
    assert_eq!(twaps[0].pair.price_denom, "USDC");
    assert_eq!(twaps[0].pair.asset_denom, "ATOM");
    assert_eq!(twaps[0].pair.price_tick_size, Decimal::raw(100_000_000_000_000));
    assert_eq!(
        twaps[0].pair.quantity_tick_size,
        Decimal::raw(100_000_000_000_000)
    );
    assert_eq!(twaps[0].twap, Decimal::raw((500 * 3 + 100 * 4) / 20));
    assert_eq!(twaps[0].lookback_seconds, 20);
    assert_eq!(twaps[1].pair.price_denom, "DAI");
    assert_eq!(twaps[1].twap, Decimal::raw(300 * 3 / 20));

    // From 110 over 5 seconds: 500 for 3 seconds, 300 for the 2 left; the
    // oldest order lies behind the closed window.
    let twaps = get_dex_twaps(&storage, &block_at(110), "c1".to_string(), 5)
        .unwrap()
        .twaps;
    assert_eq!(twaps.len(), 2);
    assert_eq!(twaps[0].twap, Decimal::raw(500 * 3 / 5));
    assert_eq!(twaps[1].twap, Decimal::raw(300 * 2 / 5));
}

fn resting(id: u64, price: u128, description: &str) -> OrderResponse {
    OrderResponse {
        id,
        status: OrderStatus::Placed,
        account: "test account".to_string(),
        contract_address: "test contract".to_string(),
        price: Decimal::raw(price),
        quantity: Decimal::raw(1),
        price_denom: "USDC".to_string(),
        asset_denom: "ATOM".to_string(),
        order_type: OrderType::Limit,
        position_direction: PositionDirection::Long,
        data: "".to_string(),
        status_description: description.to_string(),
    }
}

#[test]
fn orders_are_walked_by_falling_id() {
    let list = vec![
        resting(5, 300, "a"),
        resting(9, 500, "b"),
        resting(3, 100, "c"),
        resting(5, 300, "d"),
        resting(9, 500, "e"),
    ];
    let sorted = sort_newest_first(&list);
    let seen: Vec<(u64, &str)> = sorted
        .iter()
        .map(|o| (o.id, o.status_description.as_str()))
        .collect();
    assert_eq!(seen, vec![(9, "b"), (9, "e"), (5, "a"), (5, "d"), (3, "c")]);
    assert_eq!(sort_newest_first(&vec![]), vec![]);

    let mut storage = MockStorage::new();
    let stored = vec![resting(5, 300, "a"), resting(9, 500, "b"), resting(3, 100, "c")];
    storage.set(b"c1-OrderResponses", &encode_orders_bytes(&stored));
    storage.set(b"OrderTimestamp-3", &100u64.to_be_bytes());
    storage.set(b"OrderTimestamp-5", &104u64.to_be_bytes());
    storage.set(b"OrderTimestamp-9", &107u64.to_be_bytes());
    // From 110 over 20 seconds: 500 for 3 seconds, 300 for 3, 100 for 4.
    let twaps = get_dex_twaps(&storage, &block_at(110), "c1".to_string(), 20)
        .unwrap()
        .twaps;
    assert_eq!(twaps.len(), 1);
    assert_eq!(
        twaps[0].twap,
        Decimal::raw((500 * 3 + 300 * 3 + 100 * 4) / 20)
    );
}

#[test]
fn dex_twap_failures() {
    let mut storage = MockStorage::new();
    assert_eq!(
        get_dex_twaps(&storage, &block_at(110), "c1".to_string(), 5).err(),
        Some(SeiError::GetOrdersNotFound)
    );
    place(
        &mut storage,
        100,
        "c1",
        vec![order(100, 1, "USDC", PositionDirection::Long)],
    );
    assert_eq!(
        get_dex_twaps(&storage, &block_at(110), "c1".to_string(), 0).err(),
        Some(SeiError::ZeroLookback)
    );
    assert_eq!(
        get_dex_twaps(&storage, &block_at(99), "c1".to_string(), 5).err(),
        Some(SeiError::FutureTimestamp)
    );
    // An older block time for a newer order.
    place(
        &mut storage,
        90,
        "c1",
        vec![order(100, 1, "USDC", PositionDirection::Long)],
    );
    assert_eq!(
        get_dex_twaps(&storage, &block_at(110), "c1".to_string(), 50).err(),
        Some(SeiError::TimestampOrder)
    );
    storage.remove(b"OrderTimestamp-0");
    assert_eq!(
        get_dex_twaps(&storage, &block_at(110), "c1".to_string(), 50).err(),
        Some(SeiError::CorruptStore)
    );
    // After every order has been cancelled there is nothing to average.
    execute_cancel_orders_helper(&mut storage, vec![cancel(0), cancel(1)], "c1".to_string())
        .unwrap();
    assert_eq!(
        get_dex_twaps(&storage, &block_at(110), "c1".to_string(), 0)
            .unwrap()
            .twaps,
        vec![]
    );
}

#[test]
fn order_simulation_is_capped_by_the_order() {
    let mut storage = MockStorage::new();
    place(
        &mut storage,
        100,
        "c1",
        vec![
            order(100, 1000, "USDC", PositionDirection::Long),
            order(90, u128::MAX, "USDC", PositionDirection::Long),
            order(110, 7, "USDC", PositionDirection::Short),
        ],
    );
    let sim = |price: u128, quantity: u128, direction: PositionDirection| {
        get_order_simulation(
            &storage,
            order(price, quantity, "USDC", direction),
            "c1".to_string(),
        )
        .unwrap()
        .executed_quantity
    };
    // A short order meets the long orders at or above its price.
    assert_eq!(sim(100, 500, PositionDirection::Short), Decimal::raw(500));
    assert_eq!(sim(100, 5000, PositionDirection::Short), Decimal::raw(1000));
    assert_eq!(sim(101, 5000, PositionDirection::Short), Decimal::raw(0));
    // The sum of what is met may pass every number; the cap still holds.
    assert_eq!(
        sim(90, u128::MAX, PositionDirection::Short),
        Decimal::raw(u128::MAX)
    );
    // A long order meets the short orders at or below its price.
    assert_eq!(sim(110, 500, PositionDirection::Long), Decimal::raw(7));
    assert_eq!(sim(109, 500, PositionDirection::Long), Decimal::raw(0));
    assert_eq!(
        get_order_simulation(
            &storage,
            order(1, 1, "USDC", PositionDirection::Long),
            "nobody".to_string()
        )
        .err(),
        Some(SeiError::GetOrdersNotFound)
    );
    // Nothing was consumed.
    assert_eq!(orders_of(&storage, "c1").len(), 3);
}

#[test]
fn only_the_creator_may_mint_and_burn() {
    let mut storage = MockStorage::new();
    let res =
        execute_create_denom_helper(&mut storage, "admin".to_string(), "test".to_string()).unwrap();
    assert_eq!(res.data, Some("factory/admin/test".to_string()));
    assert_eq!(
        storage.get(b"factory/admin/test"),
        Some(b"admin".to_vec())
    );
    let coin = Coin {
        denom: "factory/admin/test".to_string(),
        amount: 5,
    };

    assert_eq!(
        execute_mint_tokens_helper(&storage, "admin".to_string(), coin.clone()),
        Ok(BankAction::Mint {
            to_address: "admin".to_string(),
            amount: vec![coin.clone()],
        })
    );
    assert_eq!(
        execute_burn_tokens_helper(&storage, "admin".to_string(), coin.clone()),
        Ok(BankAction::Burn {
            sender: "admin".to_string(),
            amount: vec![coin.clone()],
        })
    );
    for other in ["fake", "admi", "admin2", ""] {
        let err = execute_mint_tokens_helper(&storage, other.to_string(), coin.clone())
            .err()
            .unwrap();
        assert_eq!(err, SeiError::MintNotOwner);
        assert_eq!(err.message(), "Must be owner of coin factory denom to mint");
        let err = execute_burn_tokens_helper(&storage, other.to_string(), coin.clone())
            .err()
            .unwrap();
        assert_eq!(err, SeiError::BurnNotOwner);
        assert_eq!(err.message(), "Must be owner of coin factory denom to burn");
    }
    let unknown = Coin {
        denom: "factory/admin/other".to_string(),
        amount: 5,
    };
    assert_eq!(
        execute_mint_tokens_helper(&storage, "admin".to_string(), unknown).err(),
        Some(SeiError::MintNotOwner)
    );
}

#[test]
fn a_denomination_is_created_once() {
    let mut storage = MockStorage::new();
    execute_create_denom_helper(&mut storage, "admin".to_string(), "test".to_string()).unwrap();
    let err = execute_create_denom_helper(&mut storage, "admin".to_string(), "test".to_string())
        .err()
        .unwrap();
    assert_eq!(err, SeiError::DenomAlreadyExists);
    assert_eq!(err.message(), "denom already exists");
    assert_eq!(
        execute_create_denom_helper(&mut storage, String::new(), "test".to_string()).err(),
        Some(SeiError::EmptyCreator)
    );
    assert_eq!(storage.get(b"factory//test"), None);
}

#[test]
fn unsupported_messages_and_queries_are_refused() {
    let module = SeiModule::default();
    let mut storage = MockStorage::new();
    let res = module.execute(
        &mut storage,
        &block_at(1),
        "admin".to_string(),
        SeiMsg::ChangeAdmin {
            denom: "factory/admin/test".to_string(),
            new_admin_address: "other".to_string(),
        },
    );
    assert_eq!(res.err(), Some(SeiError::Unsupported));
    let res = module.query(
        &storage,
        &block_at(1),
        SeiQueryWrapper {
            route: SeiRoute::Dex,
            query_data: SeiQuery::GetLatestPrice {
                contract_address: "c1".to_string(),
                price_denom: "USDC".to_string(),
                asset_denom: "ATOM".to_string(),
            },
        },
    );
    assert_eq!(res.err(), Some(SeiError::Unsupported));
    let res = module.query(
        &storage,
        &block_at(1),
        SeiQueryWrapper {
            route: SeiRoute::Evm,
            query_data: SeiQuery::StaticCall {
                from: "a".to_string(),
                to: "b".to_string(),
                data: "c".to_string(),
            },
        },
    );
    match res.unwrap() {
        QueryResponse::StaticCall(res) => assert_eq!(res.data, "static call response"),
        other => panic!("unexpected answer: {:?}", other),
    }
    let res = module
        .sudo(SudoMsg::BulkOrderCancellations { ids: vec![1, 2] })
        .unwrap();
    assert_eq!(res.data, None);
}

#[test]
fn the_module_places_through_its_dispatch() {
    let module = SeiModule::new();
    let mut storage = MockStorage::new();
    let res = module
        .execute(
            &mut storage,
            &block_at(7),
            "admin".to_string(),
            SeiMsg::PlaceOrders {
                orders: vec![order(100, 1000, "USDC", PositionDirection::Long)],
                funds: vec![],
                contract_address: "c1".to_string(),
            },
        )
        .unwrap();
    match res {
        ExecuteOutcome::Response(a) => assert_eq!(a.data, Some("c1".to_string())),
        other => panic!("unexpected outcome: {:?}", other),
    }
    assert_eq!(read_timestamp(&storage, 0), Some(7));
    let epoch = Epoch {
        genesis_time: "2022-09-15T15:53:04.303018Z".to_string(),
        duration: 61,
        current_epoch: 2,
        current_epoch_start_time: "later".to_string(),
        current_epoch_height: 3,
    };
    let moved = module.set_epoch(epoch.clone());
    match moved
        .query(
            &storage,
            &block_at(7),
            SeiQueryWrapper {
                route: SeiRoute::Epoch,
                query_data: SeiQuery::Epoch {},
            },
        )
        .unwrap()
    {
        QueryResponse::Epoch(res) => assert_eq!(res.epoch, epoch),
        other => panic!("unexpected answer: {:?}", other),
    }
}

#[test]
fn decimal_arithmetic_is_that_of_the_chain() {
    let one_and_a_half = Decimal::raw(1_500_000_000_000_000_000);
    assert_eq!(
        one_and_a_half.checked_mul(one_and_a_half),
        Some(Decimal::raw(2_250_000_000_000_000_000))
    );
    assert_eq!(
        Decimal::raw(1).checked_mul(Decimal::raw(999_999_999_999_999_999)),
        Some(Decimal::zero())
    );
    assert_eq!(Decimal::raw(u128::MAX).checked_mul(Decimal::one()), Some(Decimal::raw(u128::MAX)));
    assert_eq!(
        Decimal::raw(u128::MAX).checked_mul(Decimal::raw(1_000_000_000_000_000_001)),
        None
    );
    assert_eq!(
        Decimal::checked_from_ratio(1, 3),
        Some(Decimal::raw(333_333_333_333_333_333))
    );
    assert_eq!(
        Decimal::checked_from_ratio(1, 10000),
        Some(Decimal::raw(100_000_000_000_000))
    );
    assert_eq!(Decimal::checked_from_ratio(1, 0), None);
    assert_eq!(Decimal::checked_from_ratio(u128::MAX, 1), None);
    assert_eq!(
        Decimal::one().checked_div(Decimal::from_seconds(3)),
        Some(Decimal::raw(333_333_333_333_333_333))
    );
    assert_eq!(Decimal::one().checked_div(Decimal::zero()), None);
    assert_eq!(
        Decimal::raw(7).checked_div(Decimal::from_seconds(2)),
        Some(Decimal::raw(3))
    );
    assert_eq!(Decimal::raw(u128::MAX).checked_div(Decimal::raw(1)), None);
    assert_eq!(
        Decimal::raw(u128::MAX).checked_add(Decimal::raw(1)),
        None
    );
    assert_eq!(
        Decimal::percent(80).checked_add(Decimal::percent(4)),
        Some(Decimal::percent(84))
    );
    assert_eq!(Decimal::percent(100), Decimal::one());
    assert_eq!(Decimal::percent(84).atomics(), 840_000_000_000_000_000);
    assert_eq!(Decimal::from_seconds(2).atomics(), 2_000_000_000_000_000_000);
    assert!(Decimal::zero().is_zero());
    assert!(Decimal::raw(1).gt(&Decimal::zero()));
    assert!(Decimal::raw(1).le(&Decimal::raw(1)));
    assert!(Decimal::raw(1).ge(&Decimal::raw(1)));
}

#[test]
fn numbers_as_decimal_text() {
    assert_eq!(u64_to_string(0), "0");
    assert_eq!(u64_to_string(10), "10");
    assert_eq!(u64_to_string(u64::MAX), "18446744073709551615");
    assert_eq!(parse_u64("0"), Some(0));
    assert_eq!(parse_u64("007"), Some(7));
    assert_eq!(parse_u64("18446744073709551615"), Some(u64::MAX));
    assert_eq!(parse_u64("18446744073709551616"), None);
    assert_eq!(parse_u64("99999999999999999999999"), None);
    assert_eq!(parse_u64(""), None);
    assert_eq!(parse_u64("+5"), None);
    assert_eq!(parse_u64("1a"), None);
    assert_eq!(parse_u64("١"), None);
}

#[test]
fn numbers_as_big_endian_bytes() {
    let mut out = vec![9u8];
    push_be(&mut out, 0x0102_0304_0506_0708, 8);
    assert_eq!(out, vec![9, 1, 2, 3, 4, 5, 6, 7, 8]);
    assert_eq!(read_be(&out, 1, 8), 0x0102_0304_0506_0708);
    assert_eq!(read_be(&out, 0, 2), 0x0901);
    assert_eq!(read_be(&out, 3, 0), 0);
    let mut wide = Vec::new();
    push_be(&mut wide, u128::MAX - 1, 16);
    assert_eq!(wide.len(), 16);
    assert_eq!(read_be(&wide, 0, 16), u128::MAX - 1);
    let mut low = Vec::new();
    push_be(&mut low, 0x0102_0304, 2);
    assert_eq!(low, vec![3, 4]);
}

fn stored_order(id: u64) -> OrderResponse {
    OrderResponse {
        id,
        status: OrderStatus::Fulfilled,
        account: "acco\u{fc}nt \"A\"".to_string(),
        contract_address: "".to_string(),
        price: Decimal::raw(u128::MAX),
        quantity: Decimal::raw(1),
        price_denom: "U-S-D-C".to_string(),
        asset_denom: "\u{539f}\u{5b50}".to_string(),
        order_type: OrderType::Fokmarketbyvalue,
        position_direction: PositionDirection::Short,
        data: "{\"k\":\"v\\w\"}".to_string(),
        status_description: "line\nbreak\ttab\u{1}\u{1f}\u{7f}\u{8}\u{c}\r".to_string(),
    }
}

#[test]
fn stored_orders_are_json() {
    let one = stored_order(u64::MAX);
    let bytes = encode_order_bytes(&one);
    let expected = "{\"id\":18446744073709551615,\"status\":3,\
        \"account\":\"acco\u{fc}nt \\\"A\\\"\",\"contract_address\":\"\",\
        \"price\":\"340282366920938463463.374607431768211455\",\
        \"quantity\":\"0.000000000000000001\",\
        \"price_denom\":\"U-S-D-C\",\"asset_denom\":\"\u{539f}\u{5b50}\",\
        \"order_type\":4,\"position_direction\":1,\
        \"data\":\"{\\\"k\\\":\\\"v\\\\w\\\"}\",\
        \"status_description\":\"line\\nbreak\\ttab\\u0001\\u001f\u{7f}\\b\\f\\r\"}";
    assert_eq!(String::from_utf8(bytes.clone()).unwrap(), expected);
    assert_eq!(decode_order_bytes(&bytes), Some(one.clone()));

    // A JSON reader of its own reads the same values.
    let value: serde_json::Value = serde_json::from_slice(&bytes).unwrap();
    assert_eq!(value["id"].as_u64(), Some(u64::MAX));
    assert_eq!(value["status"].as_u64(), Some(3));
    assert_eq!(value["account"].as_str(), Some(one.account.as_str()));
    assert_eq!(value["contract_address"].as_str(), Some(""));
    assert_eq!(value["asset_denom"].as_str(), Some(one.asset_denom.as_str()));
    assert_eq!(value["data"].as_str(), Some(one.data.as_str()));
    assert_eq!(
        value["status_description"].as_str(),
        Some(one.status_description.as_str())
    );
    assert_eq!(
        value["price"].as_str().unwrap(),
        cosmwasm_std::Decimal::raw(u128::MAX).to_string()
    );
    assert_eq!(
        value["quantity"].as_str().unwrap(),
        cosmwasm_std::Decimal::raw(1).to_string()
    );
    // A JSON writer of its own writes the same texts.
    assert_eq!(
        serde_json::to_string(&one.status_description).unwrap(),
        "\"line\\nbreak\\ttab\\u0001\\u001f\u{7f}\\b\\f\\r\""
    );

    let list = vec![one, stored_order(0), stored_order(5)];
    let bytes = encode_orders_bytes(&list);
    assert_eq!(bytes[0], b'[');
    assert_eq!(bytes[bytes.len() - 1], b']');
    let value: serde_json::Value = serde_json::from_slice(&bytes).unwrap();
    assert_eq!(value.as_array().unwrap().len(), 3);
    assert_eq!(value[2]["id"].as_u64(), Some(5));
    assert_eq!(decode_orders_bytes(&bytes), Some(list));
    assert_eq!(encode_orders_bytes(&vec![]), b"[]".to_vec());
    assert_eq!(decode_orders_bytes(b"[]"), Some(vec![]));
}

#[test]
fn amounts_are_written_as_the_chain_writes_them() {
    for atomics in [
        0u128,
        1,
        10,
        1_500_000_000_000_000_000,
        2_000_000_000_000_000_000,
        100_000_000_000_000_000,
        999_999_999_999_999_999,
        1_000_000_000_000_000_001,
        120_000_000_000_000_000_000,
        u128::MAX,
        u128::MAX - 455,
    ] {
        let mut order = stored_order(1);
        order.price = Decimal::raw(atomics);
        let bytes = encode_order_bytes(&order);
        let value: serde_json::Value = serde_json::from_slice(&bytes).unwrap();
        assert_eq!(
            value["price"].as_str().unwrap(),
            cosmwasm_std::Decimal::raw(atomics).to_string()
        );
        assert_eq!(decode_order_bytes(&bytes), Some(order));
    }
}

/// The JSON of `stored_order(1)` with one part replaced.
fn altered(from: &str, to: &str) -> Vec<u8> {
    let text = String::from_utf8(encode_order_bytes(&stored_order(1))).unwrap();
    assert!(text.contains(from));
    text.replacen(from, to, 1).into_bytes()
}

#[test]
fn malformed_bytes_are_not_orders() {
    let bytes = encode_order_bytes(&stored_order(1));
    assert_eq!(decode_order_bytes(&bytes), Some(stored_order(1)));
    assert_eq!(decode_order_bytes(&bytes[..bytes.len() - 1]), None);
    let mut longer = bytes.clone();
    longer.push(b' ');
    assert_eq!(decode_order_bytes(&longer), None);
    assert_eq!(decode_order_bytes(&[]), None);
    assert_eq!(decode_order_bytes(b"{}"), None);

    assert_eq!(decode_order_bytes(&altered("\"status\":3", "\"status\":4")), None);
    assert_eq!(
        decode_order_bytes(&altered("\"order_type\":4", "\"order_type\":2")),
        None
    );
    assert_eq!(
        decode_order_bytes(&altered(
            "\"position_direction\":1",
            "\"position_direction\":2"
        )),
        None
    );
    assert_eq!(
        decode_order_bytes(&altered("\"id\":1,", "\"id\":18446744073709551616,")),
        None
    );
    assert_eq!(decode_order_bytes(&altered("\"id\":1,", "\"id\":-1,")), None);
    assert_eq!(decode_order_bytes(&altered("\"id\":1,", "\"id\": 1,")), None);
    assert_eq!(decode_order_bytes(&altered("\"id\"", "\"di\"")), None);
    assert_eq!(decode_order_bytes(&altered("\\n", "\n")), None);
    assert_eq!(decode_order_bytes(&altered("\\n", "\\x")), None);
    assert_eq!(decode_order_bytes(&altered("\\u0001", "\\u0041")), None);
    assert_eq!(
        decode_order_bytes(&altered(
            "\"quantity\":\"0.000000000000000001\"",
            "\"quantity\":\"0.0000000000000000001\""
        )),
        None
    );
    assert_eq!(
        decode_order_bytes(&altered(
            "\"quantity\":\"0.000000000000000001\"",
            "\"quantity\":\"340282366920938463464\""
        )),
        None
    );
    assert_eq!(
        decode_order_bytes(&altered(
            "\"quantity\":\"0.000000000000000001\"",
            "\"quantity\":\"1.\""
        )),
        None
    );
    assert_eq!(
        decode_order_bytes(&altered(
            "\"quantity\":\"0.000000000000000001\"",
            "\"quantity\":1"
        )),
        None
    );
    // Other ways of writing the same amount are read as well.
    let mut same = stored_order(1);
    same.quantity = Decimal::raw(1_500_000_000_000_000_000);
    assert_eq!(
        decode_order_bytes(&altered(
            "\"quantity\":\"0.000000000000000001\"",
            "\"quantity\":\"01.50\""
        )),
        Some(same)
    );
    // Bytes that are no UTF-8.
    let mut broken = bytes.clone();
    let at = bytes.iter().position(|b| *b == 0xc3).unwrap();
    broken[at] = 0xff;
    assert_eq!(decode_order_bytes(&broken), None);

    let list = encode_orders_bytes(&vec![stored_order(1), stored_order(2)]);
    assert!(decode_orders_bytes(&list).is_some());
    assert_eq!(decode_orders_bytes(&list[..list.len() - 1]), None);
    assert_eq!(decode_orders_bytes(&list[1..]), None);
    let text = String::from_utf8(list).unwrap();
    assert_eq!(decode_orders_bytes(text.replacen("},{", "}{", 1).as_bytes()), None);
    assert_eq!(
        decode_orders_bytes(text.replacen("},{", "},,{", 1).as_bytes()),
        None
    );
    assert_eq!(decode_orders_bytes(format!("{}]", text).as_bytes()), None);
    assert_eq!(
        decode_orders_bytes(format!("[,{}", &text[1..]).as_bytes()),
        None
    );
    assert_eq!(decode_orders_bytes(b"[,]"), None);
    assert_eq!(decode_orders_bytes(b"["), None);
    assert_eq!(decode_orders_bytes(b""), None);
}

#[test]
fn codes_of_the_wire() {
    assert_eq!(OrderType::Limit.code(), 0);
    assert_eq!(OrderType::Market.code(), 1);
    assert_eq!(OrderType::Fokmarket.code(), 3);
    assert_eq!(OrderType::Fokmarketbyvalue.code(), 4);
    assert_eq!(OrderType::from_code(2), None);
    assert_eq!(OrderType::from_code(4), Some(OrderType::Fokmarketbyvalue));
    assert_eq!(OrderStatus::Cancelled.code(), 2);
    assert_eq!(OrderStatus::from_code(3), Some(OrderStatus::Fulfilled));
    assert_eq!(OrderStatus::from_code(-1), None);
    assert_eq!(PositionDirection::Short.code(), 1);
    assert_eq!(PositionDirection::from_code(0), Some(PositionDirection::Long));
    assert_eq!(PositionDirection::from_code(2), None);
    assert_eq!(PositionDirection::Long.opposite(), PositionDirection::Short);
}

#[test]
fn block_times_in_seconds() {
    let time = Timestamp::from_nanos(1_571_797_419_879_305_533);
    assert_eq!(time.seconds(), 1_571_797_419);
    assert_eq!(time.plus_seconds(5).unwrap().seconds(), 1_571_797_424);
    assert_eq!(Timestamp::from_seconds(3).unwrap().nanos, 3_000_000_000);
    assert_eq!(Timestamp::from_seconds(u64::MAX), None);
    assert_eq!(time.plus_seconds(u64::MAX), None);
}
