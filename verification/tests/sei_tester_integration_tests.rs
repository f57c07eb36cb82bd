use cosmwasm_std::testing::MockStorage;
use cosmwasm_std::{Addr, BankMsg, CosmosMsg, Uint128};
use cw_multi_test::{App, BankSudo, Executor, SudoMsg as MultiTestSudoMsg};
use sei_cosmwasm::block::{BlockInfo, Timestamp};
use sei_cosmwasm::decimal::Decimal;
use sei_cosmwasm::dex::{DexTwapsResponse, OrderSimulationResponse};
use sei_cosmwasm::error::SeiError;
use sei_cosmwasm::module::{ExecuteOutcome, QueryResponse, SeiModule, EVM_ADDRESS, SEI_ADDRESS};
use sei_cosmwasm::msg::SeiMsg;
use sei_cosmwasm::oracle::{ExchangeRatesResponse, OracleTwapsResponse};
use sei_cosmwasm::order_book::{GetOrderByIdResponse, GetOrdersResponse};
use sei_cosmwasm::proto_structs::{DenomOracleExchangeRatePair, DexPair, DexTwap, OracleExchangeRate};
use sei_cosmwasm::query::{
    EpochResponse, EvmAddressResponse, SeiAddressResponse, SeiQuery, SeiQueryWrapper,
};
use sei_cosmwasm::route::SeiRoute;
use sei_cosmwasm::sei_types::{
    Cancellation, Coin, Order, OrderStatus, OrderType, PositionDirection,
};
use sei_cosmwasm::token_factory::BankAction;

const ADMIN: &str = "admin";

/// The block that the test chain starts with.
fn first_block() -> BlockInfo {
    BlockInfo {
        height: 12_345,
        time: Timestamp::from_nanos(1_571_797_419_879_305_533),
        chain_id: "cosmos-testnet-14002".to_string(),
    }
}

fn later_block(block: &BlockInfo, height: u64, seconds: u64) -> BlockInfo {
    BlockInfo {
        height,
        time: block.time.plus_seconds(seconds).unwrap(),
        chain_id: "test-chain".to_string(),
    }
}

fn to_bank_coins(coins: &[Coin]) -> Vec<cosmwasm_std::Coin> {
    coins
        .iter()
        .map(|c| cosmwasm_std::Coin {
            denom: c.denom.clone(),
            amount: Uint128::new(c.amount),
        })
        .collect()
}

/// Sends a message to the module and lets the bank do what the module
/// hands back.
fn execute(
    module: &SeiModule,
    storage: &mut MockStorage,
    bank: &mut App,
    block: &BlockInfo,
    sender: &str,
    msg: SeiMsg,
) -> Result<Option<String>, SeiError> {
    match module.execute(storage, block, sender.to_string(), msg)? {
        ExecuteOutcome::Response(response) => Ok(response.data),
        ExecuteOutcome::Bank(BankAction::Mint { to_address, amount }) => {
            bank.sudo(MultiTestSudoMsg::Bank(BankSudo::Mint {
                to_address,
                amount: to_bank_coins(&amount),
            }))
            .unwrap();
            Ok(None)
        }
        ExecuteOutcome::Bank(BankAction::Burn { sender, amount }) => {
            bank.execute(
                Addr::unchecked(sender),
                CosmosMsg::Bank(BankMsg::Burn {
                    amount: to_bank_coins(&amount),
                }),
            )
            .unwrap();
            Ok(None)
        }
    }
}

fn get_balance(bank: &App, addr: &str, denom: &str) -> cosmwasm_std::Coin {
    bank.wrap().query_balance(addr, denom).unwrap()
}

fn query(
    module: &SeiModule,
    storage: &MockStorage,
    block: &BlockInfo,
    route: SeiRoute,
    query_data: SeiQuery,
) -> Result<QueryResponse, SeiError> {
    module.query(storage, block, SeiQueryWrapper { route, query_data })
}

fn get_orders(
    module: &SeiModule,
    storage: &MockStorage,
    block: &BlockInfo,
    contract_address: &str,
    account: &str,
) -> Result<GetOrdersResponse, SeiError> {
    match query(
        module,
        storage,
        block,
        SeiRoute::Dex,
        SeiQuery::GetOrders {
            contract_address: contract_address.to_string(),
            account: account.to_string(),
        },
    )? {
        QueryResponse::GetOrders(res) => Ok(res),
        other => panic!("unexpected answer: {:?}", other),
    }
}

fn get_order_by_id(
    module: &SeiModule,
    storage: &MockStorage,
    block: &BlockInfo,
    contract_address: &str,
    price_denom: &str,
    asset_denom: &str,
    id: u64,
) -> Result<GetOrderByIdResponse, SeiError> {
    match query(
        module,
        storage,
        block,
        SeiRoute::Dex,
        SeiQuery::GetOrderById {
            contract_address: contract_address.to_string(),
            price_denom: price_denom.to_string(),
            asset_denom: asset_denom.to_string(),
            id,
        },
    )? {
        QueryResponse::GetOrderById(res) => Ok(res),
        other => panic!("unexpected answer: {:?}", other),
    }
}

fn order_simulation(
    module: &SeiModule,
    storage: &MockStorage,
    block: &BlockInfo,
    contract_address: &str,
    order: Order,
) -> OrderSimulationResponse {
    match query(
        module,
        storage,
        block,
        SeiRoute::Dex,
        SeiQuery::OrderSimulation {
            contract_address: contract_address.to_string(),
            order,
        },
    )
    .unwrap()
    {
        QueryResponse::OrderSimulation(res) => res,
        other => panic!("unexpected answer: {:?}", other),
    }
}

fn cancellation(id: u64) -> Cancellation {
    Cancellation {
        id,
        contract_address: "test contract".to_string(),
        price: Decimal::zero(),
        price_denom: "pd".to_string(),
        asset_denom: "ad".to_string(),
        order_type: OrderType::Limit,
        position_direction: PositionDirection::Long,
    }
}

fn sim_order(price: u128, quantity: u128, position_direction: PositionDirection) -> Order {
    Order {
        price: Decimal::raw(price),
        quantity: Decimal::raw(quantity),
        price_denom: "USDC".to_string(),
        asset_denom: "ATOM".to_string(),
        order_type: OrderType::Limit,
        position_direction,
        data: "".to_string(),
        status_description: "test_order".to_string(),
        nominal: Decimal::zero(),
    }
}

/// Token Factory
#[test]
fn sei_tester_integration_tests_test_tokenfactory_integration_foundation() {
    let module = SeiModule::new_with_oracle_exchange_rates(vec![]);
    let mut storage = MockStorage::new();
    let mut bank = App::default();
    let block = first_block();

    let res = execute(
        &module,
        &mut storage,
        &mut bank,
        &block,
        ADMIN,
        SeiMsg::CreateDenom {
            subdenom: "test".to_string(),
        },
    )
    .unwrap();
    let out: String = res.unwrap();
    assert_eq!(out.to_string(), "factory/admin/test");

    execute(
        &module,
        &mut storage,
        &mut bank,
        &block,
        ADMIN,
        SeiMsg::MintTokens {
            amount: Coin {
                denom: out.to_string(),
                amount: 1,
            },
        },
    )
    .unwrap();

    let res = get_balance(&bank, ADMIN, &out);
    assert_eq!(res.amount, Uint128::new(1));
    assert_eq!(res.denom, out);

    let err = execute(
        &module,
        &mut storage,
        &mut bank,
        &block,
        "fake",
        SeiMsg::MintTokens {
            amount: Coin {
                denom: out.to_string(),
                amount: 1,
            },
        },
    )
    .err()
    .unwrap();

    assert_eq!(
        err.message(),
        "Must be owner of coin factory denom to mint".to_string()
    );

    execute(
        &module,
        &mut storage,
        &mut bank,
        &block,
        ADMIN,
        SeiMsg::BurnTokens {
            amount: Coin {
                denom: out.to_string(),
                amount: 1,
            },
        },
    )
    .unwrap();

    let res = get_balance(&bank, ADMIN, &out);
    assert_eq!(res.amount, Uint128::new(0));
    assert_eq!(res.denom, out);

    let err = execute(
        &module,
        &mut storage,
        &mut bank,
        &block,
        "fake",
        SeiMsg::BurnTokens {
            amount: Coin {
                denom: out.to_string(),
                amount: 1,
            },
        },
    )
    .err()
    .unwrap();

    assert_eq!(
        err.message(),
        "Must be owner of coin factory denom to burn".to_string()
    );
}

/// Epoch Module - query
#[test]
fn sei_tester_integration_tests_test_epoch_query() {
    let module = SeiModule::new_with_oracle_exchange_rates(vec![]);
    let storage = MockStorage::new();

    let res: EpochResponse = match query(
        &module,
        &storage,
        &first_block(),
        SeiRoute::Epoch,
        SeiQuery::Epoch {},
    )
    .unwrap()
    {
        QueryResponse::Epoch(res) => res,
        other => panic!("unexpected answer: {:?}", other),
    };

    assert_eq!(res.epoch.genesis_time, "".to_string());
    assert_eq!(res.epoch.duration, 60);
    assert_eq!(res.epoch.current_epoch, 1);
    assert_eq!(res.epoch.current_epoch_start_time, "".to_string());
    assert_eq!(res.epoch.current_epoch_height, 1);
}

/// Dex Module - place and get orders
#[test]
fn sei_tester_integration_tests_test_dex_module_integration_orders() {
    let module = SeiModule::new_with_oracle_exchange_rates(vec![]);
    let mut storage = MockStorage::new();
    let mut bank = App::default();
    let block = first_block();
    let sei_tester_addr = "contract0".to_string();

    // input params: orders, funds, contract_addr
    let mut orders: Vec<Order> = Vec::new();
    let mut funds = Vec::<Coin>::new();
    let contract_addr = "example_contract".to_string();

    // Make order1
    let price = Decimal::raw(100);
    let quantity = Decimal::raw(1000);
    let price_denom = "USDC".to_string();
    let asset_denom = "ATOM".to_string();
    let order_type = OrderType::Market;
    let position_direction = PositionDirection::Long;
    let data = "".to_string();
    let status_description = "order1".to_string();

    let order1: Order = Order {
        price: price,
        quantity: quantity,
        price_denom: price_denom.clone(),
        asset_denom: asset_denom.clone(),
        order_type: order_type,
        position_direction: position_direction,
        data: data,
        status_description: status_description,
        nominal: Decimal::zero(),
    };
    orders.push(order1);

    // Make order2
    let price2 = Decimal::raw(500);
    let quantity2 = Decimal::raw(5000);
    let price_denom2 = "DAI".to_string();
    let asset_denom2 = "ATOM".to_string();
    let order_type2 = OrderType::Limit;
    let position_direction2 = PositionDirection::Short;
    let data2 = "".to_string();
    let status_description2 = "order2".to_string();

    let order2: Order = Order {
        price: price2,
        quantity: quantity2,
        price_denom: price_denom2.clone(),
        asset_denom: asset_denom2.clone(),
        order_type: order_type2,
        position_direction: position_direction2,
        data: data2,
        status_description: status_description2,
        nominal: Decimal::zero(),
    };
    orders.push(order2);

    funds.push(Coin {
        denom: "usei".to_string(),
        amount: 10,
    });

    // Msg PlaceOrders() with orders 1 and 2
    let res = execute(
        &module,
        &mut storage,
        &mut bank,
        &block,
        ADMIN,
        SeiMsg::PlaceOrders {
            orders: orders,
            funds: funds,
            contract_address: contract_addr.clone(),
        },
    )
    .unwrap();
    let out: String = res.unwrap();
    assert_eq!(out.to_string(), contract_addr.to_string());

    // Query GetOrders() after order 1
    let res = get_orders(&module, &storage, &block, &contract_addr, &sei_tester_addr).unwrap();

    assert_eq!(res.orders.len(), 2);
    assert_eq!(res.orders[0].id, 0);
    assert_eq!(res.orders[0].status, OrderStatus::Placed);
    assert_eq!(res.orders[0].price, Decimal::raw(100));
    assert_eq!(res.orders[0].quantity, Decimal::raw(1000));
    assert_eq!(res.orders[0].price_denom.clone(), "USDC");
    assert_eq!(res.orders[0].asset_denom.clone(), "ATOM");
    assert_eq!(res.orders[0].order_type, order_type);
    assert_eq!(res.orders[0].position_direction, position_direction);

    assert_eq!(res.orders[1].id, 1);
    assert_eq!(res.orders[1].status, OrderStatus::Placed);
    assert_eq!(res.orders[1].price, Decimal::raw(500));
    assert_eq!(res.orders[1].quantity, Decimal::raw(5000));
    assert_eq!(res.orders[1].price_denom.clone(), "DAI");
    assert_eq!(res.orders[1].asset_denom.clone(), "ATOM");
    assert_eq!(res.orders[1].order_type, order_type2);
    assert_eq!(res.orders[1].position_direction, position_direction2);

    // Query GetOrders for non-existent contract address
    let res = get_orders(
        &module,
        &storage,
        &block,
        "fake_contract_addr",
        &sei_tester_addr,
    );

    let error = res.err();
    assert!(error.is_some());

    // Query GetOrderById() for order id 0
    let res = get_order_by_id(
        &module,
        &storage,
        &block,
        &contract_addr,
        &price_denom,
        &asset_denom,
        0,
    )
    .unwrap();

    assert_eq!(res.order.id, 0);
    assert_eq!(res.order.status, OrderStatus::Placed);
    assert_eq!(res.order.price, Decimal::raw(100));
    assert_eq!(res.order.quantity, Decimal::raw(1000));
    assert_eq!(res.order.price_denom.clone(), "USDC");
    assert_eq!(res.order.asset_denom.clone(), "ATOM");
    assert_eq!(res.order.order_type, order_type);
    assert_eq!(res.order.position_direction, position_direction);

    // Query GetOrderById for order id 1
    let res = get_order_by_id(
        &module,
        &storage,
        &block,
        &contract_addr,
        &price_denom2,
        &asset_denom2,
        1,
    )
    .unwrap();

    assert_eq!(res.order.id, 1);
    assert_eq!(res.order.status, OrderStatus::Placed);
    assert_eq!(res.order.price, Decimal::raw(500));
    assert_eq!(res.order.quantity, Decimal::raw(5000));
    assert_eq!(res.order.price_denom.clone(), "DAI");
    assert_eq!(res.order.asset_denom.clone(), "ATOM");
    assert_eq!(res.order.order_type, order_type2);
    assert_eq!(res.order.position_direction, position_direction2);

    // Query GetOrderById for order id 2 (doesn't exist)
    let res = get_order_by_id(
        &module,
        &storage,
        &block,
        &contract_addr,
        &price_denom2,
        &asset_denom2,
        2,
    );
    let error = res.err();
    assert!(error.is_some());

    // CancelOrders for a contract address that doesn't exist
    let mut nonexistent_order_ids: Vec<u64> = Vec::new();
    nonexistent_order_ids.push(3);
    let cancellations: Vec<Cancellation> = nonexistent_order_ids
        .iter()
        .map(|id| -> Cancellation { cancellation(*id) })
        .collect();
    let res = execute(
        &module,
        &mut storage,
        &mut bank,
        &block,
        ADMIN,
        SeiMsg::CancelOrders {
            cancellations: cancellations,
            contract_address: "fake_contract_addr".to_string(),
        },
    );
    let error = res.err();
    assert!(error.is_some());

    // CancelOrders for order id 1
    let mut cancel_order_ids: Vec<u64> = Vec::new();
    cancel_order_ids.push(0);
    let cancellations: Vec<Cancellation> = cancel_order_ids
        .iter()
        .map(|id| -> Cancellation { cancellation(*id) })
        .collect();
    let res = execute(
        &module,
        &mut storage,
        &mut bank,
        &block,
        ADMIN,
        SeiMsg::CancelOrders {
            cancellations: cancellations,
            contract_address: contract_addr.clone(),
        },
    )
    .unwrap();
    let out: String = res.unwrap();
    assert_eq!(out.to_string(), contract_addr.to_string());

    // Query GetOrders() after order 0 cancelled
    let res = get_orders(&module, &storage, &block, &contract_addr, &sei_tester_addr).unwrap();

    assert_eq!(res.orders.len(), 1);
    assert_eq!(res.orders[0].id, 1);
    assert_eq!(res.orders[0].status, OrderStatus::Placed);
    assert_eq!(res.orders[0].price, Decimal::raw(500));
    assert_eq!(res.orders[0].quantity, Decimal::raw(5000));
    assert_eq!(res.orders[0].price_denom.clone(), "DAI");
    assert_eq!(res.orders[0].asset_denom.clone(), "ATOM");
    assert_eq!(res.orders[0].order_type, order_type2);
    assert_eq!(res.orders[0].position_direction, position_direction2);

    // Query GetOrderById for order id 0 (doesn't exist)
    let res = get_order_by_id(
        &module,
        &storage,
        &block,
        &contract_addr,
        &price_denom,
        &asset_denom,
        0,
    );
    let error = res.err();
    assert!(error.is_some());
}

/// Dex Module - query order simulation
#[test]
fn test_dex_module_query_order_simulation() {
    let module = SeiModule::new_with_oracle_exchange_rates(vec![]);
    let mut storage = MockStorage::new();
    let mut bank = App::default();
    let block = first_block();
    let sei_tester_addr = "contract0".to_string();

    let mut orders: Vec<Order> = Vec::new();
    let mut funds = Vec::<Coin>::new();

    // Make order1
    let order1: Order = Order {
        price: Decimal::raw(100),
        quantity: Decimal::raw(1000),
        price_denom: "USDC".to_string(),
        asset_denom: "ATOM".to_string(),
        order_type: OrderType::Market,
        position_direction: PositionDirection::Long,
        data: "".to_string(),
        status_description: "order1".to_string(),
        nominal: Decimal::zero(),
    };
    orders.push(order1);

    // Make order2
    let order2: Order = Order {
        price: Decimal::raw(500),
        quantity: Decimal::raw(5000),
        price_denom: "USDC".to_string(),
        asset_denom: "ATOM".to_string(),
        order_type: OrderType::Limit,
        position_direction: PositionDirection::Long,
        data: "".to_string(),
        status_description: "order2".to_string(),
        nominal: Decimal::zero(),
    };
    orders.push(order2);

    funds.push(Coin {
        denom: "usei".to_string(),
        amount: 10,
    });

    execute(
        &module,
        &mut storage,
        &mut bank,
        &block,
        ADMIN,
        SeiMsg::PlaceOrders {
            orders: orders,
            funds: funds,
            contract_address: sei_tester_addr.clone(),
        },
    )
    .unwrap();

    // Test all of sim order can be fulfilled
    let res = order_simulation(
        &module,
        &storage,
        &block,
        &sei_tester_addr,
        sim_order(100, 500, PositionDirection::Short),
    );

    let expected_order_sim_res = OrderSimulationResponse {
        executed_quantity: Decimal::raw(500),
    };

    assert_eq!(res, expected_order_sim_res);

    // Test part of sim order can be fulfilled
    let res = order_simulation(
        &module,
        &storage,
        &block,
        &sei_tester_addr,
        sim_order(100, 10000, PositionDirection::Short),
    );

    let expected_order_sim_res = OrderSimulationResponse {
        executed_quantity: Decimal::raw(6000),
    };

    assert_eq!(res, expected_order_sim_res);

    // Test none of sim order can be fulfilled
    let res = order_simulation(
        &module,
        &storage,
        &block,
        &sei_tester_addr,
        sim_order(100, 1000, PositionDirection::Long),
    );

    let expected_order_sim_res = OrderSimulationResponse {
        executed_quantity: Decimal::raw(0),
    };

    assert_eq!(res, expected_order_sim_res);

    // Test none of sim order can be fulfilled
    let res = order_simulation(
        &module,
        &storage,
        &block,
        &sei_tester_addr,
        sim_order(10000, 1000, PositionDirection::Short),
    );

    let expected_order_sim_res = OrderSimulationResponse {
        executed_quantity: Decimal::raw(0),
    };

    assert_eq!(res, expected_order_sim_res);
}

/// Oracle Module - set and query exchange rates
#[test]
fn sei_tester_integration_tests_test_oracle_module_query_exchange_rate() {
    let module = SeiModule::new_with_oracle_exchange_rates(vec![
        DenomOracleExchangeRatePair {
            denom: "uusdc".to_string(),
            oracle_exchange_rate: OracleExchangeRate {
                exchange_rate: Decimal::percent(80),
                last_update: 0,
                last_update_timestamp: 0,
            },
        },
        DenomOracleExchangeRatePair {
            denom: "usei".to_string(),
            oracle_exchange_rate: OracleExchangeRate {
                exchange_rate: Decimal::percent(70),
                last_update: 0,
                last_update_timestamp: 0,
            },
        },
        DenomOracleExchangeRatePair {
            denom: "uusdc".to_string(),
            oracle_exchange_rate: OracleExchangeRate {
                exchange_rate: Decimal::percent(90),
                last_update: 1,
                last_update_timestamp: 0,
            },
        },
    ]);
    let storage = MockStorage::new();

    let res: ExchangeRatesResponse = match query(
        &module,
        &storage,
        &first_block(),
        SeiRoute::Oracle,
        SeiQuery::ExchangeRates {},
    )
    .unwrap()
    {
        QueryResponse::ExchangeRates(res) => res,
        other => panic!("unexpected answer: {:?}", other),
    };

    assert_eq!(res.denom_oracle_exchange_rate_pairs.len(), 2);
    for rate in res.denom_oracle_exchange_rate_pairs {
        match rate.denom.as_str() {
            "usei" => {
                assert_eq!(
                    rate.oracle_exchange_rate,
                    OracleExchangeRate {
                        exchange_rate: Decimal::percent(70),
                        last_update: 0,
                        last_update_timestamp: 0,
                    }
                );
            }
            "uusdc" => {
                assert_eq!(
                    rate.oracle_exchange_rate,
                    OracleExchangeRate {
                        exchange_rate: Decimal::percent(90),
                        last_update: 1,
                        last_update_timestamp: 0,
                    }
                );
            }
            _ => panic!("Unexpected denom"),
        }
    }
}

/// Oracle Module - query TWAP rates
#[test]
fn sei_tester_integration_tests_test_oracle_module_query_twaps() {
    let module = SeiModule::new_with_oracle_exchange_rates(vec![
        DenomOracleExchangeRatePair {
            denom: "uusdc".to_string(),
            oracle_exchange_rate: OracleExchangeRate {
                exchange_rate: Decimal::percent(80),
                last_update: 1_571_797_411,
                last_update_timestamp: 0,
            },
        },
        DenomOracleExchangeRatePair {
            denom: "usei".to_string(),
            oracle_exchange_rate: OracleExchangeRate {
                exchange_rate: Decimal::percent(70),
                last_update: 0,
                last_update_timestamp: 0,
            },
        },
        DenomOracleExchangeRatePair {
            denom: "uusdc".to_string(),
            oracle_exchange_rate: OracleExchangeRate {
                exchange_rate: Decimal::percent(90),
                last_update: 1_571_797_415,
                last_update_timestamp: 0,
            },
        },
    ]);
    let storage = MockStorage::new();

    let res: OracleTwapsResponse = match query(
        &module,
        &storage,
        &first_block(),
        SeiRoute::Oracle,
        SeiQuery::OracleTwaps {
            lookback_seconds: 10,
        },
    )
    .unwrap()
    {
        QueryResponse::OracleTwaps(res) => res,
        other => panic!("unexpected answer: {:?}", other),
    };

    assert_eq!(res.oracle_twaps.len(), 2);
    for rate in res.oracle_twaps {
        match rate.denom.as_str() {
            "usei" => {
                assert_eq!(rate.twap, Decimal::percent(70),);
            }
            "uusdc" => {
                assert_eq!(rate.twap, Decimal::percent(84),);
            }
            _ => panic!("Unexpected denom"),
        }
    }
}

#[test]
fn test_dex_module_query_dex_twap() {
    let module = SeiModule::new_with_oracle_exchange_rates(vec![]);
    let mut storage = MockStorage::new();
    let mut bank = App::default();
    let mut block = first_block();
    let sei_tester_addr = "contract0".to_string();

    let mut orders: Vec<Order> = Vec::new();

    // Make order1
    let order1: Order = Order {
        price: Decimal::raw(100),
        quantity: Decimal::raw(1000),
        price_denom: "USDC".to_string(),
        asset_denom: "ATOM".to_string(),
        order_type: OrderType::Market,
        position_direction: PositionDirection::Long,
        data: "".to_string(),
        status_description: "order1".to_string(),
        nominal: Decimal::zero(),
    };
    orders.push(order1);

    execute(
        &module,
        &mut storage,
        &mut bank,
        &block,
        ADMIN,
        SeiMsg::PlaceOrders {
            orders: orders,
            funds: vec![Coin {
                denom: "usei".to_string(),
                amount: 10,
            }],
            contract_address: sei_tester_addr.clone(),
        },
    )
    .unwrap();

    block = later_block(&block, 2, 5);

    let mut orders: Vec<Order> = Vec::new();

    // Make order2
    let order2: Order = Order {
        price: Decimal::raw(500),
        quantity: Decimal::raw(5000),
        price_denom: "USDC".to_string(),
        asset_denom: "ATOM".to_string(),
        order_type: OrderType::Limit,
        position_direction: PositionDirection::Long,
        data: "".to_string(),
        status_description: "order2".to_string(),
        nominal: Decimal::zero(),
    };
    orders.push(order2);

    execute(
        &module,
        &mut storage,
        &mut bank,
        &block,
        ADMIN,
        SeiMsg::PlaceOrders {
            orders: orders,
            funds: vec![Coin {
                denom: "usei".to_string(),
                amount: 10,
            }],
            contract_address: sei_tester_addr.clone(),
        },
    )
    .unwrap();

    block = later_block(&block, 3, 5);

    let res: DexTwapsResponse = match query(
        &module,
        &storage,
        &block,
        SeiRoute::Dex,
        SeiQuery::DexTwaps {
            contract_address: sei_tester_addr.clone(),
            lookback_seconds: 6,
        },
    )
    .unwrap()
    {
        QueryResponse::DexTwaps(res) => res,
        other => panic!("unexpected answer: {:?}", other),
    };

    let expected_twap: DexTwapsResponse = DexTwapsResponse {
        twaps: vec![DexTwap {
            pair: DexPair {
                price_denom: "USDC".to_string(),
                asset_denom: "ATOM".to_string(),
                price_tick_size: Decimal::checked_from_ratio(1u128, 10000u128).unwrap(),
                quantity_tick_size: Decimal::checked_from_ratio(1u128, 10000u128).unwrap(),
            },
            twap: Decimal::raw(433),
            lookback_seconds: 6,
        }],
    };

    assert_eq!(res, expected_twap);
}

/// EVM Module - query EVM address
#[test]
fn test_evm_address_query() {
    let module = SeiModule::new_with_oracle_exchange_rates(vec![]);
    let storage = MockStorage::new();
    let block = first_block();

    // Test associated EVM address
    let res: EvmAddressResponse = match query(
        &module,
        &storage,
        &block,
        SeiRoute::Evm,
        SeiQuery::GetEvmAddress {
            sei_address: SEI_ADDRESS.to_string(),
        },
    )
    .unwrap()
    {
        QueryResponse::EvmAddress(res) => res,
        other => panic!("unexpected answer: {:?}", other),
    };

    let expected_res = EvmAddressResponse {
        evm_address: EVM_ADDRESS.to_string(),
        associated: true,
    };
    assert_eq!(res, expected_res);

    // Test non-associated EVM address
    let res: EvmAddressResponse = match query(
        &module,
        &storage,
        &block,
        SeiRoute::Evm,
        SeiQuery::GetEvmAddress {
            sei_address: "fake_address".to_string(),
        },
    )
    .unwrap()
    {
        QueryResponse::EvmAddress(res) => res,
        other => panic!("unexpected answer: {:?}", other),
    };

    let expected_res = EvmAddressResponse {
        evm_address: String::new(),
        associated: false,
    };
    assert_eq!(res, expected_res);
}

#[test]
fn test_sei_address_query() {
    let module = SeiModule::new_with_oracle_exchange_rates(vec![]);
    let storage = MockStorage::new();
    let block = first_block();

    // Test associated SEI address
    let res: SeiAddressResponse = match query(
        &module,
        &storage,
        &block,
        SeiRoute::Evm,
        SeiQuery::GetSeiAddress {
            evm_address: "0xAb5801a7D398351b8bE11C439e05C5B3259aeC9B".to_string(),
        },
    )
    .unwrap()
    {
        QueryResponse::SeiAddress(res) => res,
        other => panic!("unexpected answer: {:?}", other),
    };

    let expected_res = SeiAddressResponse {
        sei_address: SEI_ADDRESS.to_string(),
        associated: true,
    };
    assert_eq!(res, expected_res);

    // Test non-associated SEI address
    let res: SeiAddressResponse = match query(
        &module,
        &storage,
        &block,
        SeiRoute::Evm,
        SeiQuery::GetSeiAddress {
            evm_address: "0x999999cf1046e68e36E1aA2E0E07105eDDD1f08E".to_string(),
        },
    )
    .unwrap()
    {
        QueryResponse::SeiAddress(res) => res,
        other => panic!("unexpected answer: {:?}", other),
    };

    let expected_res = SeiAddressResponse {
        sei_address: String::new(),
        associated: false,
    };
    assert_eq!(res, expected_res);
}
