use sei_cosmwasm::contract::{
    cancel_orders, change_admin, create_denom, execute, format_ids, handle_place_order_reply,
    instantiate, mint, place_orders, query, reply, set_metadata, sudo, test_occ_iterator_range,
    test_occ_parallelism, validate_migration, Attribute, ContractError, ContractMsg,
    PlaceOrderReply, ReplyOn, Response, SubMsg, NEW_ADMIN_ADDRESS, ORDER_CONTRACT_ADDRESS,
};
use sei_cosmwasm::contract_msg::{ExecuteMsg, InstantiateMsg, QueryMsg};
use sei_cosmwasm::decimal::Decimal;
use sei_cosmwasm::msg::{SeiMsg, SudoMsg};
use sei_cosmwasm::querier::SeiQuerier;
use sei_cosmwasm::query::{SeiQuery, SeiQueryWrapper};
use sei_cosmwasm::route::SeiRoute;
use sei_cosmwasm::sei_types::{
    Cancellation, Coin, DenomUnit, Metadata, Order, OrderType, PositionDirection,
};
use sei_cosmwasm::tx::MsgPlaceOrdersResponse;

fn attribute(key: &str, value: &str) -> Attribute {
    Attribute {
        key: key.to_string(),
        value: value.to_string(),
    }
}

fn plain(msg: SeiMsg) -> Response {
    Response {
        messages: vec![SubMsg {
            id: 0,
            msg: ContractMsg::Custom(msg),
            reply_on: ReplyOn::Never,
        }],
        attributes: vec![],
    }
}

#[test]
fn the_contract_places_its_test_order() {
    let data = "{\"leverage\":\"1\",\"position_effect\":\"Open\"}".to_string();
    let res = place_orders(data.clone()).unwrap();
    let expected = Response {
        messages: vec![SubMsg {
            id: 1,
            msg: ContractMsg::Custom(SeiMsg::PlaceOrders {
                orders: vec![Order {
                    price: Decimal::raw(120_000_000_000_000_000_000),
                    quantity: Decimal::one(),
                    price_denom: "USDC".to_string(),
                    asset_denom: "ATOM".to_string(),
                    order_type: OrderType::Limit,
                    position_direction: PositionDirection::Long,
                    data,
                    status_description: "".to_string(),
                    nominal: Decimal::zero(),
                }],
                funds: vec![Coin {
                    denom: "uusdc".to_string(),
                    amount: 10000000000,
                }],
                contract_address: ORDER_CONTRACT_ADDRESS.to_string(),
            }),
            reply_on: ReplyOn::Success,
        }],
        attributes: vec![],
    };
    assert_eq!(res, expected);
}

#[test]
fn the_contract_cancels_by_id() {
    let res = cancel_orders("contract0".to_string(), vec![4, 9]).unwrap();
    let cancellation = |id: u64| Cancellation {
        id,
        contract_address: "contract0".to_string(),
        price_denom: "USDC".to_string(),
        asset_denom: "ATOM".to_string(),
        price: Decimal::raw(120_000_000_000_000_000_000),
        position_direction: PositionDirection::Long,
        order_type: OrderType::Limit,
    };
    assert_eq!(
        res,
        plain(SeiMsg::CancelOrders {
            cancellations: vec![cancellation(4), cancellation(9)],
            contract_address: "contract0".to_string(),
        })
    );
}

#[test]
fn the_contract_handles_its_denomination() {
    assert_eq!(
        create_denom().unwrap(),
        plain(SeiMsg::CreateDenom {
            subdenom: "subdenom".to_string()
        })
    );
    let coin = |amount: u128| Coin {
        denom: "factory/contract0/subdenom".to_string(),
        amount,
    };
    let minted = mint("contract0".to_string(), "alice".to_string()).unwrap();
    assert_eq!(minted.messages.len(), 2);
    assert_eq!(
        minted.messages[0].msg,
        ContractMsg::Custom(SeiMsg::MintTokens { amount: coin(100) })
    );
    assert_eq!(
        minted.messages[1],
        SubMsg {
            id: 0,
            msg: ContractMsg::BankSend {
                to_address: "alice".to_string(),
                amount: vec![coin(100)],
            },
            reply_on: ReplyOn::Never,
        }
    );
    assert_eq!(
        execute(
            "contract0".to_string(),
            "alice".to_string(),
            String::new(),
            ExecuteMsg::Burn {}
        )
        .unwrap(),
        plain(SeiMsg::BurnTokens { amount: coin(10) })
    );
    assert_eq!(
        change_admin("contract0".to_string()).unwrap(),
        plain(SeiMsg::ChangeAdmin {
            denom: "factory/contract0/subdenom".to_string(),
            new_admin_address: NEW_ADMIN_ADDRESS.to_string(),
        })
    );
    assert_eq!(
        set_metadata("contract0".to_string()).unwrap(),
        plain(SeiMsg::SetMetadata {
            metadata: Metadata {
                description: "Token Metadata".to_string(),
                base: "factory/contract0/subdenom".to_string(),
                display: "SUBDENOM".to_string(),
                name: "subdenom".to_string(),
                symbol: "SUB".to_string(),
                denom_units: vec![
                    DenomUnit {
                        denom: "factory/contract0/subdenom".to_string(),
                        exponent: 0,
                        aliases: vec!["usubdenom".to_string()],
                    },
                    DenomUnit {
                        denom: "SUBDENOM".to_string(),
                        exponent: 6,
                        aliases: vec!["subdenom".to_string()],
                    },
                ],
            },
        })
    );
    assert_eq!(
        execute(
            "contract0".to_string(),
            "alice".to_string(),
            String::new(),
            ExecuteMsg::CallEvm {
                value: 7,
                to: "0x1".to_string(),
                data: "AA==".to_string(),
            }
        )
        .unwrap(),
        plain(SeiMsg::CallEvm {
            value: 7,
            to: "0x1".to_string(),
            data: "AA==".to_string(),
        })
    );
}

#[test]
fn replies_to_placements_are_reported() {
    assert_eq!(format_ids(&vec![]), "[]");
    assert_eq!(format_ids(&vec![7]), "[7]");
    assert_eq!(format_ids(&vec![1, 20, 300]), "[1, 20, 300]");

    let mut parsed = MsgPlaceOrdersResponse::new();
    assert_eq!(parsed.order_ids, Vec::<u64>::new());
    parsed.order_ids = vec![3, 4];
    let res = reply(1, PlaceOrderReply::Ids(parsed)).unwrap();
    assert_eq!(
        res.attributes,
        vec![
            attribute("method", "handle_place_order_reply"),
            attribute("order_ids", "[3, 4]")
        ]
    );
    let res = handle_place_order_reply(PlaceOrderReply::NoData).unwrap();
    assert_eq!(
        res.attributes,
        vec![attribute("method", "handle_place_order_reply")]
    );
    assert_eq!(
        handle_place_order_reply(PlaceOrderReply::Unreadable),
        Err(ContractError::ParseErr {
            target_type: "MsgPlaceOrdersResponse".to_string(),
            msg: "failed to parse data".to_string(),
        })
    );
    assert_eq!(
        handle_place_order_reply(PlaceOrderReply::Failed("no funds".to_string())),
        Err(ContractError::GenericErr {
            msg: "no funds".to_string()
        })
    );
    assert_eq!(
        reply(2, PlaceOrderReply::NoData),
        Err(ContractError::GenericErr {
            msg: "Unknown reply id: 2".to_string()
        })
    );
}

#[test]
fn migrations_only_from_the_same_contract() {
    let name = "crates.io:sei-tester".to_string();
    assert_eq!(validate_migration(&name, &name), Ok(()));
    assert_eq!(
        validate_migration(&"crates.io:other".to_string(), &name),
        Err(ContractError::GenericErr {
            msg: "Can only upgrade from same type".to_string()
        })
    );
    let empty = Response {
        messages: vec![],
        attributes: vec![],
    };
    assert_eq!(instantiate(InstantiateMsg {}), Ok(Response::new()));
    assert_eq!(Response::new(), empty);
    assert_eq!(
        sudo(SudoMsg::Settlement {
            epoch: 1,
            entries: vec![]
        }),
        Ok(Response::new())
    );
    assert_eq!(
        sudo(SudoMsg::BulkOrderPlacements {
            orders: vec![],
            deposits: vec![]
        }),
        Ok(Response::new())
    );
}

#[test]
fn sums_over_stored_values_are_reported() {
    let (sum, res) =
        test_occ_iterator_range("alice".to_string(), vec![(1, 10), (2, 20), (5, 12)]).unwrap();
    assert_eq!(sum, 42);
    assert_eq!(
        res.attributes,
        vec![
            attribute("user", "alice"),
            attribute("sum", "42"),
            attribute("1", "10"),
            attribute("2", "20"),
            attribute("5", "12"),
        ]
    );
    assert!(test_occ_iterator_range("alice".to_string(), vec![(1, u64::MAX), (2, 1)]).is_err());
    let res = test_occ_parallelism("bob".to_string(), 9).unwrap();
    assert_eq!(
        res.attributes,
        vec![attribute("user", "bob"), attribute("val", "9")]
    );
}

#[test]
fn queries_go_to_their_modules() {
    assert_eq!(
        query(QueryMsg::OracleTwaps {
            lookback_seconds: 10
        }),
        SeiQueryWrapper {
            route: SeiRoute::Oracle,
            query_data: SeiQuery::OracleTwaps {
                lookback_seconds: 10
            },
        }
    );
    assert_eq!(
        query(QueryMsg::GetOrderById {
            contract_address: "c".to_string(),
            price_denom: "p".to_string(),
            asset_denom: "a".to_string(),
            id: 3,
        }),
        SeiQueryWrapper {
            route: SeiRoute::Dex,
            query_data: SeiQuery::GetOrderById {
                contract_address: "c".to_string(),
                price_denom: "p".to_string(),
                asset_denom: "a".to_string(),
                id: 3,
            },
        }
    );
    assert_eq!(
        query(QueryMsg::GetDenomsFromCreator {
            creator: "x".to_string()
        })
        .route,
        SeiRoute::Tokenfactory
    );
    assert_eq!(query(QueryMsg::Epoch {}).route, SeiRoute::Epoch);
    assert_eq!(
        query(QueryMsg::GetEvmAddressBySeiAddress {
            sei_address: "sei1".to_string()
        }),
        SeiQuerier::new().get_evm_address("sei1".to_string())
    );
    let querier = SeiQuerier::new();
    assert_eq!(
        querier.erc20_transfer_payload("r".to_string(), 5),
        SeiQueryWrapper {
            route: SeiRoute::Evm,
            query_data: SeiQuery::Erc20TransferPayload {
                recipient: "r".to_string(),
                amount: 5
            },
        }
    );
    assert_eq!(
        querier.query_dex_twaps(6, "c".to_string()).query_data,
        SeiQuery::DexTwaps {
            contract_address: "c".to_string(),
            lookback_seconds: 6
        }
    );
}
