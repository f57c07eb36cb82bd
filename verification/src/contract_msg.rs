//! The messages and queries that the tester contract takes.

use crate::sei_types::Order;
use vstd::prelude::*;

verus! {

/// The message that sets the contract up.
#[derive(Clone, Copy, Debug, PartialEq, Eq, Structural)]
pub struct InstantiateMsg {}

/// A message to the contract.
#[derive(Debug, PartialEq)]
pub enum ExecuteMsg {
    PlaceOrders {  },
    CancelOrders { order_ids: Vec<u64> },
    CreateDenom {  },
    Mint {  },
    Burn {  },
    ChangeAdmin {  },
    SetMetadata {  },
    CallEvm { value: u128, to: String, data: String },
}

/// A query to the contract.
#[derive(Debug, PartialEq)]
pub enum QueryMsg {
    ExchangeRates {  },
    OracleTwaps { lookback_seconds: u64 },
    DexTwaps { contract_address: String, lookback_seconds: u64 },
    OrderSimulation { order: Order, contract_address: String },
    Epoch {  },
    GetOrders { contract_address: String, account: String },
    GetOrderById { contract_address: String, price_denom: String, asset_denom: String, id: u64 },
    GetLatestPrice { contract_address: String, price_denom: String, asset_denom: String },
    GetDenomAuthorityMetadata { denom: String },
    GetDenomsFromCreator { creator: String },
    StaticCall { from: String, to: String, data: String },
    GetEvmAddressBySeiAddress { sei_address: String },
    GetSeiAddressByEvmAddress { evm_address: String },
}

} // verus!
