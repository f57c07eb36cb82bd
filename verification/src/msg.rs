//! The messages that a contract sends to the chain's modules, and those
//! that the chain sends to a contract.

use crate::sei_types::Cancellation;
use crate::sei_types::Coin;
use crate::sei_types::DepositInfo;
use crate::sei_types::Metadata;
use crate::sei_types::Order;
use crate::sei_types::SettlementEntry;
use vstd::prelude::*;

verus! {

/// A message to one of the chain's modules.
#[derive(Debug, PartialEq)]
pub enum SeiMsg {
    PlaceOrders { orders: Vec<Order>, funds: Vec<Coin>, contract_address: String },
    CancelOrders { cancellations: Vec<Cancellation>, contract_address: String },
    CreateDenom { subdenom: String },
    MintTokens { amount: Coin },
    BurnTokens { amount: Coin },
    ChangeAdmin { denom: String, new_admin_address: String },
    SetMetadata { metadata: Metadata },
    /// Calls the EVM contract at `to` with `data`, as if the caller of
    /// this contract had called it.
    DelegateCallEvm {
        /// The address of the EVM contract.
        to: String,
        /// Base64 encoded data for the contract.
        data: String,
    },
    /// Calls the EVM contract at `to` with `value` and `data`, from this
    /// contract.
    CallEvm {
        /// The amount to send along.
        value: u128,
        /// The address of the EVM contract.
        to: String,
        /// Base64 encoded data for the contract.
        data: String,
    },
}

/// A message from the chain to a contract.
#[derive(Debug, PartialEq)]
pub enum SudoMsg {
    Settlement { epoch: i64, entries: Vec<SettlementEntry> },
    BulkOrderPlacements { orders: Vec<Order>, deposits: Vec<DepositInfo> },
    BulkOrderCancellations { ids: Vec<u64> },
}

} // verus!
