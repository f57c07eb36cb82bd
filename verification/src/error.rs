//! The ways in which an operation of the engine fails.

use vstd::prelude::*;
use vstd::string::StringExecFns;

verus! {

/// Why an operation did not take place. No operation that fails changes
/// the store.
#[derive(Clone, Copy, Debug, PartialEq, Eq, Structural, Hash)]
pub enum SeiError {
    /// `CancelOrders` for a contract that never placed an order.
    CancelOrdersNotFound,
    /// `CancelOrders` naming an id that the contract's list does not hold.
    CancelOrderIdNotFound,
    /// `GetOrders` for a contract that never placed an order.
    GetOrdersNotFound,
    /// `GetOrderById` for an order that is not stored.
    GetOrderByIdNotFound,
    /// `CreateDenom` for a denomination that exists.
    DenomAlreadyExists,
    /// `CreateDenom` by a creator with an empty address.
    EmptyCreator,
    /// `MintTokens` by an address that does not own the denomination.
    MintNotOwner,
    /// `BurnTokens` by an address that does not own the denomination.
    BurnNotOwner,
    /// A stored value is not what the engine writes under its key.
    CorruptStore,
    /// A number left the range of its type.
    Overflow,
    /// An average over a window of zero seconds.
    ZeroLookback,
    /// A price update or an order is dated after the current block.
    FutureTimestamp,
    /// A message or query that the simulation does not implement.
    Unsupported,
    /// An order was placed later than an order of a greater id.
    TimestampOrder,
    /// An oracle history that is empty or not from the newest update to
    /// the oldest.
    HistoryOutOfOrder,
}

impl SeiError {
    /// The text of the error.
    pub open spec fn spec_message(self) -> Seq<char> {
        match self {
            SeiError::CancelOrdersNotFound => "CancelOrders: orders for contract_address do not exist"@,
            SeiError::CancelOrderIdNotFound => "CancelOrders: order for id does not exist"@,
            SeiError::GetOrdersNotFound => "GetOrders: orders for contract_address do not exist"@,
            SeiError::GetOrderByIdNotFound => "GetOrderById: order for id does not exist"@,
            SeiError::DenomAlreadyExists => "denom already exists"@,
            SeiError::EmptyCreator => "denom creator must not be empty"@,
            SeiError::MintNotOwner => "Must be owner of coin factory denom to mint"@,
            SeiError::BurnNotOwner => "Must be owner of coin factory denom to burn"@,
            SeiError::CorruptStore => "stored value is malformed"@,
            SeiError::Overflow => "arithmetic overflow"@,
            SeiError::ZeroLookback => "lookback must not be zero"@,
            SeiError::FutureTimestamp => "timestamp is after the current block"@,
            SeiError::Unsupported => "not implemented"@,
            SeiError::TimestampOrder => "orders are not in the order of their placement"@,
            SeiError::HistoryOutOfOrder => "oracle history is not in order"@,
        }
    }

    /// The text of the error.
    pub fn message(&self) -> (r: String)
        ensures
            r@ == self.spec_message(),
    {
        match self {
            SeiError::CancelOrdersNotFound => String::from_str(
                "CancelOrders: orders for contract_address do not exist",
            ),
            SeiError::CancelOrderIdNotFound => String::from_str(
                "CancelOrders: order for id does not exist",
            ),
            SeiError::GetOrdersNotFound => String::from_str(
                "GetOrders: orders for contract_address do not exist",
            ),
            SeiError::GetOrderByIdNotFound => String::from_str(
                "GetOrderById: order for id does not exist",
            ),
            SeiError::DenomAlreadyExists => String::from_str("denom already exists"),
            SeiError::EmptyCreator => String::from_str("denom creator must not be empty"),
            SeiError::MintNotOwner => String::from_str(
                "Must be owner of coin factory denom to mint",
            ),
            SeiError::BurnNotOwner => String::from_str(
                "Must be owner of coin factory denom to burn",
            ),
            SeiError::CorruptStore => String::from_str("stored value is malformed"),
            SeiError::Overflow => String::from_str("arithmetic overflow"),
            SeiError::ZeroLookback => String::from_str("lookback must not be zero"),
            SeiError::FutureTimestamp => String::from_str("timestamp is after the current block"),
            SeiError::Unsupported => String::from_str("not implemented"),
            SeiError::TimestampOrder => String::from_str(
                "orders are not in the order of their placement",
            ),
            SeiError::HistoryOutOfOrder => String::from_str("oracle history is not in order"),
        }
    }
}

} // verus!
