//! The data of the tester contract's own orders.

use crate::decimal::Decimal;
use vstd::prelude::*;

verus! {

/// Whether an order opens or closes a position.
#[derive(Clone, Copy, Debug, PartialEq, Eq, Structural, Hash)]
pub enum PositionEffect {
    Unknown,
    Open,
    Close,
}

/// The data that the tester contract attaches to its orders.
#[derive(Clone, Copy, Debug, PartialEq, Eq, Structural)]
pub struct OrderData {
    pub leverage: Decimal,
    pub position_effect: PositionEffect,
}

/// How the placement of one order went.
#[derive(Clone, Copy, Debug, PartialEq, Eq, Structural)]
pub struct OrderPlacementResult {
    pub order_id: u64,
    pub status_code: i32,
}

/// How the execution of one order went.
#[derive(Clone, Debug, PartialEq)]
pub struct OrderExecutionResult {
    pub order_id: u64,
    pub execution_price: Decimal,
    pub executed_quantity: Decimal,
    pub total_notional: Decimal,
    pub position_direction: String,
}

/// How the orders of one contract went.
#[derive(Clone, Debug, PartialEq)]
pub struct ContractOrderResult {
    pub contract_address: String,
    pub order_placement_results: Vec<OrderPlacementResult>,
    pub order_execution_results: Vec<OrderExecutionResult>,
}

} // verus!
