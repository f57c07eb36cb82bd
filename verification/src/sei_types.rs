//! The order and token-factory data that messages and queries carry.

use crate::decimal::Decimal;
use vstd::prelude::*;

verus! {

/// Which side of the book an order is on.
#[derive(Clone, Copy, Debug, PartialEq, Eq, Structural, Hash)]
pub enum PositionDirection {
    Long,
    Short,
}

/// How an order is to be executed.
#[derive(Clone, Copy, Debug, PartialEq, Eq, Structural, Hash)]
pub enum OrderType {
    Limit,
    Market,
    /// Fill-or-kill market order.
    Fokmarket,
    /// Fill-or-kill market order by value.
    Fokmarketbyvalue,
}

/// What became of an order.
#[derive(Clone, Copy, Debug, PartialEq, Eq, Structural, Hash)]
pub enum OrderStatus {
    Placed,
    FailedToPlace,
    Cancelled,
    Fulfilled,
}

impl PositionDirection {
    /// The number that stands for the direction on the wire.
    pub open spec fn spec_code(self) -> i32 {
        match self {
            PositionDirection::Long => 0,
            PositionDirection::Short => 1,
        }
    }

    /// The number that stands for the direction on the wire.
    pub fn code(&self) -> (r: i32)
        ensures
            r == self.spec_code(),
    {
        match self {
            PositionDirection::Long => 0,
            PositionDirection::Short => 1,
        }
    }

    /// The direction that `code` stands for, if any.
    pub fn from_code(code: i32) -> (r: Option<PositionDirection>)
        ensures
            match r {
                Some(d) => d.spec_code() == code,
                None => forall|d: PositionDirection| d.spec_code() != code,
            },
    {
        if code == 0 {
            Some(PositionDirection::Long)
        } else if code == 1 {
            Some(PositionDirection::Short)
        } else {
            None
        }
    }

    /// The side that an order of this direction trades against.
    pub open spec fn spec_opposite(self) -> PositionDirection {
        match self {
            PositionDirection::Long => PositionDirection::Short,
            PositionDirection::Short => PositionDirection::Long,
        }
    }

    /// The side that an order of this direction trades against.
    pub fn opposite(&self) -> (r: PositionDirection)
        ensures
            r == self.spec_opposite(),
    {
        match self {
            PositionDirection::Long => PositionDirection::Short,
            PositionDirection::Short => PositionDirection::Long,
        }
    }
}

impl OrderType {
    /// The number that stands for the order type on the wire.
    pub open spec fn spec_code(self) -> i32 {
        match self {
            OrderType::Limit => 0,
            OrderType::Market => 1,
            OrderType::Fokmarket => 3,
            OrderType::Fokmarketbyvalue => 4,
        }
    }

    /// The number that stands for the order type on the wire.
    pub fn code(&self) -> (r: i32)
        ensures
            r == self.spec_code(),
    {
        match self {
            OrderType::Limit => 0,
            OrderType::Market => 1,
            OrderType::Fokmarket => 3,
            OrderType::Fokmarketbyvalue => 4,
        }
    }

    /// The order type that `code` stands for, if any.
    pub fn from_code(code: i32) -> (r: Option<OrderType>)
        ensures
            match r {
                Some(t) => t.spec_code() == code,
                None => forall|t: OrderType| t.spec_code() != code,
            },
    {
        if code == 0 {
            Some(OrderType::Limit)
        } else if code == 1 {
            Some(OrderType::Market)
        } else if code == 3 {
            Some(OrderType::Fokmarket)
        } else if code == 4 {
            Some(OrderType::Fokmarketbyvalue)
        } else {
            None
        }
    }
}

impl OrderStatus {
    /// The number that stands for the status on the wire.
    pub open spec fn spec_code(self) -> i32 {
        match self {
            OrderStatus::Placed => 0,
            OrderStatus::FailedToPlace => 1,
            OrderStatus::Cancelled => 2,
            OrderStatus::Fulfilled => 3,
        }
    }

    /// The number that stands for the status on the wire.
    pub fn code(&self) -> (r: i32)
        ensures
            r == self.spec_code(),
    {
        match self {
            OrderStatus::Placed => 0,
            OrderStatus::FailedToPlace => 1,
            OrderStatus::Cancelled => 2,
            OrderStatus::Fulfilled => 3,
        }
    }

    /// The status that `code` stands for, if any.
    pub fn from_code(code: i32) -> (r: Option<OrderStatus>)
        ensures
            match r {
                Some(s) => s.spec_code() == code,
                None => forall|s: OrderStatus| s.spec_code() != code,
            },
    {
        if code == 0 {
            Some(OrderStatus::Placed)
        } else if code == 1 {
            Some(OrderStatus::FailedToPlace)
        } else if code == 2 {
            Some(OrderStatus::Cancelled)
        } else if code == 3 {
            Some(OrderStatus::Fulfilled)
        } else {
            None
        }
    }
}

/// An order as a contract hands it in.
#[derive(Debug, PartialEq)]
pub struct Order {
    pub price: Decimal,
    pub quantity: Decimal,
    pub price_denom: String,
    pub asset_denom: String,
    pub order_type: OrderType,
    pub position_direction: PositionDirection,
    /// Serialized order data, defined by the target contract.
    pub data: String,
    pub status_description: String,
    /// Only needed for fill-or-kill market orders by value.
    pub nominal: Decimal,
}

/// What an [`Order`] holds, with its texts as character sequences.
pub struct OrderView {
    pub price: Decimal,
    pub quantity: Decimal,
    pub price_denom: Seq<char>,
    pub asset_denom: Seq<char>,
    pub order_type: OrderType,
    pub position_direction: PositionDirection,
    pub data: Seq<char>,
    pub status_description: Seq<char>,
    pub nominal: Decimal,
}

impl View for Order {
    type V = OrderView;

    open spec fn view(&self) -> OrderView {
        OrderView {
            price: self.price,
            quantity: self.quantity,
            price_denom: self.price_denom@,
            asset_denom: self.asset_denom@,
            order_type: self.order_type,
            position_direction: self.position_direction,
            data: self.data@,
            status_description: self.status_description@,
            nominal: self.nominal,
        }
    }
}

impl DeepView for Order {
    type V = OrderView;

    open spec fn deep_view(&self) -> OrderView {
        self@
    }
}

impl Clone for Order {
    fn clone(&self) -> (r: Order)
        ensures
            r == *self,
    {
        Order {
            price: self.price,
            quantity: self.quantity,
            price_denom: self.price_denom.clone(),
            asset_denom: self.asset_denom.clone(),
            order_type: self.order_type,
            position_direction: self.position_direction,
            data: self.data.clone(),
            status_description: self.status_description.clone(),
            nominal: self.nominal,
        }
    }
}

/// A request to cancel one order.
#[derive(Debug, PartialEq)]
pub struct Cancellation {
    pub id: u64,
    pub contract_address: String,
    pub price_denom: String,
    pub asset_denom: String,
    pub order_type: OrderType,
    pub position_direction: PositionDirection,
    pub price: Decimal,
}

impl Clone for Cancellation {
    fn clone(&self) -> (r: Cancellation)
        ensures
            r == *self,
    {
        Cancellation {
            id: self.id,
            contract_address: self.contract_address.clone(),
            price_denom: self.price_denom.clone(),
            asset_denom: self.asset_denom.clone(),
            order_type: self.order_type,
            position_direction: self.position_direction,
            price: self.price,
        }
    }
}

/// An order as the book keeps it and queries return it.
#[derive(Debug, PartialEq)]
pub struct OrderResponse {
    pub id: u64,
    pub status: OrderStatus,
    pub account: String,
    pub contract_address: String,
    pub price: Decimal,
    pub quantity: Decimal,
    pub price_denom: String,
    pub asset_denom: String,
    pub order_type: OrderType,
    pub position_direction: PositionDirection,
    pub data: String,
    pub status_description: String,
}

/// What an [`OrderResponse`] holds, with its texts as character sequences.
pub struct OrderResponseView {
    pub id: u64,
    pub status: OrderStatus,
    pub account: Seq<char>,
    pub contract_address: Seq<char>,
    pub price: Decimal,
    pub quantity: Decimal,
    pub price_denom: Seq<char>,
    pub asset_denom: Seq<char>,
    pub order_type: OrderType,
    pub position_direction: PositionDirection,
    pub data: Seq<char>,
    pub status_description: Seq<char>,
}

impl View for OrderResponse {
    type V = OrderResponseView;

    open spec fn view(&self) -> OrderResponseView {
        OrderResponseView {
            id: self.id,
            status: self.status,
            account: self.account@,
            contract_address: self.contract_address@,
            price: self.price,
            quantity: self.quantity,
            price_denom: self.price_denom@,
            asset_denom: self.asset_denom@,
            order_type: self.order_type,
            position_direction: self.position_direction,
            data: self.data@,
            status_description: self.status_description@,
        }
    }
}

impl DeepView for OrderResponse {
    type V = OrderResponseView;

    open spec fn deep_view(&self) -> OrderResponseView {
        self@
    }
}

impl Clone for OrderResponse {
    fn clone(&self) -> (r: OrderResponse)
        ensures
            r == *self,
    {
        OrderResponse {
            id: self.id,
            status: self.status,
            account: self.account.clone(),
            contract_address: self.contract_address.clone(),
            price: self.price,
            quantity: self.quantity,
            price_denom: self.price_denom.clone(),
            asset_denom: self.asset_denom.clone(),
            order_type: self.order_type,
            position_direction: self.position_direction,
            data: self.data.clone(),
            status_description: self.status_description.clone(),
        }
    }
}

/// One settled trade, as the chain reports it to a contract.
#[derive(Clone, Debug, PartialEq)]
pub struct SettlementEntry {
    pub account: String,
    pub price_denom: String,
    pub asset_denom: String,
    pub quantity: Decimal,
    pub execution_cost_or_proceed: Decimal,
    pub expected_cost_or_proceed: Decimal,
    pub position_direction: PositionDirection,
    pub order_type: OrderType,
    pub order_id: u64,
    pub timestamp: u64,
    pub height: u64,
    pub settlement_id: u64,
}

/// A deposit that accompanies bulk order placements.
#[derive(Clone, Debug, PartialEq)]
pub struct DepositInfo {
    pub account: String,
    pub denom: String,
    pub amount: Decimal,
}

/// One unit of a denomination, as the bank module describes it.
#[derive(Clone, Default, Debug, PartialEq, Eq)]
pub struct DenomUnit {
    pub denom: String,
    pub exponent: u32,
    pub aliases: Vec<String>,
}

/// The bank module's description of a coin.
#[derive(Clone, Default, Debug, PartialEq, Eq)]
pub struct Metadata {
    pub description: String,
    pub denom_units: Vec<DenomUnit>,
    pub base: String,
    pub display: String,
    pub name: String,
    pub symbol: String,
}

/// Who administers a token-factory denomination.
#[derive(Clone, Debug, PartialEq)]
pub struct DenomAuthorityMetadata {
    pub admin: String,
}

/// An order that a bulk placement could not place.
#[derive(Clone, PartialEq)]
pub struct UnsuccessfulOrder {
    pub id: u64,
    pub reason: String,
}

/// A contract's answer to a bulk placement.
#[derive(Clone, PartialEq)]
pub struct BulkOrderPlacementsResponse {
    pub unsuccessful_orders: Vec<UnsuccessfulOrder>,
}

/// An amount of one denomination.
#[derive(Debug, PartialEq, Eq)]
pub struct Coin {
    pub denom: String,
    pub amount: u128,
}

impl Clone for Coin {
    fn clone(&self) -> (r: Coin)
        ensures
            r == *self,
    {
        Coin { denom: self.denom.clone(), amount: self.amount }
    }
}

} // verus!
