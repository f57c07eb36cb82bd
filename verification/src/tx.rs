//! The chain's reply to a placement of orders.

use vstd::prelude::*;

verus! {

/// The ids that the chain gave to the placed orders.
#[derive(Clone, Debug, PartialEq, Default)]
pub struct MsgPlaceOrdersResponse {
    pub order_ids: Vec<u64>,
}

impl MsgPlaceOrdersResponse {
    /// A reply without ids.
    pub fn new() -> (r: MsgPlaceOrdersResponse)
        ensures
            r.order_ids@ == Seq::<u64>::empty(),
    {
        MsgPlaceOrdersResponse { order_ids: Vec::new() }
    }
}

} // verus!
