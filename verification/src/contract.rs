//! The tester contract: for each message that it takes, the messages
//! that it sends on to the chain's modules.
//!
//! The contract decides here and acts elsewhere: what it reads from the
//! chain is handed to these functions, and what they return is sent.

use crate::contract_msg::ExecuteMsg;
use crate::contract_msg::InstantiateMsg;
use crate::contract_msg::QueryMsg;
use crate::decimal::Decimal;
use crate::decimal::DECIMAL_FRACTIONAL;
use crate::keys::denom_key;
use crate::keys::make_denom_key;
use crate::msg::SeiMsg;
use crate::msg::SudoMsg;
use crate::querier::SeiQuerier;
use crate::query::SeiQuery;
use crate::query::SeiQueryWrapper;
use crate::route::SeiRoute;
use crate::sei_types::Cancellation;
use crate::sei_types::Coin;
use crate::sei_types::DenomUnit;
use crate::sei_types::DepositInfo;
use crate::sei_types::Metadata;
use crate::sei_types::Order;
use crate::sei_types::OrderType;
use crate::sei_types::PositionDirection;
use crate::sei_types::SettlementEntry;
use crate::text::digits;
use crate::text::push_digits;
use crate::text::u64_to_string;
use crate::tx::MsgPlaceOrdersResponse;
use vstd::prelude::*;
use vstd::string::StringExecFns;

verus! {

/// The id under which the contract asks for the reply to a placement.
pub const PLACE_ORDER_REPLY_ID: u64 = 1;

/// The name under which the contract records its version.
pub const CONTRACT_NAME: &'static str = "crates.io:sei-tester";

/// The address of the contract that the test order is placed for.
pub const ORDER_CONTRACT_ADDRESS: &'static str =
    "sei14hj2tavq8fpesdwxxcu44rty3hh90vhujrvcmstl4zr3txmfvw9sh9m79m";

/// The address that `ChangeAdmin` hands the denomination to.
pub const NEW_ADMIN_ADDRESS: &'static str = "sei1hjfwcza3e3uzeznf3qthhakdr9juetl7g6esl4";

/// When the sender of a message wants a reply.
#[derive(Clone, Copy, Debug, PartialEq, Eq, Structural, Hash)]
pub enum ReplyOn {
    Always,
    Error,
    Success,
    Never,
}

/// A message that the contract sends.
#[derive(Debug, PartialEq)]
pub enum ContractMsg {
    /// To one of the chain's modules.
    Custom(SeiMsg),
    /// To the bank: send `amount` to `to_address`.
    BankSend { to_address: String, amount: Vec<Coin> },
}

/// A message with the id and the condition of its reply.
#[derive(Debug, PartialEq)]
pub struct SubMsg {
    pub id: u64,
    pub msg: ContractMsg,
    pub reply_on: ReplyOn,
}

/// A key and a value that a response reports.
#[derive(Debug, PartialEq, Eq)]
pub struct Attribute {
    pub key: String,
    pub value: String,
}

/// What the contract answers to a message: the messages that it sends
/// and the attributes that it reports.
#[derive(Debug, PartialEq)]
pub struct Response {
    pub messages: Vec<SubMsg>,
    pub attributes: Vec<Attribute>,
}

/// Why the contract refuses a message.
#[derive(Debug, PartialEq, Eq)]
pub enum ContractError {
    GenericErr { msg: String },
    ParseErr { target_type: String, msg: String },
}

/// What came back for a placement of orders.
#[derive(Debug, PartialEq)]
pub enum PlaceOrderReply {
    /// The placement failed, with this text.
    Failed(String),
    /// The placement went through and gave no data.
    NoData,
    /// The placement gave data that could not be read.
    Unreadable,
    /// The placement gave these ids.
    Ids(MsgPlaceOrdersResponse),
}

/// Whether `r` sends exactly one message, wants no reply to it, and
/// reports nothing.
pub open spec fn sends_one(r: Response) -> bool {
    &&& r.messages@.len() == 1
    &&& r.messages@[0].id == 0
    &&& r.messages@[0].reply_on == ReplyOn::Never
    &&& r.attributes@.len() == 0
}

/// Whether `r` sends nothing and reports nothing.
pub open spec fn is_empty_response(r: Response) -> bool {
    r.messages@.len() == 0 && r.attributes@.len() == 0
}

/// Whether `a` is the attribute of `key` and `value`.
pub open spec fn is_attribute(a: Attribute, key: Seq<char>, value: Seq<char>) -> bool {
    a.key@ == key && a.value@ == value
}

/// Whether `o` is the order that the contract places: one ATOM for 120
/// USDC, long, at limit, with the data `data`.
pub open spec fn is_test_order(o: Order, data: Seq<char>) -> bool {
    &&& o.price.atomics == 120 * DECIMAL_FRACTIONAL
    &&& o.quantity.atomics == DECIMAL_FRACTIONAL
    &&& o.price_denom@ == "USDC"@
    &&& o.asset_denom@ == "ATOM"@
    &&& o.position_direction == PositionDirection::Long
    &&& o.order_type == OrderType::Limit
    &&& o.data@ == data
    &&& o.status_description@ == Seq::<char>::empty()
    &&& o.nominal.atomics == 0
}

/// Whether `c` cancels the order `id` as the contract does: as a long
/// limit order of ATOM for 120 USDC, of the contract at `contract`.
pub open spec fn is_test_cancellation(c: Cancellation, id: u64, contract: Seq<char>) -> bool {
    &&& c.id == id
    &&& c.contract_address@ == contract
    &&& c.price_denom@ == "USDC"@
    &&& c.asset_denom@ == "ATOM"@
    &&& c.price.atomics == 120 * DECIMAL_FRACTIONAL
    &&& c.position_direction == PositionDirection::Long
    &&& c.order_type == OrderType::Limit
}

/// The denomination that the contract at `contract` creates.
pub open spec fn contract_denom(contract: Seq<char>) -> Seq<char> {
    denom_key(contract, "subdenom"@)
}

/// The ids between square brackets, with a comma and a space between
/// each two.
pub open spec fn ids_text(ids: Seq<u64>) -> Seq<char> {
    "["@ + ids_joined(ids) + "]"@
}

/// The ids with a comma and a space between each two.
pub open spec fn ids_joined(ids: Seq<u64>) -> Seq<char>
    decreases ids.len(),
{
    if ids.len() == 0 {
        Seq::empty()
    } else if ids.len() == 1 {
        digits(ids[0] as nat)
    } else {
        ids_joined(ids.drop_last()) + ", "@ + digits(ids.last() as nat)
    }
}

/// The sum of the values of the first `k` pairs.
pub open spec fn values_sum(values: Seq<(u64, u64)>, k: int) -> int
    decreases k,
{
    if k <= 0 {
        0
    } else {
        values_sum(values, k - 1) + values[k - 1].1
    }
}

/// Whether `m` is the metadata that the contract sets for the
/// denomination `denom`.
pub open spec fn is_test_metadata(m: Metadata, denom: Seq<char>) -> bool {
    &&& m.description@ == "Token Metadata"@
    &&& m.base@ == denom
    &&& m.display@ == "SUBDENOM"@
    &&& m.name@ == "subdenom"@
    &&& m.symbol@ == "SUB"@
    &&& m.denom_units@.len() == 2
    &&& m.denom_units@[0].denom@ == denom
    &&& m.denom_units@[0].exponent == 0
    &&& m.denom_units@[0].aliases@.len() == 1
    &&& m.denom_units@[0].aliases@[0]@ == "usubdenom"@
    &&& m.denom_units@[1].denom@ == "SUBDENOM"@
    &&& m.denom_units@[1].exponent == 6
    &&& m.denom_units@[1].aliases@.len() == 1
    &&& m.denom_units@[1].aliases@[0]@ == "subdenom"@
}

/// Whether `a` places the test order with the data `data` for the
/// contract at [`ORDER_CONTRACT_ADDRESS`], with funds of 10000000000 uusdc,
/// and asks for the reply on success.
pub open spec fn is_place_orders_response(a: Response, data: Seq<char>) -> bool {
    &&& a.messages@.len() == 1
    &&& a.attributes@.len() == 0
    &&& a.messages@[0].id == PLACE_ORDER_REPLY_ID
    &&& a.messages@[0].reply_on == ReplyOn::Success
    &&& a.messages@[0].msg matches ContractMsg::Custom(
        SeiMsg::PlaceOrders { orders, funds, contract_address },
    ) && {
        &&& orders@.len() == 1
        &&& is_test_order(orders@[0], data)
        &&& funds@.len() == 1
        &&& funds@[0].denom@ == "uusdc"@
        &&& funds@[0].amount == 10000000000u128
        &&& contract_address@ == ORDER_CONTRACT_ADDRESS@
    }
}

/// Whether `a` cancels the orders `ids` of the contract at `contract`,
/// each as the test order.
pub open spec fn is_cancel_orders_response(a: Response, contract: Seq<char>, ids: Seq<u64>) -> bool {
    &&& sends_one(a)
    &&& a.messages@[0].msg matches ContractMsg::Custom(
        SeiMsg::CancelOrders { cancellations, contract_address },
    ) && {
        &&& contract_address@ == contract
        &&& cancellations@.len() == ids.len()
        &&& forall|i: int|
            0 <= i < ids.len() ==> is_test_cancellation(#[trigger] cancellations@[i], ids[i], contract)
    }
}

/// Whether `a` creates the denomination `subdenom`.
pub open spec fn is_create_denom_response(a: Response) -> bool {
    &&& sends_one(a)
    &&& a.messages@[0].msg matches ContractMsg::Custom(SeiMsg::CreateDenom { subdenom })
        && subdenom@ == "subdenom"@
}

/// Whether `a` mints 100 of the denomination of the contract at
/// `contract` and sends them to `sender`.
pub open spec fn is_mint_response(a: Response, contract: Seq<char>, sender: Seq<char>) -> bool {
    &&& a.messages@.len() == 2
    &&& a.attributes@.len() == 0
    &&& a.messages@[0].id == 0
    &&& a.messages@[0].reply_on == ReplyOn::Never
    &&& a.messages@[0].msg matches ContractMsg::Custom(SeiMsg::MintTokens { amount })
        && amount.denom@ == contract_denom(contract) && amount.amount == 100
    &&& a.messages@[1].id == 0
    &&& a.messages@[1].reply_on == ReplyOn::Never
    &&& a.messages@[1].msg matches ContractMsg::BankSend { to_address, amount } && to_address@
        == sender && amount@.len() == 1 && amount@[0].denom@ == contract_denom(contract)
        && amount@[0].amount == 100
}

/// Whether `a` burns 10 of the denomination of the contract at
/// `contract`.
pub open spec fn is_burn_response(a: Response, contract: Seq<char>) -> bool {
    &&& sends_one(a)
    &&& a.messages@[0].msg matches ContractMsg::Custom(SeiMsg::BurnTokens { amount })
        && amount.denom@ == contract_denom(contract) && amount.amount == 10
}

/// Whether `a` hands the denomination of the contract at `contract` to
/// [`NEW_ADMIN_ADDRESS`].
pub open spec fn is_change_admin_response(a: Response, contract: Seq<char>) -> bool {
    &&& sends_one(a)
    &&& a.messages@[0].msg matches ContractMsg::Custom(
        SeiMsg::ChangeAdmin { denom, new_admin_address },
    ) && denom@ == contract_denom(contract) && new_admin_address@ == NEW_ADMIN_ADDRESS@
}

/// Whether `a` sets the metadata of the denomination of the contract at
/// `contract`.
pub open spec fn is_set_metadata_response(a: Response, contract: Seq<char>) -> bool {
    &&& sends_one(a)
    &&& a.messages@[0].msg matches ContractMsg::Custom(SeiMsg::SetMetadata { metadata })
        && is_test_metadata(metadata, contract_denom(contract))
}

/// Whether `a` calls the EVM contract at `to` with `value` and `data`.
pub open spec fn is_call_evm_response(a: Response, value: u128, to: String, data: String) -> bool {
    &&& sends_one(a)
    &&& a.messages@[0].msg == ContractMsg::Custom(SeiMsg::CallEvm { value, to, data })
}

/// Whether `r` is the answer to what came back for a placement: a
/// failure is handed on, data that cannot be read is refused, and the
/// method is reported, with the ids where there are any.
pub open spec fn is_reply_outcome(outcome: PlaceOrderReply, r: Result<Response, ContractError>) -> bool {
    match outcome {
        PlaceOrderReply::Failed(text) => r matches Err(ContractError::GenericErr { msg }) && msg
            == text,
        PlaceOrderReply::NoData => r matches Ok(a) && a.messages@.len() == 0
            && a.attributes@.len() == 1 && is_attribute(
            a.attributes@[0],
            "method"@,
            "handle_place_order_reply"@,
        ),
        PlaceOrderReply::Unreadable => r matches Err(ContractError::ParseErr { target_type, msg })
            && target_type@ == "MsgPlaceOrdersResponse"@ && msg@ == "failed to parse data"@,
        PlaceOrderReply::Ids(parsed) => r matches Ok(a) && a.messages@.len() == 0
            && a.attributes@.len() == 2 && is_attribute(
            a.attributes@[0],
            "method"@,
            "handle_place_order_reply"@,
        ) && is_attribute(a.attributes@[1], "order_ids"@, ids_text(parsed.order_ids@)),
    }
}

impl Response {
    /// A response that sends nothing and reports nothing.
    pub fn new() -> (r: Response)
        ensures
            is_empty_response(r),
    {
        Response { messages: Vec::new(), attributes: Vec::new() }
    }

    /// The response with one more message, to which no reply is wanted.
    pub fn add_message(self, msg: ContractMsg) -> (r: Response)
        ensures
            r.messages@ == self.messages@.push(
                SubMsg { id: 0, msg: msg, reply_on: ReplyOn::Never },
            ),
            r.attributes@ == self.attributes@,
    {
        let mut messages = self.messages;
        messages.push(SubMsg { id: 0, msg: msg, reply_on: ReplyOn::Never });
        Response { messages, attributes: self.attributes }
    }

    /// The response with one more message.
    pub fn add_submessage(self, msg: SubMsg) -> (r: Response)
        ensures
            r.messages@ == self.messages@.push(msg),
            r.attributes@ == self.attributes@,
    {
        let mut messages = self.messages;
        messages.push(msg);
        Response { messages, attributes: self.attributes }
    }

    /// The response with one more attribute.
    pub fn add_attribute(self, key: String, value: String) -> (r: Response)
        ensures
            r.messages@ == self.messages@,
            r.attributes@ == self.attributes@.push(Attribute { key: key, value: value }),
    {
        let mut attributes = self.attributes;
        attributes.push(Attribute { key, value });
        Response { messages: self.messages, attributes }
    }
}

/// Whether a migration from the contract recorded as `stored_contract`
/// to the contract named `contract_name` is in order: only from the
/// same contract.
pub fn validate_migration(stored_contract: &String, contract_name: &String) -> (r: Result<
    (),
    ContractError,
>)
    ensures
        stored_contract@ == contract_name@ ==> r is Ok,
        stored_contract@ != contract_name@ ==> (r matches Err(ContractError::GenericErr { msg })
            && msg@ == "Can only upgrade from same type"@),
{
    if *stored_contract != *contract_name {
        return Err(
            ContractError::GenericErr { msg: String::from_str("Can only upgrade from same type") },
        );
    }
    Ok(())
}

/// Sets the contract up: nothing is sent.
pub fn instantiate(_msg: InstantiateMsg) -> (r: Result<Response, ContractError>)
    ensures
        r matches Ok(a) && is_empty_response(a),
{
    Ok(Response::new())
}

/// The order that the contract places, with the data `data`.
pub fn test_order(data: String) -> (r: Order)
    ensures
        is_test_order(r, data@),
{
    Order {
        price: Decimal::raw(120 * DECIMAL_FRACTIONAL),
        quantity: Decimal::one(),
        price_denom: String::from_str("USDC"),
        asset_denom: String::from_str("ATOM"),
        position_direction: PositionDirection::Long,
        order_type: OrderType::Limit,
        data: data,
        status_description: String::new(),
        nominal: Decimal::zero(),
    }
}

/// Places the test order for the contract at [`ORDER_CONTRACT_ADDRESS`],
/// with funds of 10000000000 uusdc, and asks for the reply on success.
pub fn place_orders(data: String) -> (r: Result<Response, ContractError>)
    ensures
        r matches Ok(a) && is_place_orders_response(a, data@),
{
    let mut orders: Vec<Order> = Vec::new();
    orders.push(test_order(data));
    let mut funds: Vec<Coin> = Vec::new();
    funds.push(Coin { denom: String::from_str("uusdc"), amount: 10000000000u128 });
    let test_order = SeiMsg::PlaceOrders {
        funds: funds,
        orders: orders,
        contract_address: String::from_str(ORDER_CONTRACT_ADDRESS),
    };
    let sub_msg = SubMsg {
        id: PLACE_ORDER_REPLY_ID,
        msg: ContractMsg::Custom(test_order),
        reply_on: ReplyOn::Success,
    };
    Ok(Response::new().add_submessage(sub_msg))
}

/// Cancels the orders `order_ids` of the contract at `contract_address`,
/// each as the test order.
pub fn cancel_orders(contract_address: String, order_ids: Vec<u64>) -> (r: Result<
    Response,
    ContractError,
>)
    ensures
        r matches Ok(a) && is_cancel_orders_response(a, contract_address@, order_ids@),
{
    let mut cancellations: Vec<Cancellation> = Vec::new();
    let mut i: usize = 0;
    while i < order_ids.len()
        invariant
            i <= order_ids.len(),
            cancellations@.len() == i,
            forall|j: int|
                0 <= j < i ==> is_test_cancellation(
                    #[trigger] cancellations@[j],
                    order_ids@[j],
                    contract_address@,
                ),
        decreases order_ids.len() - i,
    {
        cancellations.push(
            Cancellation {
                id: order_ids[i],
                contract_address: contract_address.clone(),
                price_denom: String::from_str("USDC"),
                asset_denom: String::from_str("ATOM"),
                price: Decimal::raw(120 * DECIMAL_FRACTIONAL),
                position_direction: PositionDirection::Long,
                order_type: OrderType::Limit,
            },
        );
        i = i + 1;
    }
    let test_cancel = SeiMsg::CancelOrders {
        cancellations: cancellations,
        contract_address: contract_address,
    };
    Ok(Response::new().add_message(ContractMsg::Custom(test_cancel)))
}

/// Creates the denomination `subdenom` of the contract.
pub fn create_denom() -> (r: Result<Response, ContractError>)
    ensures
        r matches Ok(a) && is_create_denom_response(a),
{
    let test_create_denom = SeiMsg::CreateDenom { subdenom: String::from_str("subdenom") };
    Ok(Response::new().add_message(ContractMsg::Custom(test_create_denom)))
}

/// Mints 100 of the contract's denomination and sends them to `sender`.
pub fn mint(contract_address: String, sender: String) -> (r: Result<Response, ContractError>)
    ensures
        r matches Ok(a) && is_mint_response(a, contract_address@, sender@),
{
    let tokenfactory_denom = make_denom_key(contract_address.as_str(), "subdenom");
    let amount = Coin { denom: tokenfactory_denom, amount: 100 };
    let test_mint = SeiMsg::MintTokens { amount: amount.clone() };
    let mut coins: Vec<Coin> = Vec::new();
    coins.push(amount);
    let send_msg = SubMsg {
        id: 0,
        msg: ContractMsg::BankSend { to_address: sender, amount: coins },
        reply_on: ReplyOn::Never,
    };
    Ok(Response::new().add_message(ContractMsg::Custom(test_mint)).add_submessage(send_msg))
}

/// Burns 10 of the contract's denomination.
pub fn burn(contract_address: String) -> (r: Result<Response, ContractError>)
    ensures
        r matches Ok(a) && is_burn_response(a, contract_address@),
{
    let tokenfactory_denom = make_denom_key(contract_address.as_str(), "subdenom");
    let amount = Coin { denom: tokenfactory_denom, amount: 10 };
    let test_burn = SeiMsg::BurnTokens { amount };
    Ok(Response::new().add_message(ContractMsg::Custom(test_burn)))
}

/// Hands the contract's denomination to [`NEW_ADMIN_ADDRESS`].
pub fn change_admin(contract_address: String) -> (r: Result<Response, ContractError>)
    ensures
        r matches Ok(a) && is_change_admin_response(a, contract_address@),
{
    let tokenfactory_denom = make_denom_key(contract_address.as_str(), "subdenom");
    let test_change_admin = SeiMsg::ChangeAdmin {
        denom: tokenfactory_denom,
        new_admin_address: String::from_str(NEW_ADMIN_ADDRESS),
    };
    Ok(Response::new().add_message(ContractMsg::Custom(test_change_admin)))
}

/// Sets the metadata of the contract's denomination.
pub fn set_metadata(contract_address: String) -> (r: Result<Response, ContractError>)
    ensures
        r matches Ok(a) && is_set_metadata_response(a, contract_address@),
{
    let tokenfactory_denom = make_denom_key(contract_address.as_str(), "subdenom");
    let mut base_aliases: Vec<String> = Vec::new();
    base_aliases.push(String::from_str("usubdenom"));
    let mut display_aliases: Vec<String> = Vec::new();
    display_aliases.push(String::from_str("subdenom"));
    let mut denom_units: Vec<DenomUnit> = Vec::new();
    denom_units.push(
        DenomUnit { denom: tokenfactory_denom.clone(), exponent: 0, aliases: base_aliases },
    );
    denom_units.push(
        DenomUnit { denom: String::from_str("SUBDENOM"), exponent: 6, aliases: display_aliases },
    );
    let test_metadata = Metadata {
        description: String::from_str("Token Metadata"),
        base: tokenfactory_denom,
        display: String::from_str("SUBDENOM"),
        name: String::from_str("subdenom"),
        symbol: String::from_str("SUB"),
        denom_units: denom_units,
    };
    let test_set_metadata = SeiMsg::SetMetadata { metadata: test_metadata };
    Ok(Response::new().add_message(ContractMsg::Custom(test_set_metadata)))
}

/// Calls the EVM contract at `to` with `value` and `data`.
pub fn call_evm(value: u128, to: String, data: String) -> (r: Result<Response, ContractError>)
    ensures
        r matches Ok(a) && is_call_evm_response(a, value, to, data),
{
    let test_call_evm = SeiMsg::CallEvm { value, to, data };
    Ok(Response::new().add_message(ContractMsg::Custom(test_call_evm)))
}

/// Sums up the values of `values` for `sender` and reports the sender,
/// the sum, and each key with its value.
pub fn test_occ_iterator_range(sender: String, values: Vec<(u64, u64)>) -> (r: Result<
    (u64, Response),
    ContractError,
>)
    ensures
        values_sum(values@, values@.len() as int) <= u64::MAX ==> (r matches Ok((sum, a)) && {
            &&& sum == values_sum(values@, values@.len() as int)
            &&& a.messages@.len() == 0
            &&& a.attributes@.len() == values@.len() + 2
            &&& is_attribute(a.attributes@[0], "user"@, sender@)
            &&& is_attribute(a.attributes@[1], "sum"@, digits(sum as nat))
            &&& forall|i: int|
                0 <= i < values@.len() ==> is_attribute(
                    #[trigger] a.attributes@[i + 2],
                    digits(values@[i].0 as nat),
                    digits(values@[i].1 as nat),
                )
        }),
        values_sum(values@, values@.len() as int) > u64::MAX ==> r is Err,
{
    let mut sum: u64 = 0;
    let mut i: usize = 0;
    while i < values.len()
        invariant
            i <= values.len(),
            sum == values_sum(values@, i as int),
        decreases values.len() - i,
    {
        sum = match sum.checked_add(values[i].1) {
            Some(v) => v,
            None => {
                proof {
                    lemma_values_sum_grows(values@, i + 1, values@.len() as int);
                }
                return Err(
                    ContractError::GenericErr { msg: String::from_str("attempt to add with overflow") },
                );
            },
        };
        i = i + 1;
    }
    let mut attributes: Vec<Attribute> = Vec::new();
    attributes.push(Attribute { key: String::from_str("user"), value: sender });
    attributes.push(Attribute { key: String::from_str("sum"), value: u64_to_string(sum) });
    let mut k: usize = 0;
    while k < values.len()
        invariant
            k <= values.len(),
            attributes@.len() == k + 2,
            is_attribute(attributes@[0], "user"@, sender@),
            is_attribute(attributes@[1], "sum"@, digits(sum as nat)),
            forall|j: int|
                0 <= j < k ==> is_attribute(
                    #[trigger] attributes@[j + 2],
                    digits(values@[j].0 as nat),
                    digits(values@[j].1 as nat),
                ),
        decreases values.len() - k,
    {
        attributes.push(
            Attribute { key: u64_to_string(values[k].0), value: u64_to_string(values[k].1) },
        );
        k = k + 1;
    }
    Ok((sum, Response { messages: Vec::new(), attributes }))
}

/// The sum of values does not fall as more of them are taken.
proof fn lemma_values_sum_grows(values: Seq<(u64, u64)>, k: int, n: int)
    requires
        0 <= k <= n,
    ensures
        values_sum(values, k) <= values_sum(values, n),
    decreases n - k,
{
    if k < n {
        lemma_values_sum_grows(values, k, n - 1);
    }
}

/// Reports the sender and the value that it wrote.
pub fn test_occ_parallelism(sender: String, value: u64) -> (r: Result<Response, ContractError>)
    ensures
        r matches Ok(a) && {
            &&& a.messages@.len() == 0
            &&& a.attributes@.len() == 2
            &&& is_attribute(a.attributes@[0], "user"@, sender@)
            &&& is_attribute(a.attributes@[1], "val"@, digits(value as nat))
        },
{
    Ok(
        Response::new().add_attribute(String::from_str("user"), sender).add_attribute(
            String::from_str("val"),
            u64_to_string(value),
        ),
    )
}

/// Takes a message for the contract at `contract_address` from `sender`.
/// The test order carries the data `order_data`.
pub fn execute(contract_address: String, sender: String, order_data: String, msg: ExecuteMsg) -> (r:
    Result<Response, ContractError>)
    ensures
        r matches Ok(a) && match msg {
            ExecuteMsg::PlaceOrders {  } => is_place_orders_response(a, order_data@),
            ExecuteMsg::CancelOrders { order_ids } => is_cancel_orders_response(
                a,
                contract_address@,
                order_ids@,
            ),
            ExecuteMsg::CreateDenom {  } => is_create_denom_response(a),
            ExecuteMsg::Mint {  } => is_mint_response(a, contract_address@, sender@),
            ExecuteMsg::Burn {  } => is_burn_response(a, contract_address@),
            ExecuteMsg::ChangeAdmin {  } => is_change_admin_response(a, contract_address@),
            ExecuteMsg::SetMetadata {  } => is_set_metadata_response(a, contract_address@),
            ExecuteMsg::CallEvm { value, to, data } => is_call_evm_response(a, value, to, data),
        },
{
    match msg {
        ExecuteMsg::PlaceOrders {  } => place_orders(order_data),
        ExecuteMsg::CancelOrders { order_ids } => cancel_orders(contract_address, order_ids),
        ExecuteMsg::CreateDenom {  } => create_denom(),
        ExecuteMsg::Mint {  } => mint(contract_address, sender),
        ExecuteMsg::Burn {  } => burn(contract_address),
        ExecuteMsg::ChangeAdmin {  } => change_admin(contract_address),
        ExecuteMsg::SetMetadata {  } => set_metadata(contract_address),
        ExecuteMsg::CallEvm { value, to, data } => call_evm(value, to, data),
    }
}

/// Takes settlements from the chain: nothing is done.
pub fn process_settlements(_entries: Vec<SettlementEntry>, _epoch: i64) -> (r: Result<
    Response,
    ContractError,
>)
    ensures
        r matches Ok(a) && is_empty_response(a),
{
    Ok(Response::new())
}

/// Takes bulk placements from the chain: nothing is done.
pub fn process_bulk_order_placements(_orders: Vec<Order>, _deposits: Vec<DepositInfo>) -> (r:
    Result<Response, ContractError>)
    ensures
        r matches Ok(a) && is_empty_response(a),
{
    Ok(Response::new())
}

/// Takes bulk cancellations from the chain: nothing is done.
pub fn process_bulk_order_cancellations(_ids: Vec<u64>) -> (r: Result<Response, ContractError>)
    ensures
        r matches Ok(a) && is_empty_response(a),
{
    Ok(Response::new())
}

/// Takes a message from the chain: each kind is acknowledged and nothing
/// is done.
pub fn sudo(msg: SudoMsg) -> (r: Result<Response, ContractError>)
    ensures
        r matches Ok(a) && is_empty_response(a),
{
    match msg {
        SudoMsg::Settlement { epoch, entries } => process_settlements(entries, epoch),
        SudoMsg::BulkOrderPlacements { orders, deposits } => process_bulk_order_placements(
            orders,
            deposits,
        ),
        SudoMsg::BulkOrderCancellations { ids } => process_bulk_order_cancellations(ids),
    }
}

/// The ids between square brackets, with a comma and a space between
/// each two.
pub fn format_ids(ids: &Vec<u64>) -> (r: String)
    ensures
        r@ == ids_text(ids@),
{
    let mut text = String::from_str("[");
    let mut i: usize = 0;
    assert(ids@.take(0) =~= Seq::<u64>::empty());
    assert(text@ =~= "["@ + ids_joined(ids@.take(0)));
    while i < ids.len()
        invariant
            i <= ids.len(),
            text@ == "["@ + ids_joined(ids@.take(i as int)),
        decreases ids.len() - i,
    {
        let ghost before = ids@.take(i as int);
        let ghost after = ids@.take(i + 1);
        proof {
            assert(after.drop_last() =~= before);
            assert(after.last() == ids@[i as int]);
        }
        if i > 0 {
            text.append(", ");
        }
        push_digits(&mut text, ids[i]);
        proof {
            if i == 0 {
                assert(ids_joined(after) == digits(ids@[0] as nat));
                assert(ids_joined(before) =~= Seq::<char>::empty());
            }
            assert(text@ =~= "["@ + ids_joined(after));
        }
        i = i + 1;
    }
    assert(ids@.take(ids.len() as int) =~= ids@);
    text.append("]");
    text
}

/// Takes what came back for the placement of orders: the ids are
/// reported where there are any.
pub fn handle_place_order_reply(reply: PlaceOrderReply) -> (r: Result<Response, ContractError>)
    ensures
        is_reply_outcome(reply, r),
{
    match reply {
        PlaceOrderReply::Failed(text) => Err(ContractError::GenericErr { msg: text }),
        PlaceOrderReply::NoData => Ok(
            Response::new().add_attribute(
                String::from_str("method"),
                String::from_str("handle_place_order_reply"),
            ),
        ),
        PlaceOrderReply::Unreadable => Err(
            ContractError::ParseErr {
                target_type: String::from_str("MsgPlaceOrdersResponse"),
                msg: String::from_str("failed to parse data"),
            },
        ),
        PlaceOrderReply::Ids(parsed) => Ok(
            Response::new().add_attribute(
                String::from_str("method"),
                String::from_str("handle_place_order_reply"),
            ).add_attribute(String::from_str("order_ids"), format_ids(&parsed.order_ids)),
        ),
    }
}

/// The text of the error for a reply with an id that the contract did
/// not ask for.
pub open spec fn unknown_reply_text(id: u64) -> Seq<char> {
    "Unknown reply id: "@ + digits(id as nat)
}

/// Takes the reply with the id `id`: that of a placement is handled, any
/// other is refused.
pub fn reply(id: u64, outcome: PlaceOrderReply) -> (r: Result<Response, ContractError>)
    ensures
        id == PLACE_ORDER_REPLY_ID ==> is_reply_outcome(outcome, r),
        id != PLACE_ORDER_REPLY_ID ==> (r matches Err(ContractError::GenericErr { msg }) && msg@
            == unknown_reply_text(id)),
{
    if id == PLACE_ORDER_REPLY_ID {
        handle_place_order_reply(outcome)
    } else {
        let mut text = String::from_str("Unknown reply id: ");
        push_digits(&mut text, id);
        Err(ContractError::GenericErr { msg: text })
    }
}

/// The request that the contract sends to the chain for a query.
pub fn query(msg: QueryMsg) -> (r: SeiQueryWrapper)
    ensures
        match msg {
            QueryMsg::ExchangeRates {  } => r == (SeiQueryWrapper {
                route: SeiRoute::Oracle,
                query_data: SeiQuery::ExchangeRates {  },
            }),
            QueryMsg::OracleTwaps { lookback_seconds } => r == (SeiQueryWrapper {
                route: SeiRoute::Oracle,
                query_data: SeiQuery::OracleTwaps { lookback_seconds },
            }),
            QueryMsg::DexTwaps { contract_address, lookback_seconds } => r == (SeiQueryWrapper {
                route: SeiRoute::Dex,
                query_data: SeiQuery::DexTwaps { contract_address, lookback_seconds },
            }),
            QueryMsg::OrderSimulation { order, contract_address } => r == (SeiQueryWrapper {
                route: SeiRoute::Dex,
                query_data: SeiQuery::OrderSimulation { contract_address, order },
            }),
            QueryMsg::Epoch {  } => r == (SeiQueryWrapper {
                route: SeiRoute::Epoch,
                query_data: SeiQuery::Epoch {  },
            }),
            QueryMsg::GetOrders { contract_address, account } => r == (SeiQueryWrapper {
                route: SeiRoute::Dex,
                query_data: SeiQuery::GetOrders { contract_address, account },
            }),
            QueryMsg::GetOrderById { contract_address, price_denom, asset_denom, id } => r == (
            SeiQueryWrapper {
                route: SeiRoute::Dex,
                query_data: SeiQuery::GetOrderById { contract_address, price_denom, asset_denom, id },
            }),
            QueryMsg::GetLatestPrice { contract_address, price_denom, asset_denom } => r == (
            SeiQueryWrapper {
                route: SeiRoute::Dex,
                query_data: SeiQuery::GetLatestPrice { contract_address, price_denom, asset_denom },
            }),
            QueryMsg::GetDenomAuthorityMetadata { denom } => r == (SeiQueryWrapper {
                route: SeiRoute::Tokenfactory,
                query_data: SeiQuery::DenomAuthorityMetadata { denom },
            }),
            QueryMsg::GetDenomsFromCreator { creator } => r == (SeiQueryWrapper {
                route: SeiRoute::Tokenfactory,
                query_data: SeiQuery::DenomsFromCreator { creator },
            }),
            QueryMsg::StaticCall { from, to, data } => r == (SeiQueryWrapper {
                route: SeiRoute::Evm,
                query_data: SeiQuery::StaticCall { from, to, data },
            }),
            QueryMsg::GetEvmAddressBySeiAddress { sei_address } => r == (SeiQueryWrapper {
                route: SeiRoute::Evm,
                query_data: SeiQuery::GetEvmAddress { sei_address },
            }),
            QueryMsg::GetSeiAddressByEvmAddress { evm_address } => r == (SeiQueryWrapper {
                route: SeiRoute::Evm,
                query_data: SeiQuery::GetSeiAddress { evm_address },
            }),
        },
{
    match msg {
        QueryMsg::ExchangeRates {  } => query_exchange_rates(),
        QueryMsg::OracleTwaps { lookback_seconds } => query_oracle_twaps(lookback_seconds),
        QueryMsg::DexTwaps { contract_address, lookback_seconds } => query_dex_twaps(
            contract_address,
            lookback_seconds,
        ),
        QueryMsg::OrderSimulation { order, contract_address } => query_order_simulation(
            order,
            contract_address,
        ),
        QueryMsg::Epoch {  } => query_epoch(),
        QueryMsg::GetOrders { contract_address, account } => query_get_orders(
            contract_address,
            account,
        ),
        QueryMsg::GetOrderById {
            contract_address,
            price_denom,
            asset_denom,
            id,
        } => query_get_order_by_id(contract_address, price_denom, asset_denom, id),
        QueryMsg::GetLatestPrice {
            contract_address,
            price_denom,
            asset_denom,
        } => query_get_latest_price(contract_address, price_denom, asset_denom),
        QueryMsg::GetDenomAuthorityMetadata { denom } => query_denom_authority_metadata(denom),
        QueryMsg::GetDenomsFromCreator { creator } => query_denoms_from_creator(creator),
        QueryMsg::StaticCall { from, to, data } => query_static_call(from, to, data),
        QueryMsg::GetEvmAddressBySeiAddress { sei_address } => query_evm_address(sei_address),
        QueryMsg::GetSeiAddressByEvmAddress { evm_address } => query_sei_address(evm_address),
    }
}

/// The request for the current exchange rates.
pub fn query_exchange_rates() -> (r: SeiQueryWrapper)
    ensures
        r == (SeiQueryWrapper { route: SeiRoute::Oracle, query_data: SeiQuery::ExchangeRates {  } }),
{
    SeiQuerier::new().query_exchange_rates()
}

/// The request for the time-weighted average exchange rates.
pub fn query_oracle_twaps(lookback_seconds: u64) -> (r: SeiQueryWrapper)
    ensures
        r == (SeiQueryWrapper {
            route: SeiRoute::Oracle,
            query_data: SeiQuery::OracleTwaps { lookback_seconds },
        }),
{
    SeiQuerier::new().query_oracle_twaps(lookback_seconds)
}

/// The request for the time-weighted average prices of a contract.
pub fn query_dex_twaps(contract_address: String, lookback_seconds: u64) -> (r: SeiQueryWrapper)
    ensures
        r == (SeiQueryWrapper {
            route: SeiRoute::Dex,
            query_data: SeiQuery::DexTwaps { contract_address, lookback_seconds },
        }),
{
    SeiQuerier::new().query_dex_twaps(lookback_seconds, contract_address)
}

/// The request for the simulation of an order.
pub fn query_order_simulation(order: Order, contract_address: String) -> (r: SeiQueryWrapper)
    ensures
        r == (SeiQueryWrapper {
            route: SeiRoute::Dex,
            query_data: SeiQuery::OrderSimulation { contract_address, order },
        }),
{
    SeiQuerier::new().query_order_simulation(order, contract_address)
}

/// The request for the epoch.
pub fn query_epoch() -> (r: SeiQueryWrapper)
    ensures
        r == (SeiQueryWrapper { route: SeiRoute::Epoch, query_data: SeiQuery::Epoch {  } }),
{
    SeiQuerier::new().query_epoch()
}

/// The request for the orders of a contract.
pub fn query_get_orders(contract_address: String, account: String) -> (r: SeiQueryWrapper)
    ensures
        r == (SeiQueryWrapper {
            route: SeiRoute::Dex,
            query_data: SeiQuery::GetOrders { contract_address, account },
        }),
{
    SeiQuerier::new().query_get_orders(contract_address, account)
}

/// The request for one order of a contract.
pub fn query_get_order_by_id(
    contract_address: String,
    price_denom: String,
    asset_denom: String,
    order_id: u64,
) -> (r: SeiQueryWrapper)
    ensures
        r == (SeiQueryWrapper {
            route: SeiRoute::Dex,
            query_data: SeiQuery::GetOrderById {
                contract_address,
                price_denom,
                asset_denom,
                id: order_id,
            },
        }),
{
    SeiQuerier::new().query_get_order_by_id(contract_address, price_denom, asset_denom, order_id)
}

/// The request for the latest price of a market.
pub fn query_get_latest_price(contract_address: String, price_denom: String, asset_denom: String) -> (r:
    SeiQueryWrapper)
    ensures
        r == (SeiQueryWrapper {
            route: SeiRoute::Dex,
            query_data: SeiQuery::GetLatestPrice { contract_address, price_denom, asset_denom },
        }),
{
    SeiQuerier::new().query_get_latest_price(contract_address, price_denom, asset_denom)
}

/// The request for the authority metadata of a denomination.
pub fn query_denom_authority_metadata(denom: String) -> (r: SeiQueryWrapper)
    ensures
        r == (SeiQueryWrapper {
            route: SeiRoute::Tokenfactory,
            query_data: SeiQuery::DenomAuthorityMetadata { denom },
        }),
{
    SeiQuerier::new().query_denom_authority_metadata(denom)
}

/// The request for the denominations of a creator.
pub fn query_denoms_from_creator(creator: String) -> (r: SeiQueryWrapper)
    ensures
        r == (SeiQueryWrapper {
            route: SeiRoute::Tokenfactory,
            query_data: SeiQuery::DenomsFromCreator { creator },
        }),
{
    SeiQuerier::new().query_denoms_from_creator(creator)
}

/// The request for a call of an EVM contract that changes no state.
pub fn query_static_call(from: String, to: String, data: String) -> (r: SeiQueryWrapper)
    ensures
        r == (SeiQueryWrapper {
            route: SeiRoute::Evm,
            query_data: SeiQuery::StaticCall { from, to, data },
        }),
{
    SeiQuerier::new().static_call(from, to, data)
}

/// The request for the EVM address of a Sei address.
pub fn query_evm_address(sei_address: String) -> (r: SeiQueryWrapper)
    ensures
        r == (SeiQueryWrapper {
            route: SeiRoute::Evm,
            query_data: SeiQuery::GetEvmAddress { sei_address },
        }),
{
    SeiQuerier::new().get_evm_address(sei_address)
}

/// The request for the Sei address of an EVM address.
pub fn query_sei_address(evm_address: String) -> (r: SeiQueryWrapper)
    ensures
        r == (SeiQueryWrapper {
            route: SeiRoute::Evm,
            query_data: SeiQuery::GetSeiAddress { evm_address },
        }),
{
    SeiQuerier::new().get_sei_address(evm_address)
}

} // verus!
