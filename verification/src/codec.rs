//! The JSON under which the order book keeps its orders.
//!
//! A stored order is an object of twelve fields, in this order:
//!
//! ```text
//! {"id":0,"status":0,"account":"..","contract_address":"..",
//!  "price":"1.5","quantity":"2","price_denom":"..","asset_denom":"..",
//!  "order_type":0,"position_direction":0,"data":"..",
//!  "status_description":".."}
//! ```
//!
//! with no space between the tokens. A stored list is an array of such
//! objects. The decoders accept what the encoders write.

use crate::decimal::Decimal;
use crate::json::amount_bytes;
use crate::json::is_digit_byte;
use crate::json::lemma_take_amount;
use crate::json::lemma_take_number;
use crate::json::lemma_take_text;
use crate::json::number_bytes;
use crate::json::push_amount;
use crate::json::push_number;
use crate::json::push_text;
use crate::json::read_amount;
use crate::json::read_number;
use crate::json::read_text;
use crate::json::take_amount;
use crate::json::take_number;
use crate::json::take_text;
use crate::json::text_bytes;
use crate::sei_types::OrderResponse;
use crate::sei_types::OrderResponseView;
use crate::sei_types::OrderStatus;
use crate::sei_types::OrderType;
use crate::sei_types::PositionDirection;
use vstd::prelude::*;
use vstd::utf8::*;

verus! {

/// The number of fields of a stored order.
pub const FIELD_COUNT: usize = 12;

/// What kind of value a field holds.
#[derive(Clone, Copy, Debug, PartialEq, Eq, Structural)]
pub enum FieldKind {
    /// An unsigned number.
    Number,
    /// A text.
    Text,
    /// A decimal amount, as a text.
    Amount,
}

/// The value of a field.
pub enum FieldValue {
    Number(nat),
    Text(Seq<char>),
    Amount(u128),
}

/// The value of a field, in memory.
pub enum JsonValue {
    Number(u128),
    Text(String),
    Amount(u128),
}

impl View for JsonValue {
    type V = FieldValue;

    open spec fn view(&self) -> FieldValue {
        match self {
            JsonValue::Number(n) => FieldValue::Number(*n as nat),
            JsonValue::Text(t) => FieldValue::Text(t@),
            JsonValue::Amount(a) => FieldValue::Amount(*a),
        }
    }
}

impl DeepView for JsonValue {
    type V = FieldValue;

    open spec fn deep_view(&self) -> FieldValue {
        self@
    }
}

/// The kind of a value.
pub open spec fn value_kind(v: FieldValue) -> FieldKind {
    match v {
        FieldValue::Number(_) => FieldKind::Number,
        FieldValue::Text(_) => FieldKind::Text,
        FieldValue::Amount(_) => FieldKind::Amount,
    }
}

/// The kinds of values.
pub open spec fn value_kinds(values: Seq<FieldValue>) -> Seq<FieldKind> {
    Seq::new(values.len(), |i: int| value_kind(values[i]))
}

/// Whether a value can be written and read back: a number must fit in 128
/// bits.
pub open spec fn value_ok(v: FieldValue) -> bool {
    match v {
        FieldValue::Number(n) => n <= u128::MAX,
        _ => true,
    }
}

/// A value as JSON.
pub open spec fn value_bytes(v: FieldValue) -> Seq<u8> {
    match v {
        FieldValue::Number(n) => number_bytes(n),
        FieldValue::Text(t) => text_bytes(t),
        FieldValue::Amount(a) => amount_bytes(a),
    }
}

/// The value of the kind `kind` at the start of `b`, and what follows it.
pub open spec fn take_value(kind: FieldKind, b: Seq<u8>) -> Option<(FieldValue, Seq<u8>)> {
    match kind {
        FieldKind::Number => match take_number(b) {
            Some((n, rest)) => Some((FieldValue::Number(n), rest)),
            None => None,
        },
        FieldKind::Text => match take_text(b) {
            Some((t, rest)) => Some((FieldValue::Text(t), rest)),
            None => None,
        },
        FieldKind::Amount => match take_amount(b) {
            Some((a, rest)) => Some((FieldValue::Amount(a), rest)),
            None => None,
        },
    }
}

/// What stands before the value of the field `i`: a brace for the first
/// field and a comma for every other, then the name between quotes, then
/// a colon.
pub open spec fn field_head(names: Seq<Seq<char>>, i: int) -> Seq<u8> {
    seq![
        if i == 0 {
            123u8
        } else {
            44u8
        },
        34u8,
    ] + encode_utf8(names[i]) + seq![34u8, 58u8]
}

/// The fields from `i` on, and the closing brace.
pub open spec fn fields_bytes(names: Seq<Seq<char>>, values: Seq<FieldValue>, i: int) -> Seq<u8>
    decreases values.len() - i,
{
    if i >= values.len() {
        seq![125u8]
    } else {
        field_head(names, i) + value_bytes(values[i]) + fields_bytes(names, values, i + 1)
    }
}

/// What follows `prefix` in `b`, where `b` starts with `prefix`.
pub open spec fn strip(prefix: Seq<u8>, b: Seq<u8>) -> Option<Seq<u8>> {
    if prefix.len() <= b.len() && b.take(prefix.len() as int) == prefix {
        Some(b.skip(prefix.len() as int))
    } else {
        None
    }
}

/// The values of the fields from `i` on at the start of `b`, and what
/// follows the closing brace.
pub open spec fn take_fields(names: Seq<Seq<char>>, kinds: Seq<FieldKind>, b: Seq<u8>, i: int) -> Option<
    (Seq<FieldValue>, Seq<u8>),
>
    decreases kinds.len() - i,
{
    if i >= kinds.len() {
        match strip(seq![125u8], b) {
            Some(rest) => Some((Seq::empty(), rest)),
            None => None,
        }
    } else {
        match strip(field_head(names, i), b) {
            None => None,
            Some(after_head) => match take_value(kinds[i], after_head) {
                None => None,
                Some((v, after_value)) => match take_fields(names, kinds, after_value, i + 1) {
                    None => None,
                    Some((vs, rest)) => Some((seq![v] + vs, rest)),
                },
            },
        }
    }
}

/// A prefix is stripped from what starts with it.
pub proof fn lemma_strip(prefix: Seq<u8>, rest: Seq<u8>)
    ensures
        strip(prefix, prefix + rest) == Some(rest),
{
    assert((prefix + rest).take(prefix.len() as int) =~= prefix);
    assert((prefix + rest).skip(prefix.len() as int) =~= rest);
}

/// A written value is read back before anything that starts with no
/// digit.
pub proof fn lemma_take_value(v: FieldValue, rest: Seq<u8>)
    requires
        value_ok(v),
        rest.len() == 0 || !is_digit_byte(rest[0]),
    ensures
        take_value(value_kind(v), value_bytes(v) + rest) == Some((v, rest)),
{
    match v {
        FieldValue::Number(n) => {
            lemma_take_number(n, rest);
        },
        FieldValue::Text(t) => {
            lemma_take_text(t, rest);
        },
        FieldValue::Amount(a) => {
            lemma_take_amount(a, rest);
        },
    }
}

/// Written fields start with a comma or a brace, not with a digit.
pub proof fn lemma_fields_start(names: Seq<Seq<char>>, values: Seq<FieldValue>, i: int)
    requires
        0 < i,
    ensures
        fields_bytes(names, values, i).len() > 0,
        !is_digit_byte(fields_bytes(names, values, i)[0]),
{
    if i < values.len() {
        assert(fields_bytes(names, values, i)[0] == field_head(names, i)[0]);
    }
}

/// Written fields are read back.
pub proof fn lemma_take_fields(
    names: Seq<Seq<char>>,
    values: Seq<FieldValue>,
    rest: Seq<u8>,
    i: int,
)
    requires
        0 <= i <= values.len(),
        forall|j: int| 0 <= j < values.len() ==> value_ok(#[trigger] values[j]),
    ensures
        take_fields(names, value_kinds(values), fields_bytes(names, values, i) + rest, i) == Some(
            (values.skip(i), rest),
        ),
    decreases values.len() - i,
{
    let kinds = value_kinds(values);
    let b = fields_bytes(names, values, i) + rest;
    if i >= values.len() {
        lemma_strip(seq![125u8], rest);
        assert(values.skip(i) =~= Seq::<FieldValue>::empty());
    } else {
        let head = field_head(names, i);
        let later = fields_bytes(names, values, i + 1);
        let after_head = value_bytes(values[i]) + (later + rest);
        assert(b =~= head + after_head);
        lemma_strip(head, after_head);
        lemma_fields_start(names, values, i + 1);
        assert((later + rest)[0] == later[0]);
        lemma_take_value(values[i], later + rest);
        lemma_take_fields(names, values, rest, i + 1);
        assert(seq![values[i]] + values.skip(i + 1) =~= values.skip(i));
    }
}

/// The names of the fields of a stored order.
pub open spec fn order_names() -> Seq<Seq<char>> {
    seq![
        "id"@,
        "status"@,
        "account"@,
        "contract_address"@,
        "price"@,
        "quantity"@,
        "price_denom"@,
        "asset_denom"@,
        "order_type"@,
        "position_direction"@,
        "data"@,
        "status_description"@,
    ]
}

/// The kinds of the fields of a stored order.
pub open spec fn order_kinds() -> Seq<FieldKind> {
    seq![
        FieldKind::Number,
        FieldKind::Number,
        FieldKind::Text,
        FieldKind::Text,
        FieldKind::Amount,
        FieldKind::Amount,
        FieldKind::Text,
        FieldKind::Text,
        FieldKind::Number,
        FieldKind::Number,
        FieldKind::Text,
        FieldKind::Text,
    ]
}

/// The number that stands for a status.
pub open spec fn status_code(s: OrderStatus) -> nat {
    match s {
        OrderStatus::Placed => 0,
        OrderStatus::FailedToPlace => 1,
        OrderStatus::Cancelled => 2,
        OrderStatus::Fulfilled => 3,
    }
}

/// The status that a number stands for.
pub open spec fn status_of_code(n: nat) -> Option<OrderStatus> {
    if n == 0 {
        Some(OrderStatus::Placed)
    } else if n == 1 {
        Some(OrderStatus::FailedToPlace)
    } else if n == 2 {
        Some(OrderStatus::Cancelled)
    } else if n == 3 {
        Some(OrderStatus::Fulfilled)
    } else {
        None
    }
}

/// The number that stands for an order type.
pub open spec fn order_type_code(t: OrderType) -> nat {
    match t {
        OrderType::Limit => 0,
        OrderType::Market => 1,
        OrderType::Fokmarket => 3,
        OrderType::Fokmarketbyvalue => 4,
    }
}

/// The order type that a number stands for.
pub open spec fn order_type_of_code(n: nat) -> Option<OrderType> {
    if n == 0 {
        Some(OrderType::Limit)
    } else if n == 1 {
        Some(OrderType::Market)
    } else if n == 3 {
        Some(OrderType::Fokmarket)
    } else if n == 4 {
        Some(OrderType::Fokmarketbyvalue)
    } else {
        None
    }
}

/// The number that stands for a direction.
pub open spec fn direction_code(d: PositionDirection) -> nat {
    match d {
        PositionDirection::Long => 0,
        PositionDirection::Short => 1,
    }
}

/// The direction that a number stands for.
pub open spec fn direction_of_code(n: nat) -> Option<PositionDirection> {
    if n == 0 {
        Some(PositionDirection::Long)
    } else if n == 1 {
        Some(PositionDirection::Short)
    } else {
        None
    }
}

/// The values of the fields of an order.
pub open spec fn order_values(o: OrderResponseView) -> Seq<FieldValue> {
    seq![
        FieldValue::Number(o.id as nat),
        FieldValue::Number(status_code(o.status)),
        FieldValue::Text(o.account),
        FieldValue::Text(o.contract_address),
        FieldValue::Amount(o.price.atomics),
        FieldValue::Amount(o.quantity.atomics),
        FieldValue::Text(o.price_denom),
        FieldValue::Text(o.asset_denom),
        FieldValue::Number(order_type_code(o.order_type)),
        FieldValue::Number(direction_code(o.position_direction)),
        FieldValue::Text(o.data),
        FieldValue::Text(o.status_description),
    ]
}

/// The order of the values `vs`, where they are the values of an order.
pub open spec fn order_of_values(vs: Seq<FieldValue>) -> Option<OrderResponseView> {
    if vs.len() != FIELD_COUNT {
        None
    } else {
        match (vs[0], vs[1], vs[2], vs[3], vs[4], vs[5], vs[6], vs[7], vs[8], vs[9], vs[10], vs[11]) {
            (
                FieldValue::Number(id),
                FieldValue::Number(status),
                FieldValue::Text(account),
                FieldValue::Text(contract_address),
                FieldValue::Amount(price),
                FieldValue::Amount(quantity),
                FieldValue::Text(price_denom),
                FieldValue::Text(asset_denom),
                FieldValue::Number(order_type),
                FieldValue::Number(direction),
                FieldValue::Text(data),
                FieldValue::Text(status_description),
            ) => match (
                status_of_code(status),
                order_type_of_code(order_type),
                direction_of_code(direction),
            ) {
                (Some(status), Some(order_type), Some(direction)) => if id <= u64::MAX {
                    Some(
                        OrderResponseView {
                            id: id as u64,
                            status: status,
                            account: account,
                            contract_address: contract_address,
                            price: Decimal { atomics: price },
                            quantity: Decimal { atomics: quantity },
                            price_denom: price_denom,
                            asset_denom: asset_denom,
                            order_type: order_type,
                            position_direction: direction,
                            data: data,
                            status_description: status_description,
                        },
                    )
                } else {
                    None
                },
                _ => None,
            },
            _ => None,
        }
    }
}

/// One order as JSON.
#[verifier::opaque]
pub open spec fn encode_order(o: OrderResponseView) -> Seq<u8> {
    fields_bytes(order_names(), order_values(o), 0)
}

/// The order at the start of `b` and what follows it.
#[verifier::opaque]
pub open spec fn take_order(b: Seq<u8>) -> Option<(OrderResponseView, Seq<u8>)> {
    match take_fields(order_names(), order_kinds(), b, 0) {
        Some((vs, rest)) => match order_of_values(vs) {
            Some(o) => Some((o, rest)),
            None => None,
        },
        None => None,
    }
}

/// The order that `b` holds, where `b` is one stored order and no more.
pub open spec fn decode_order(b: Seq<u8>) -> Option<OrderResponseView> {
    match take_order(b) {
        Some((o, rest)) => if rest.len() == 0 {
            Some(o)
        } else {
            None
        },
        None => None,
    }
}

/// The orders from `i` on, with a comma before every order but the first
/// of the list, and the closing bracket.
pub open spec fn items_bytes(list: Seq<OrderResponseView>, i: int) -> Seq<u8>
    decreases list.len() - i,
{
    if i >= list.len() {
        seq![93u8]
    } else {
        (if i > 0 {
            seq![44u8]
        } else {
            Seq::<u8>::empty()
        }) + encode_order(list[i]) + items_bytes(list, i + 1)
    }
}

/// A list of orders as JSON.
pub open spec fn encode_orders(list: Seq<OrderResponseView>) -> Seq<u8> {
    seq![91u8] + items_bytes(list, 0)
}

/// The orders at the start of `b`, of which `i` were read before, up to
/// the closing bracket, and what follows it. At most `fuel` orders are
/// read.
pub open spec fn take_items(b: Seq<u8>, i: int, fuel: nat) -> Option<
    (Seq<OrderResponseView>, Seq<u8>),
>
    decreases fuel,
{
    if fuel == 0 || b.len() == 0 {
        None
    } else if b[0] == 93 {
        Some((Seq::empty(), b.skip(1)))
    } else if i > 0 && b[0] != 44 {
        None
    } else {
        let start = if i > 0 {
            b.skip(1)
        } else {
            b
        };
        match take_order(start) {
            Some((o, rest)) => match take_items(rest, i + 1, (fuel - 1) as nat) {
                Some((os, last)) => Some((seq![o] + os, last)),
                None => None,
            },
            None => None,
        }
    }
}

/// The orders that `b` holds, where `b` is a stored list and no more.
pub open spec fn decode_orders(b: Seq<u8>) -> Option<Seq<OrderResponseView>> {
    if b.len() == 0 || b[0] != 91 {
        None
    } else {
        match take_items(b.skip(1), 0, b.len()) {
            Some((os, rest)) => if rest.len() == 0 {
                Some(os)
            } else {
                None
            },
            None => None,
        }
    }
}

/// The values of an order are of the kinds of its fields, can be written,
/// and give the order back.
pub proof fn lemma_order_values(o: OrderResponseView)
    ensures
        value_kinds(order_values(o)) == order_kinds(),
        forall|j: int| 0 <= j < order_values(o).len() ==> value_ok(#[trigger] order_values(o)[j]),
        order_of_values(order_values(o)) == Some(o),
{
    assert(value_kinds(order_values(o)) =~= order_kinds());
}

/// A stored order starts with a brace.
pub proof fn lemma_encode_order_start(o: OrderResponseView)
    ensures
        encode_order(o).len() > 0,
        encode_order(o)[0] == 123,
{
    reveal(encode_order);
    let names = order_names();
    let values = order_values(o);
    assert(fields_bytes(names, values, 0)[0] == field_head(names, 0)[0]);
}

/// A stored order is read back, and what follows it is left.
pub proof fn lemma_take_order(o: OrderResponseView, rest: Seq<u8>)
    ensures
        take_order(encode_order(o) + rest) == Some((o, rest)),
{
    reveal(encode_order);
    reveal(take_order);
    lemma_order_values(o);
    lemma_take_fields(order_names(), order_values(o), rest, 0);
    assert(order_values(o).skip(0) =~= order_values(o));
}

/// An order is read back from its own JSON.
pub proof fn lemma_order_round_trip(o: OrderResponseView)
    ensures
        decode_order(encode_order(o)) == Some(o),
{
    lemma_take_order(o, Seq::empty());
    assert(encode_order(o) + Seq::<u8>::empty() =~= encode_order(o));
}

/// Stored orders take at least one byte each, and one for the bracket.
pub proof fn lemma_items_len(list: Seq<OrderResponseView>, i: int)
    requires
        0 <= i <= list.len(),
    ensures
        items_bytes(list, i).len() >= list.len() - i + 1,
    decreases list.len() - i,
{
    if i < list.len() {
        lemma_items_len(list, i + 1);
        lemma_encode_order_start(list[i]);
    }
}

/// Stored orders are read back up to the closing bracket.
pub proof fn lemma_take_items(list: Seq<OrderResponseView>, rest: Seq<u8>, i: int, fuel: nat)
    requires
        0 <= i <= list.len(),
        fuel > list.len() - i,
    ensures
        take_items(items_bytes(list, i) + rest, i, fuel) == Some((list.skip(i), rest)),
    decreases list.len() - i,
{
    let b = items_bytes(list, i) + rest;
    if i >= list.len() {
        assert(b[0] == 93);
        assert(b.skip(1) =~= rest);
        assert(list.skip(i) =~= Seq::<OrderResponseView>::empty());
    } else {
        let o = list[i];
        let later = items_bytes(list, i + 1) + rest;
        lemma_encode_order_start(o);
        if i > 0 {
            assert(b[0] == 44);
            assert(b.skip(1) =~= encode_order(o) + later);
        } else {
            assert(b[0] == encode_order(o)[0]);
            assert(b =~= encode_order(o) + later);
        }
        lemma_take_order(o, later);
        lemma_take_items(list, rest, i + 1, (fuel - 1) as nat);
        assert(seq![o] + list.skip(i + 1) =~= list.skip(i));
    }
}

/// A list of orders is read back from its own JSON.
pub proof fn lemma_orders_round_trip(list: Seq<OrderResponseView>)
    ensures
        decode_orders(encode_orders(list)) == Some(list),
{
    let b = encode_orders(list);
    lemma_items_len(list, 0);
    assert(b[0] == 91);
    assert(b.skip(1) =~= items_bytes(list, 0) + Seq::<u8>::empty());
    lemma_take_items(list, Seq::empty(), 0, b.len());
    assert(list.skip(0) =~= list);
}

/// A stored order is never empty.
pub proof fn lemma_encode_order_nonempty(o: OrderResponseView)
    ensures
        encode_order(o).len() > 0,
{
    lemma_encode_order_start(o);
}

/// The name of the field `i` of a stored order.
fn field_name(i: usize) -> (r: &'static str)
    requires
        i < FIELD_COUNT,
    ensures
        r@ == order_names()[i as int],
{
    if i == 0 {
        "id"
    } else if i == 1 {
        "status"
    } else if i == 2 {
        "account"
    } else if i == 3 {
        "contract_address"
    } else if i == 4 {
        "price"
    } else if i == 5 {
        "quantity"
    } else if i == 6 {
        "price_denom"
    } else if i == 7 {
        "asset_denom"
    } else if i == 8 {
        "order_type"
    } else if i == 9 {
        "position_direction"
    } else if i == 10 {
        "data"
    } else {
        "status_description"
    }
}

/// The kind of the field `i` of a stored order.
fn field_kind(i: usize) -> (r: FieldKind)
    requires
        i < FIELD_COUNT,
    ensures
        r == order_kinds()[i as int],
{
    if i == 0 || i == 1 || i == 8 || i == 9 {
        FieldKind::Number
    } else if i == 4 || i == 5 {
        FieldKind::Amount
    } else {
        FieldKind::Text
    }
}

/// Appends what stands before the value of the field `i`.
fn push_head(out: &mut Vec<u8>, i: usize)
    requires
        i < FIELD_COUNT,
    ensures
        final(out)@ == old(out)@ + field_head(order_names(), i as int),
{
    if i == 0 {
        out.push(123);
    } else {
        out.push(44);
    }
    out.push(34);
    out.extend_from_slice(field_name(i).as_bytes());
    out.push(34);
    out.push(58);
    assert(out@ =~= old(out)@ + field_head(order_names(), i as int));
}

/// Appends a value as JSON.
fn push_value(out: &mut Vec<u8>, v: &JsonValue)
    ensures
        final(out)@ == old(out)@ + value_bytes(v@),
{
    match v {
        JsonValue::Number(n) => push_number(out, *n),
        JsonValue::Text(t) => push_text(out, t.as_str()),
        JsonValue::Amount(a) => push_amount(out, *a),
    }
}

fn code_of_status(s: OrderStatus) -> (r: u128)
    ensures
        r == status_code(s),
{
    match s {
        OrderStatus::Placed => 0,
        OrderStatus::FailedToPlace => 1,
        OrderStatus::Cancelled => 2,
        OrderStatus::Fulfilled => 3,
    }
}

fn status_from_code(n: u128) -> (r: Option<OrderStatus>)
    ensures
        r == status_of_code(n as nat),
{
    if n == 0 {
        Some(OrderStatus::Placed)
    } else if n == 1 {
        Some(OrderStatus::FailedToPlace)
    } else if n == 2 {
        Some(OrderStatus::Cancelled)
    } else if n == 3 {
        Some(OrderStatus::Fulfilled)
    } else {
        None
    }
}

fn code_of_order_type(t: OrderType) -> (r: u128)
    ensures
        r == order_type_code(t),
{
    match t {
        OrderType::Limit => 0,
        OrderType::Market => 1,
        OrderType::Fokmarket => 3,
        OrderType::Fokmarketbyvalue => 4,
    }
}

fn order_type_from_code(n: u128) -> (r: Option<OrderType>)
    ensures
        r == order_type_of_code(n as nat),
{
    if n == 0 {
        Some(OrderType::Limit)
    } else if n == 1 {
        Some(OrderType::Market)
    } else if n == 3 {
        Some(OrderType::Fokmarket)
    } else if n == 4 {
        Some(OrderType::Fokmarketbyvalue)
    } else {
        None
    }
}

fn code_of_direction(d: PositionDirection) -> (r: u128)
    ensures
        r == direction_code(d),
{
    match d {
        PositionDirection::Long => 0,
        PositionDirection::Short => 1,
    }
}

fn direction_from_code(n: u128) -> (r: Option<PositionDirection>)
    ensures
        r == direction_of_code(n as nat),
{
    if n == 0 {
        Some(PositionDirection::Long)
    } else if n == 1 {
        Some(PositionDirection::Short)
    } else {
        None
    }
}

/// The values of the fields of an order.
fn values_of_order(o: &OrderResponse) -> (r: Vec<JsonValue>)
    ensures
        r.deep_view() == order_values(o@),
{
    let mut values: Vec<JsonValue> = Vec::new();
    values.push(JsonValue::Number(o.id as u128));
    values.push(JsonValue::Number(code_of_status(o.status)));
    values.push(JsonValue::Text(o.account.clone()));
    values.push(JsonValue::Text(o.contract_address.clone()));
    values.push(JsonValue::Amount(o.price.atomics));
    values.push(JsonValue::Amount(o.quantity.atomics));
    values.push(JsonValue::Text(o.price_denom.clone()));
    values.push(JsonValue::Text(o.asset_denom.clone()));
    values.push(JsonValue::Number(code_of_order_type(o.order_type)));
    values.push(JsonValue::Number(code_of_direction(o.position_direction)));
    values.push(JsonValue::Text(o.data.clone()));
    values.push(JsonValue::Text(o.status_description.clone()));
    assert(values.deep_view() =~= order_values(o@));
    values
}

/// Appends one order as JSON.
pub fn push_order(out: &mut Vec<u8>, o: &OrderResponse)
    ensures
        final(out)@ == old(out)@ + encode_order(o@),
{
    let values = values_of_order(o);
    let ghost names = order_names();
    let ghost vs = order_values(o@);
    let ghost all = fields_bytes(names, vs, 0);
    let mut i: usize = 0;
    proof {
        reveal(encode_order);
    }
    while i < FIELD_COUNT
        invariant
            i <= FIELD_COUNT,
            values@.len() == FIELD_COUNT,
            values.deep_view() == vs,
            vs == order_values(o@),
            names == order_names(),
            all == fields_bytes(names, vs, 0),
            out@ + fields_bytes(names, vs, i as int) == old(out)@ + all,
        decreases FIELD_COUNT - i,
    {
        let ghost before = out@;
        push_head(out, i);
        push_value(out, &values[i]);
        proof {
            assert(values@[i as int]@ == vs[i as int]);
            assert(out@ + fields_bytes(names, vs, i + 1) =~= before + fields_bytes(names, vs, i as int));
        }
        i = i + 1;
    }
    out.push(125);
    assert(out@ =~= old(out)@ + all);
}

/// One order as stored bytes.
pub fn encode_order_bytes(o: &OrderResponse) -> (r: Vec<u8>)
    ensures
        r@ == encode_order(o@),
        r@.len() > 0,
{
    let mut out: Vec<u8> = Vec::new();
    push_order(&mut out, o);
    proof {
        assert(out@ =~= encode_order(o@));
        lemma_encode_order_nonempty(o@);
    }
    out
}

/// A list of orders as stored bytes.
pub fn encode_orders_bytes(list: &Vec<OrderResponse>) -> (r: Vec<u8>)
    ensures
        r@ == encode_orders(list.deep_view()),
        r@.len() > 0,
{
    let mut out: Vec<u8> = Vec::new();
    out.push(91);
    let ghost views = list.deep_view();
    let ghost all = items_bytes(views, 0);
    let mut i: usize = 0;
    assert(out@ + items_bytes(views, 0) =~= seq![91u8] + all);
    while i < list.len()
        invariant
            i <= list.len(),
            views == list.deep_view(),
            all == items_bytes(views, 0),
            out@ + items_bytes(views, i as int) == seq![91u8] + all,
        decreases list.len() - i,
    {
        let ghost before = out@;
        if i > 0 {
            out.push(44);
        }
        push_order(&mut out, &list[i]);
        proof {
            assert(views[i as int] == list@[i as int]@);
            assert(out@ + items_bytes(views, i + 1) =~= before + items_bytes(views, i as int));
        }
        i = i + 1;
    }
    out.push(93);
    assert(out@ =~= seq![91u8] + all);
    out
}

/// Whether the bytes at `pos` are `literal`.
fn expect(bytes: &[u8], pos: usize, literal: &[u8]) -> (r: Option<usize>)
    requires
        pos <= bytes@.len(),
    ensures
        match r {
            Some(next) => next == pos + literal@.len() && next <= bytes@.len() && strip(
                literal@,
                bytes@.skip(pos as int),
            ) == Some(bytes@.skip(next as int)),
            None => strip(literal@, bytes@.skip(pos as int)) is None,
        },
{
    let total = bytes.len();
    let n = literal.len();
    let ghost b = bytes@.skip(pos as int);
    if total - pos < n {
        return None;
    }
    let mut i: usize = 0;
    while i < n
        invariant
            i <= n,
            n == literal@.len(),
            pos + n <= total,
            total == bytes@.len(),
            b == bytes@.skip(pos as int),
            forall|j: int| 0 <= j < i ==> b[j] == literal@[j],
        decreases n - i,
    {
        assert(b[i as int] == bytes@[pos + i]);
        if bytes[pos + i] != literal[i] {
            assert(b.take(n as int)[i as int] != literal@[i as int]);
            return None;
        }
        i = i + 1;
    }
    proof {
        assert(b.take(n as int) =~= literal@);
        assert(b.skip(n as int) =~= bytes@.skip(pos + n));
    }
    Some(pos + n)
}

/// Reads the value of the kind `kind` that starts at `pos`.
fn read_value(bytes: &[u8], pos: usize, kind: FieldKind) -> (r: Option<(JsonValue, usize)>)
    requires
        pos <= bytes@.len(),
    ensures
        match r {
            Some((v, next)) => pos <= next <= bytes@.len() && take_value(
                kind,
                bytes@.skip(pos as int),
            ) == Some((v@, bytes@.skip(next as int))),
            None => take_value(kind, bytes@.skip(pos as int)) is None,
        },
{
    match kind {
        FieldKind::Number => match read_number(bytes, pos) {
            Some((n, next)) => Some((JsonValue::Number(n), next)),
            None => None,
        },
        FieldKind::Text => match read_text(bytes, pos) {
            Some((t, next)) => Some((JsonValue::Text(t), next)),
            None => None,
        },
        FieldKind::Amount => match read_amount(bytes, pos) {
            Some((a, next)) => Some((JsonValue::Amount(a), next)),
            None => None,
        },
    }
}

/// What `take_fields` gives for a field that is there.
proof fn lemma_take_fields_step(names: Seq<Seq<char>>, kinds: Seq<FieldKind>, b: Seq<u8>, i: int)
    requires
        0 <= i < kinds.len(),
    ensures
        take_fields(names, kinds, b, i) == match strip(field_head(names, i), b) {
            None => None,
            Some(after_head) => match take_value(kinds[i], after_head) {
                None => None,
                Some((v, after_value)) => match take_fields(names, kinds, after_value, i + 1) {
                    None => None,
                    Some((vs, rest)) => Some((seq![v] + vs, rest)),
                },
            },
        },
{
}

/// Reads the fields of the order that starts at `pos`.
fn read_fields(bytes: &[u8], pos: usize) -> (r: Option<(Vec<JsonValue>, usize)>)
    requires
        pos <= bytes@.len(),
    ensures
        match r {
            Some((values, next)) => pos <= next <= bytes@.len() && take_fields(
                order_names(),
                order_kinds(),
                bytes@.skip(pos as int),
                0,
            ) == Some((values.deep_view(), bytes@.skip(next as int))),
            None => take_fields(order_names(), order_kinds(), bytes@.skip(pos as int), 0) is None,
        },
{
    let ghost names = order_names();
    let ghost kinds = order_kinds();
    let ghost whole = take_fields(names, kinds, bytes@.skip(pos as int), 0);
    let mut values: Vec<JsonValue> = Vec::new();
    let mut at: usize = pos;
    let mut i: usize = 0;
    proof {
        assert(values.deep_view() =~= Seq::<FieldValue>::empty());
        if whole is Some {
            assert(values.deep_view() + whole.unwrap().0 =~= whole.unwrap().0);
        }
    }
    while i < FIELD_COUNT
        invariant
            i <= FIELD_COUNT,
            pos <= at <= bytes@.len(),
            names == order_names(),
            kinds == order_kinds(),
            whole == take_fields(names, kinds, bytes@.skip(pos as int), 0),
            whole == match take_fields(names, kinds, bytes@.skip(at as int), i as int) {
                Some((vs, rest)) => Some((values.deep_view() + vs, rest)),
                None => None,
            },
        decreases FIELD_COUNT - i,
    {
        proof {
            lemma_take_fields_step(names, kinds, bytes@.skip(at as int), i as int);
        }
        let mut head: Vec<u8> = Vec::new();
        push_head(&mut head, i);
        assert(head@ =~= field_head(names, i as int));
        let after_head = match expect(bytes, at, head.as_slice()) {
            Some(v) => v,
            None => {
                return None;
            },
        };
        let (v, next) = match read_value(bytes, after_head, field_kind(i)) {
            Some(found) => found,
            None => {
                return None;
            },
        };
        let ghost before = values.deep_view();
        proof {
            let later = take_fields(names, kinds, bytes@.skip(next as int), i + 1);
            if later is Some {
                assert(before + (seq![v@] + later.unwrap().0) =~= before.push(v@)
                    + later.unwrap().0);
            }
        }
        values.push(v);
        assert(values.deep_view() =~= before.push(v@));
        at = next;
        i = i + 1;
    }
    let mut brace: Vec<u8> = Vec::new();
    brace.push(125);
    assert(brace@ =~= seq![125u8]);
    match expect(bytes, at, brace.as_slice()) {
        Some(next) => {
            proof {
                assert(values.deep_view() + Seq::<FieldValue>::empty() =~= values.deep_view());
            }
            Some((values, next))
        },
        None => None,
    }
}

/// The order of the values `values`, where they are the values of an
/// order.
fn order_from_values(values: Vec<JsonValue>) -> (r: Option<OrderResponse>)
    ensures
        match r {
            Some(o) => order_of_values(values.deep_view()) == Some(o@),
            None => order_of_values(values.deep_view()) is None,
        },
{
    let ghost vs = values.deep_view();
    if values.len() != FIELD_COUNT {
        return None;
    }
    let mut values = values;
    proof {
        assert(vs[0] == values@[0]@);
        assert(vs[1] == values@[1]@);
        assert(vs[2] == values@[2]@);
        assert(vs[3] == values@[3]@);
        assert(vs[4] == values@[4]@);
        assert(vs[5] == values@[5]@);
        assert(vs[6] == values@[6]@);
        assert(vs[7] == values@[7]@);
        assert(vs[8] == values@[8]@);
        assert(vs[9] == values@[9]@);
        assert(vs[10] == values@[10]@);
        assert(vs[11] == values@[11]@);
    }
    let v11 = values.pop().unwrap();
    let v10 = values.pop().unwrap();
    let v9 = values.pop().unwrap();
    let v8 = values.pop().unwrap();
    let v7 = values.pop().unwrap();
    let v6 = values.pop().unwrap();
    let v5 = values.pop().unwrap();
    let v4 = values.pop().unwrap();
    let v3 = values.pop().unwrap();
    let v2 = values.pop().unwrap();
    let v1 = values.pop().unwrap();
    let v0 = values.pop().unwrap();
    match (v0, v1, v2, v3, v4, v5, v6, v7, v8, v9, v10, v11) {
        (
            JsonValue::Number(id),
            JsonValue::Number(status),
            JsonValue::Text(account),
            JsonValue::Text(contract_address),
            JsonValue::Amount(price),
            JsonValue::Amount(quantity),
            JsonValue::Text(price_denom),
            JsonValue::Text(asset_denom),
            JsonValue::Number(order_type),
            JsonValue::Number(direction),
            JsonValue::Text(data),
            JsonValue::Text(status_description),
        ) => {
            let status = match status_from_code(status) {
                Some(v) => v,
                None => {
                    return None;
                },
            };
            let order_type = match order_type_from_code(order_type) {
                Some(v) => v,
                None => {
                    return None;
                },
            };
            let direction = match direction_from_code(direction) {
                Some(v) => v,
                None => {
                    return None;
                },
            };
            if id > u64::MAX as u128 {
                return None;
            }
            Some(
                OrderResponse {
                    id: id as u64,
                    status,
                    account,
                    contract_address,
                    price: Decimal { atomics: price },
                    quantity: Decimal { atomics: quantity },
                    price_denom,
                    asset_denom,
                    order_type,
                    position_direction: direction,
                    data,
                    status_description,
                },
            )
        },
        _ => None,
    }
}

/// Reads the order that starts at `pos`.
fn read_order(bytes: &[u8], pos: usize) -> (r: Option<(OrderResponse, usize)>)
    requires
        pos <= bytes@.len(),
    ensures
        match r {
            Some((o, next)) => pos <= next <= bytes@.len() && take_order(bytes@.skip(pos as int))
                == Some((o@, bytes@.skip(next as int))),
            None => take_order(bytes@.skip(pos as int)) is None,
        },
{
    proof {
        reveal(take_order);
    }
    let (values, next) = match read_fields(bytes, pos) {
        Some(v) => v,
        None => {
            return None;
        },
    };
    match order_from_values(values) {
        Some(o) => Some((o, next)),
        None => None,
    }
}

/// Reads one stored order: `None` unless the bytes are one order and no
/// more.
pub fn decode_order_bytes(bytes: &[u8]) -> (r: Option<OrderResponse>)
    ensures
        match r {
            Some(o) => decode_order(bytes@) == Some(o@),
            None => decode_order(bytes@) is None,
        },
{
    assert(bytes@.skip(0) =~= bytes@);
    match read_order(bytes, 0) {
        Some((o, next)) => {
            if next == bytes.len() {
                Some(o)
            } else {
                None
            }
        },
        None => None,
    }
}

/// Reads a stored list of orders: `None` unless the bytes are one list and
/// no more.
pub fn decode_orders_bytes(bytes: &[u8]) -> (r: Option<Vec<OrderResponse>>)
    ensures
        match r {
            Some(list) => decode_orders(bytes@) == Some(list.deep_view()),
            None => decode_orders(bytes@) is None,
        },
{
    let total = bytes.len();
    if total == 0 || bytes[0] != 91 {
        return None;
    }
    let ghost whole = take_items(bytes@.skip(1), 0, total as nat);
    let mut list: Vec<OrderResponse> = Vec::new();
    let mut at: usize = 1;
    let mut fuel: usize = total;
    proof {
        assert(list.deep_view() =~= Seq::<OrderResponseView>::empty());
        if whole is Some {
            assert(list.deep_view() + whole.unwrap().0 =~= whole.unwrap().0);
        }
    }
    while fuel > 0
        invariant
            1 <= at <= total,
            total == bytes@.len(),
            total > 0 && bytes@[0] == 91,
            whole == take_items(bytes@.skip(1), 0, total as nat),
            whole == match take_items(bytes@.skip(at as int), list@.len() as int, fuel as nat) {
                Some((os, rest)) => Some((list.deep_view() + os, rest)),
                None => None,
            },
        decreases fuel,
    {
        let ghost here = bytes@.skip(at as int);
        if at >= total {
            return None;
        }
        assert(here[0] == bytes@[at as int]);
        if bytes[at] == 93 {
            proof {
                assert(here.skip(1) =~= bytes@.skip(at + 1));
                assert(list.deep_view() + Seq::<OrderResponseView>::empty() =~= list.deep_view());
            }
            if at + 1 == total {
                return Some(list);
            } else {
                return None;
            }
        }
        let start = if list.len() > 0 {
            if bytes[at] != 44 {
                return None;
            }
            assert(here.skip(1) =~= bytes@.skip(at + 1));
            at + 1
        } else {
            at
        };
        let (o, next) = match read_order(bytes, start) {
            Some(v) => v,
            None => {
                return None;
            },
        };
        let ghost before = list.deep_view();
        proof {
            let later = take_items(bytes@.skip(next as int), list@.len() as int + 1, (fuel - 1) as nat);
            if later is Some {
                assert(before + (seq![o@] + later.unwrap().0) =~= before.push(o@)
                    + later.unwrap().0);
            }
        }
        list.push(o);
        assert(list.deep_view() =~= before.push(o@));
        at = next;
        fuel = fuel - 1;
    }
    None
}

} // verus!
