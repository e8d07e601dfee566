//! Alpaca broker responses: decoding the JSON the API returns and normalizing orders, fills,
//! accounts and positions into exact broker values.

use vstd::prelude::*;
use vstd::string::StringSliceAdditionalSpecFns;
use crate::alpaca::is_rejection;
use crate::decimal::{
    canonical_decimal, decimal_greater, decimal_gt, decimal_syntax, signed_canonical,
    BrokerDecimal, SignedDecimal,
};
use crate::execution::{
    BrokerAcknowledgement, BrokerError, BrokerExecution, BrokerOrderSnapshot, BrokerOrderState,
};
use crate::json::{get, json_get, JsonValue};
use crate::projection_cursor::string_option_view;
use crate::text::{is_blank, is_blank_text, str_eq, text_bytes};

verus! {

// ---------------------------------------------------------------------------------------------
// JSON fields
// ---------------------------------------------------------------------------------------------

/// Member `k` of a JSON struct of `arity` fields in which `k` is field `pos`: by name in an
/// object; by position in an array of exactly `arity` elements, the sequence form that serde's
/// derived `Deserialize` also accepts.
pub open spec fn struct_member(v: JsonValue, k: Seq<char>, pos: int, arity: int) -> Option<JsonValue> {
    match v {
        JsonValue::Object(m) => json_get(m@, k),
        JsonValue::Array(a) => if a@.len() == arity && 0 <= pos < arity {
            Some(a@[pos])
        } else {
            None
        },
        _ => None,
    }
}

/// A JSON struct of `arity` fields: an object, or an array of exactly `arity` elements.
pub open spec fn struct_shape(v: JsonValue, arity: int) -> bool {
    v is Object || (v matches JsonValue::Array(a) && a@.len() == arity)
}

/// A required string member.
pub open spec fn json_text_field(v: JsonValue, k: Seq<char>, pos: int, arity: int) -> Option<Seq<char>> {
    match struct_member(v, k, pos, arity) {
        Some(JsonValue::String(s)) => Some(s@),
        _ => None,
    }
}

/// The text of a decimal given as a JSON string or number.
pub open spec fn json_decimal_text(v: JsonValue) -> Option<Seq<char>> {
    match v {
        JsonValue::String(s) => Some(s@),
        JsonValue::Number(n) => Some(n.text@),
        _ => None,
    }
}

/// A required decimal member (string or number).
pub open spec fn json_decimal_field(v: JsonValue, k: Seq<char>, pos: int, arity: int) -> Option<
    Seq<char>,
> {
    match struct_member(v, k, pos, arity) {
        Some(x) => json_decimal_text(x),
        None => None,
    }
}

/// An optional decimal member: absent or `null` is `Some(None)`; a wrong type is `None`.
pub open spec fn json_optional_decimal_field(v: JsonValue, k: Seq<char>, pos: int, arity: int) -> Option<
    Option<Seq<char>>,
> {
    match struct_member(v, k, pos, arity) {
        None => Some(None),
        Some(JsonValue::Null) => Some(None),
        Some(x) => match json_decimal_text(x) {
            Some(t) => Some(Some(t)),
            None => None,
        },
    }
}

/// A required boolean member.
pub open spec fn json_bool_field(v: JsonValue, k: Seq<char>, pos: int, arity: int) -> Option<bool> {
    match struct_member(v, k, pos, arity) {
        Some(JsonValue::Bool(b)) => Some(b),
        _ => None,
    }
}

/// A required unsigned integer member.
pub open spec fn json_u64_field(v: JsonValue, k: Seq<char>, pos: int, arity: int) -> Option<u64> {
    match struct_member(v, k, pos, arity) {
        Some(JsonValue::Number(n)) => n.unsigned,
        _ => None,
    }
}

pub fn is_struct_shape(v: &JsonValue, arity: usize) -> (res: bool)
    ensures
        res == struct_shape(*v, arity as int),
{
    match v {
        JsonValue::Object(_) => true,
        JsonValue::Array(a) => a.len() == arity,
        _ => false,
    }
}

pub fn member<'a>(v: &'a JsonValue, k: &str, pos: usize, arity: usize) -> (res: Option<&'a JsonValue>)
    ensures
        match struct_member(*v, k@, pos as int, arity as int) {
            Some(x) => res matches Some(r) && *r == x,
            None => res is None,
        },
{
    match v {
        JsonValue::Object(m) => get(m, k),
        JsonValue::Array(a) => if a.len() == arity && pos < arity {
            Some(&a[pos])
        } else {
            None
        },
        _ => None,
    }
}

pub fn text_field(v: &JsonValue, k: &str, pos: usize, arity: usize) -> (res: Option<String>)
    ensures
        match json_text_field(*v, k@, pos as int, arity as int) {
            Some(t) => res matches Some(s) && s@ == t,
            None => res is None,
        },
{
    match member(v, k, pos, arity) {
        Some(JsonValue::String(s)) => Some(s.clone()),
        _ => None,
    }
}

fn decimal_text(v: &JsonValue) -> (res: Option<String>)
    ensures
        match json_decimal_text(*v) {
            Some(t) => res matches Some(s) && s@ == t,
            None => res is None,
        },
{
    match v {
        JsonValue::String(s) => Some(s.clone()),
        JsonValue::Number(n) => Some(n.text.clone()),
        _ => None,
    }
}

pub fn decimal_field(v: &JsonValue, k: &str, pos: usize, arity: usize) -> (res: Option<String>)
    ensures
        match json_decimal_field(*v, k@, pos as int, arity as int) {
            Some(t) => res matches Some(s) && s@ == t,
            None => res is None,
        },
{
    match member(v, k, pos, arity) {
        Some(x) => decimal_text(x),
        None => None,
    }
}

pub fn optional_decimal_field(v: &JsonValue, k: &str, pos: usize, arity: usize) -> (res: Option<
    Option<String>,
>)
    ensures
        match json_optional_decimal_field(*v, k@, pos as int, arity as int) {
            Some(t) => res matches Some(o) && string_option_view(o) == t,
            None => res is None,
        },
{
    match member(v, k, pos, arity) {
        None => Some(None),
        Some(JsonValue::Null) => Some(None),
        Some(x) => match decimal_text(x) {
            Some(t) => Some(Some(t)),
            None => None,
        },
    }
}

pub fn bool_field(v: &JsonValue, k: &str, pos: usize, arity: usize) -> (res: Option<bool>)
    ensures
        res == json_bool_field(*v, k@, pos as int, arity as int),
{
    match member(v, k, pos, arity) {
        Some(JsonValue::Bool(b)) => Some(*b),
        _ => None,
    }
}

pub fn u64_field(v: &JsonValue, k: &str, pos: usize, arity: usize) -> (res: Option<u64>)
    ensures
        res == json_u64_field(*v, k@, pos as int, arity as int),
{
    match member(v, k, pos, arity) {
        Some(JsonValue::Number(n)) => n.unsigned,
        _ => None,
    }
}

// ---------------------------------------------------------------------------------------------
// Timestamps
// ---------------------------------------------------------------------------------------------

/// The Unix time in nanoseconds of an RFC 3339 timestamp, as the `time` crate parses it.
pub uninterp spec fn rfc3339_unix_nanos(text: Seq<char>) -> Option<int>;

/// Parses an RFC 3339 timestamp to Unix nanoseconds.
///
/// Trusted: calls `time::OffsetDateTime::parse` with the `Rfc3339` description, then
/// `unix_timestamp_nanos`; the result is named `rfc3339_unix_nanos` of the text, `None` on a
/// parse error.
#[verifier::external_body]
pub(crate) fn parse_rfc3339_nanos(text: &str) -> (res: Option<i128>)
    ensures
        match rfc3339_unix_nanos(text@) {
            Some(n) => res == Some(n as i128) && i128::MIN <= n <= i128::MAX,
            None => res is None,
        },
{
    match time::OffsetDateTime::parse(text, &time::format_description::well_known::Rfc3339) {
        Ok(timestamp) => Some(timestamp.unix_timestamp_nanos()),
        Err(_) => None,
    }
}

/// A broker timestamp in nanoseconds since the epoch, or why it is refused.
pub open spec fn timestamp_ns_of(text: Seq<char>) -> Result<u64, Seq<char>> {
    match rfc3339_unix_nanos(text) {
        None => Err("Alpaca returned an invalid timestamp"@),
        Some(n) => if 0 <= n <= u64::MAX {
            Ok(n as u64)
        } else {
            Err("Alpaca returned a pre-epoch timestamp"@)
        },
    }
}

pub fn parse_timestamp_ns(value: &str) -> (res: Result<u64, BrokerError>)
    ensures
        match timestamp_ns_of(value@) {
            Ok(n) => res == Ok::<u64, BrokerError>(n),
            Err(m) => res matches Err(e) && is_rejection(e, m),
        },
{
    match parse_rfc3339_nanos(value) {
        None => Err(BrokerError::Rejected("Alpaca returned an invalid timestamp".to_owned())),
        Some(n) => {
            if 0 <= n && n <= 0xffff_ffff_ffff_ffff {
                Ok(n as u64)
            } else {
                Err(BrokerError::Rejected("Alpaca returned a pre-epoch timestamp".to_owned()))
            }
        },
    }
}

// ---------------------------------------------------------------------------------------------
// Orders
// ---------------------------------------------------------------------------------------------

/// An order as the Alpaca API reports it; decimals are kept as their text.
#[derive(Debug, Clone, PartialEq, Eq)]
pub struct ApiOrder {
    pub id: String,
    pub client_order_id: String,
    pub status: String,
    pub symbol: String,
    pub side: String,
    pub qty: String,
    pub filled_qty: String,
    pub filled_avg_price: Option<String>,
    pub submitted_at: String,
    pub updated_at: String,
}

/// `o` is what the JSON order `v` holds.
pub open spec fn api_order_decodes(v: JsonValue, o: ApiOrder) -> bool {
    &&& struct_shape(v, 10)
    &&& json_text_field(v, "id"@, 0, 10) == Some(o.id@)
    &&& json_text_field(v, "client_order_id"@, 1, 10) == Some(o.client_order_id@)
    &&& json_text_field(v, "status"@, 2, 10) == Some(o.status@)
    &&& json_text_field(v, "symbol"@, 3, 10) == Some(o.symbol@)
    &&& json_text_field(v, "side"@, 4, 10) == Some(o.side@)
    &&& json_decimal_field(v, "qty"@, 5, 10) == Some(o.qty@)
    &&& json_decimal_field(v, "filled_qty"@, 6, 10) == Some(o.filled_qty@)
    &&& json_optional_decimal_field(v, "filled_avg_price"@, 7, 10) == Some(
        string_option_view(o.filled_avg_price),
    )
    &&& json_text_field(v, "submitted_at"@, 8, 10) == Some(o.submitted_at@)
    &&& json_text_field(v, "updated_at"@, 9, 10) == Some(o.updated_at@)
}

/// The JSON value holds every order member with the right type.
pub open spec fn api_order_decodable(v: JsonValue) -> bool {
    &&& struct_shape(v, 10)
    &&& json_text_field(v, "id"@, 0, 10) is Some
    &&& json_text_field(v, "client_order_id"@, 1, 10) is Some
    &&& json_text_field(v, "status"@, 2, 10) is Some
    &&& json_text_field(v, "symbol"@, 3, 10) is Some
    &&& json_text_field(v, "side"@, 4, 10) is Some
    &&& json_decimal_field(v, "qty"@, 5, 10) is Some
    &&& json_decimal_field(v, "filled_qty"@, 6, 10) is Some
    &&& json_optional_decimal_field(v, "filled_avg_price"@, 7, 10) is Some
    &&& json_text_field(v, "submitted_at"@, 8, 10) is Some
    &&& json_text_field(v, "updated_at"@, 9, 10) is Some
}

pub fn decode_api_order(v: &JsonValue) -> (res: Option<ApiOrder>)
    ensures
        res is Some <==> api_order_decodable(*v),
        res matches Some(o) ==> api_order_decodes(*v, o),
{
    if !is_struct_shape(v, 10) {
        return None;
    }
    let id = text_field(v, "id", 0, 10)?;
    let client_order_id = text_field(v, "client_order_id", 1, 10)?;
    let status = text_field(v, "status", 2, 10)?;
    let symbol = text_field(v, "symbol", 3, 10)?;
    let side = text_field(v, "side", 4, 10)?;
    let qty = decimal_field(v, "qty", 5, 10)?;
    let filled_qty = decimal_field(v, "filled_qty", 6, 10)?;
    let filled_avg_price = optional_decimal_field(v, "filled_avg_price", 7, 10)?;
    let submitted_at = text_field(v, "submitted_at", 8, 10)?;
    let updated_at = text_field(v, "updated_at", 9, 10)?;
    Some(
        ApiOrder {
            id,
            client_order_id,
            status,
            symbol,
            side,
            qty,
            filled_qty,
            filled_avg_price,
            submitted_at,
            updated_at,
        },
    )
}

/// The broker state an Alpaca order status maps to; `None` for an unsupported status.
pub open spec fn order_state_of(status: Seq<char>) -> Option<BrokerOrderState> {
    if status == "pending_new"@ || status == "accepted"@ || status == "pending_cancel"@ || status
        == "pending_replace"@ {
        Some(BrokerOrderState::Pending)
    } else if status == "new"@ || status == "accepted_for_bidding"@ || status == "calculated"@
        || status == "held"@ {
        Some(BrokerOrderState::Open)
    } else if status == "partially_filled"@ {
        Some(BrokerOrderState::PartiallyFilled)
    } else if status == "filled"@ {
        Some(BrokerOrderState::Filled)
    } else if status == "canceled"@ || status == "expired"@ || status == "replaced"@ || status
        == "done_for_day"@ {
        Some(BrokerOrderState::Canceled)
    } else if status == "rejected"@ || status == "stopped"@ || status == "suspended"@ {
        Some(BrokerOrderState::Failed)
    } else {
        None
    }
}

pub fn order_state(status: &str) -> (res: Option<BrokerOrderState>)
    ensures
        res == order_state_of(status@),
{
    if str_eq(status, "pending_new") || str_eq(status, "accepted") || str_eq(status, "pending_cancel")
        || str_eq(status, "pending_replace") {
        Some(BrokerOrderState::Pending)
    } else if str_eq(status, "new") || str_eq(status, "accepted_for_bidding") || str_eq(
        status,
        "calculated",
    ) || str_eq(status, "held") {
        Some(BrokerOrderState::Open)
    } else if str_eq(status, "partially_filled") {
        Some(BrokerOrderState::PartiallyFilled)
    } else if str_eq(status, "filled") {
        Some(BrokerOrderState::Filled)
    } else if str_eq(status, "canceled") || str_eq(status, "expired") || str_eq(status, "replaced")
        || str_eq(status, "done_for_day") {
        Some(BrokerOrderState::Canceled)
    } else if str_eq(status, "rejected") || str_eq(status, "stopped") || str_eq(status, "suspended") {
        Some(BrokerOrderState::Failed)
    } else {
        None
    }
}

pub open spec fn decimal_text_ok(t: Seq<char>) -> bool {
    decimal_syntax(text_bytes(t))
}

pub open spec fn invalid_decimal_message() -> Seq<char> {
    "Alpaca returned an invalid decimal"@
}

/// Why an API order cannot be normalized, checked in order; `None` when it can.
pub open spec fn order_error(o: ApiOrder) -> Option<Seq<char>> {
    if is_blank_text(o.id@) || is_blank_text(o.client_order_id@) || is_blank_text(o.symbol@) || !(
    o.side@ == "buy"@ || o.side@ == "sell"@) {
        Some("Alpaca returned an invalid order identity"@)
    } else if order_state_of(o.status@) is None {
        Some("Alpaca returned an unsupported order status"@)
    } else if timestamp_ns_of(o.submitted_at@) is Err {
        Some(timestamp_ns_of(o.submitted_at@)->Err_0)
    } else if !decimal_text_ok(o.filled_qty@) {
        Some(invalid_decimal_message())
    } else if o.filled_avg_price matches Some(p) && !decimal_text_ok(p@) {
        Some(invalid_decimal_message())
    } else if !decimal_text_ok(o.qty@) {
        Some(invalid_decimal_message())
    } else if decimal_gt(
        canonical_decimal(text_bytes(o.filled_qty@)),
        canonical_decimal(text_bytes(o.qty@)),
    ) {
        Some("Alpaca reported an overfilled order"@)
    } else {
        None
    }
}

/// The fields of a broker snapshot that come from the API order.
pub open spec fn order_fields_match(o: ApiOrder, s: BrokerOrderSnapshot) -> bool {
    &&& s.acknowledgement.broker_order_id == o.id
    &&& s.acknowledgement.client_order_id == o.client_order_id
    &&& timestamp_ns_of(o.submitted_at@) == Ok::<u64, Seq<char>>(s.acknowledgement.accepted_at_ns)
    &&& order_state_of(o.status@) == Some(s.state)
    &&& s.filled_quantity@ == canonical_decimal(text_bytes(o.filled_qty@))
    &&& match o.filled_avg_price {
        Some(p) => s.average_price matches Some(a) && a@ == canonical_decimal(text_bytes(p@)),
        None => s.average_price is None,
    }
    &&& s.updated_at == o.updated_at
}

/// The broker snapshot of a normalized order with the given executions.
pub open spec fn order_snapshot_matches(
    o: ApiOrder,
    executions: Vec<BrokerExecution>,
    s: BrokerOrderSnapshot,
) -> bool {
    order_fields_match(o, s) && s.executions == executions
}

pub fn broker_decimal(text: &String) -> (res: Result<BrokerDecimal, BrokerError>)
    ensures
        res is Ok <==> decimal_text_ok(text@),
        res matches Ok(d) ==> d@ == canonical_decimal(text_bytes(text@)),
        res matches Err(e) ==> is_rejection(e, invalid_decimal_message()),
{
    match BrokerDecimal::try_new(text.as_str()) {
        Ok(d) => Ok(d),
        Err(_) => Err(BrokerError::Rejected("Alpaca returned an invalid decimal".to_owned())),
    }
}

pub fn normalize_order(order: &ApiOrder, executions: Vec<BrokerExecution>) -> (res: Result<
    BrokerOrderSnapshot,
    BrokerError,
>)
    ensures
        match order_error(*order) {
            Some(m) => res matches Err(e) && is_rejection(e, m),
            None => res matches Ok(s) && order_snapshot_matches(*order, executions, s),
        },
{
    if is_blank(order.id.as_str()) || is_blank(order.client_order_id.as_str()) || is_blank(
        order.symbol.as_str(),
    ) || !(str_eq(order.side.as_str(), "buy") || str_eq(order.side.as_str(), "sell")) {
        return Err(BrokerError::Rejected("Alpaca returned an invalid order identity".to_owned()));
    }
    let state = match order_state(order.status.as_str()) {
        Some(s) => s,
        None => {
            return Err(
                BrokerError::Rejected("Alpaca returned an unsupported order status".to_owned()),
            );
        },
    };
    let accepted_at_ns = parse_timestamp_ns(order.submitted_at.as_str())?;
    let filled_quantity = broker_decimal(&order.filled_qty)?;
    let average_price = match &order.filled_avg_price {
        Some(p) => Some(broker_decimal(p)?),
        None => None,
    };
    let requested_quantity = broker_decimal(&order.qty)?;
    if decimal_greater(&filled_quantity, &requested_quantity) {
        return Err(BrokerError::Rejected("Alpaca reported an overfilled order".to_owned()));
    }
    Ok(
        BrokerOrderSnapshot {
            acknowledgement: BrokerAcknowledgement {
                broker_order_id: order.id.clone(),
                client_order_id: order.client_order_id.clone(),
                accepted_at_ns,
            },
            state,
            executions,
            filled_quantity,
            average_price,
            updated_at: order.updated_at.clone(),
        },
    )
}


// ---------------------------------------------------------------------------------------------
// Fills
// ---------------------------------------------------------------------------------------------

/// A fill activity as the Alpaca API reports it.
#[derive(Debug, Clone, PartialEq, Eq)]
pub struct ApiFillActivity {
    pub id: String,
    pub transaction_time: String,
    pub price: String,
    pub qty: String,
    pub order_id: String,
}

pub open spec fn api_fill_decodes(v: JsonValue, f: ApiFillActivity) -> bool {
    &&& struct_shape(v, 5)
    &&& json_text_field(v, "id"@, 0, 5) == Some(f.id@)
    &&& json_text_field(v, "transaction_time"@, 1, 5) == Some(f.transaction_time@)
    &&& json_decimal_field(v, "price"@, 2, 5) == Some(f.price@)
    &&& json_decimal_field(v, "qty"@, 3, 5) == Some(f.qty@)
    &&& json_text_field(v, "order_id"@, 4, 5) == Some(f.order_id@)
}

pub open spec fn api_fill_decodable(v: JsonValue) -> bool {
    &&& struct_shape(v, 5)
    &&& json_text_field(v, "id"@, 0, 5) is Some
    &&& json_text_field(v, "transaction_time"@, 1, 5) is Some
    &&& json_decimal_field(v, "price"@, 2, 5) is Some
    &&& json_decimal_field(v, "qty"@, 3, 5) is Some
    &&& json_text_field(v, "order_id"@, 4, 5) is Some
}

pub fn decode_api_fill(v: &JsonValue) -> (res: Option<ApiFillActivity>)
    ensures
        res is Some <==> api_fill_decodable(*v),
        res matches Some(f) ==> api_fill_decodes(*v, f),
{
    if !is_struct_shape(v, 5) {
        return None;
    }
    let id = text_field(v, "id", 0, 5)?;
    let transaction_time = text_field(v, "transaction_time", 1, 5)?;
    let price = decimal_field(v, "price", 2, 5)?;
    let qty = decimal_field(v, "qty", 3, 5)?;
    let order_id = text_field(v, "order_id", 4, 5)?;
    Some(ApiFillActivity { id, transaction_time, price, qty, order_id })
}

/// The decimals of a fill activity are valid.
pub open spec fn fill_decimals_ok(f: ApiFillActivity) -> bool {
    decimal_text_ok(f.price@) && decimal_text_ok(f.qty@)
}

/// The execution a fill activity reports.
pub open spec fn fill_matches(f: ApiFillActivity, x: BrokerExecution) -> bool {
    &&& x.execution_id == f.id
    &&& x.effective_price@ == canonical_decimal(text_bytes(f.price@))
    &&& x.quantity@ == canonical_decimal(text_bytes(f.qty@))
    &&& x.occurred_at == f.transaction_time
}

/// The execution a fill activity reports, or why its decimals are refused.
pub fn fill_execution(activity: &ApiFillActivity) -> (res: Result<BrokerExecution, BrokerError>)
    ensures
        res is Ok <==> fill_decimals_ok(*activity),
        res matches Err(e) ==> is_rejection(e, invalid_decimal_message()),
        res matches Ok(x) ==> fill_matches(*activity, x),
{
    let effective_price = broker_decimal(&activity.price)?;
    let quantity = broker_decimal(&activity.qty)?;
    Ok(
        BrokerExecution {
            execution_id: activity.id.clone(),
            effective_price,
            quantity,
            occurred_at: activity.transaction_time.clone(),
        },
    )
}

// ---------------------------------------------------------------------------------------------
// Accounts and positions
// ---------------------------------------------------------------------------------------------

pub open spec fn signed_text_ok(t: Seq<char>) -> bool {
    signed_canonical(text_bytes(t)) is Some
}

pub open spec fn signed_view(t: Seq<char>) -> Seq<u8> {
    signed_canonical(text_bytes(t))->0
}

pub open spec fn invalid_signed_message() -> Seq<char> {
    "Alpaca returned an invalid signed decimal"@
}

/// A signed decimal reported by the API, canonicalized.
pub fn signed(value: &String) -> (res: Result<SignedDecimal, BrokerError>)
    ensures
        res is Ok <==> signed_text_ok(value@),
        res matches Ok(d) ==> d@ == signed_view(value@),
        res matches Err(e) ==> is_rejection(e, invalid_signed_message()),
{
    match SignedDecimal::try_new(value.as_str()) {
        Ok(d) => Ok(d),
        Err(_) => Err(
            BrokerError::Rejected("Alpaca returned an invalid signed decimal".to_owned()),
        ),
    }
}

/// An account as the Alpaca API reports it; decimals are kept as their text.
#[derive(Debug, Clone, PartialEq, Eq)]
pub struct ApiAccount {
    pub id: String,
    pub status: String,
    pub currency: String,
    pub buying_power: String,
    pub cash: String,
    pub portfolio_value: String,
    pub equity: String,
    pub last_equity: String,
    pub long_market_value: String,
    pub short_market_value: String,
    pub initial_margin: String,
    pub maintenance_margin: String,
    pub daytrade_count: u64,
    pub trading_blocked: bool,
    pub transfers_blocked: bool,
    pub account_blocked: bool,
    pub trade_suspended_by_user: bool,
}

pub open spec fn api_account_decodes(v: JsonValue, a: ApiAccount) -> bool {
    &&& struct_shape(v, 17)
    &&& json_text_field(v, "id"@, 0, 17) == Some(a.id@)
    &&& json_text_field(v, "status"@, 1, 17) == Some(a.status@)
    &&& json_text_field(v, "currency"@, 2, 17) == Some(a.currency@)
    &&& json_decimal_field(v, "buying_power"@, 3, 17) == Some(a.buying_power@)
    &&& json_decimal_field(v, "cash"@, 4, 17) == Some(a.cash@)
    &&& json_decimal_field(v, "portfolio_value"@, 5, 17) == Some(a.portfolio_value@)
    &&& json_decimal_field(v, "equity"@, 6, 17) == Some(a.equity@)
    &&& json_decimal_field(v, "last_equity"@, 7, 17) == Some(a.last_equity@)
    &&& json_decimal_field(v, "long_market_value"@, 8, 17) == Some(a.long_market_value@)
    &&& json_decimal_field(v, "short_market_value"@, 9, 17) == Some(a.short_market_value@)
    &&& json_decimal_field(v, "initial_margin"@, 10, 17) == Some(a.initial_margin@)
    &&& json_decimal_field(v, "maintenance_margin"@, 11, 17) == Some(a.maintenance_margin@)
    &&& json_u64_field(v, "daytrade_count"@, 12, 17) == Some(a.daytrade_count)
    &&& json_bool_field(v, "trading_blocked"@, 13, 17) == Some(a.trading_blocked)
    &&& json_bool_field(v, "transfers_blocked"@, 14, 17) == Some(a.transfers_blocked)
    &&& json_bool_field(v, "account_blocked"@, 15, 17) == Some(a.account_blocked)
    &&& json_bool_field(v, "trade_suspended_by_user"@, 16, 17) == Some(a.trade_suspended_by_user)
}

pub open spec fn api_account_decodable(v: JsonValue) -> bool {
    &&& struct_shape(v, 17)
    &&& json_text_field(v, "id"@, 0, 17) is Some
    &&& json_text_field(v, "status"@, 1, 17) is Some
    &&& json_text_field(v, "currency"@, 2, 17) is Some
    &&& json_decimal_field(v, "buying_power"@, 3, 17) is Some
    &&& json_decimal_field(v, "cash"@, 4, 17) is Some
    &&& json_decimal_field(v, "portfolio_value"@, 5, 17) is Some
    &&& json_decimal_field(v, "equity"@, 6, 17) is Some
    &&& json_decimal_field(v, "last_equity"@, 7, 17) is Some
    &&& json_decimal_field(v, "long_market_value"@, 8, 17) is Some
    &&& json_decimal_field(v, "short_market_value"@, 9, 17) is Some
    &&& json_decimal_field(v, "initial_margin"@, 10, 17) is Some
    &&& json_decimal_field(v, "maintenance_margin"@, 11, 17) is Some
    &&& json_u64_field(v, "daytrade_count"@, 12, 17) is Some
    &&& json_bool_field(v, "trading_blocked"@, 13, 17) is Some
    &&& json_bool_field(v, "transfers_blocked"@, 14, 17) is Some
    &&& json_bool_field(v, "account_blocked"@, 15, 17) is Some
    &&& json_bool_field(v, "trade_suspended_by_user"@, 16, 17) is Some
}

pub fn decode_api_account(v: &JsonValue) -> (res: Option<ApiAccount>)
    ensures
        res is Some <==> api_account_decodable(*v),
        res matches Some(a) ==> api_account_decodes(*v, a),
{
    if !is_struct_shape(v, 17) {
        return None;
    }
    Some(
        ApiAccount {
            id: text_field(v, "id", 0, 17)?,
            status: text_field(v, "status", 1, 17)?,
            currency: text_field(v, "currency", 2, 17)?,
            buying_power: decimal_field(v, "buying_power", 3, 17)?,
            cash: decimal_field(v, "cash", 4, 17)?,
            portfolio_value: decimal_field(v, "portfolio_value", 5, 17)?,
            equity: decimal_field(v, "equity", 6, 17)?,
            last_equity: decimal_field(v, "last_equity", 7, 17)?,
            long_market_value: decimal_field(v, "long_market_value", 8, 17)?,
            short_market_value: decimal_field(v, "short_market_value", 9, 17)?,
            initial_margin: decimal_field(v, "initial_margin", 10, 17)?,
            maintenance_margin: decimal_field(v, "maintenance_margin", 11, 17)?,
            daytrade_count: u64_field(v, "daytrade_count", 12, 17)?,
            trading_blocked: bool_field(v, "trading_blocked", 13, 17)?,
            transfers_blocked: bool_field(v, "transfers_blocked", 14, 17)?,
            account_blocked: bool_field(v, "account_blocked", 15, 17)?,
            trade_suspended_by_user: bool_field(v, "trade_suspended_by_user", 16, 17)?,
        },
    )
}

/// An Alpaca account with exact signed decimals.
#[derive(Debug, Clone, PartialEq, Eq)]
pub struct AlpacaAccount {
    pub id: String,
    pub status: String,
    pub currency: String,
    pub buying_power: SignedDecimal,
    pub cash: SignedDecimal,
    pub portfolio_value: SignedDecimal,
    pub equity: SignedDecimal,
    pub last_equity: SignedDecimal,
    pub long_market_value: SignedDecimal,
    pub short_market_value: SignedDecimal,
    pub initial_margin: SignedDecimal,
    pub maintenance_margin: SignedDecimal,
    pub daytrade_count: u64,
    pub trading_blocked: bool,
    pub transfers_blocked: bool,
    pub account_blocked: bool,
    pub trade_suspended_by_user: bool,
}

pub open spec fn account_decimals_ok(a: ApiAccount) -> bool {
    &&& signed_text_ok(a.buying_power@)
    &&& signed_text_ok(a.cash@)
    &&& signed_text_ok(a.portfolio_value@)
    &&& signed_text_ok(a.equity@)
    &&& signed_text_ok(a.last_equity@)
    &&& signed_text_ok(a.long_market_value@)
    &&& signed_text_ok(a.short_market_value@)
    &&& signed_text_ok(a.initial_margin@)
    &&& signed_text_ok(a.maintenance_margin@)
}

pub open spec fn account_matches(a: ApiAccount, r: AlpacaAccount) -> bool {
    &&& r.id == a.id
    &&& r.status == a.status
    &&& r.currency == a.currency
    &&& r.buying_power@ == signed_view(a.buying_power@)
    &&& r.cash@ == signed_view(a.cash@)
    &&& r.portfolio_value@ == signed_view(a.portfolio_value@)
    &&& r.equity@ == signed_view(a.equity@)
    &&& r.last_equity@ == signed_view(a.last_equity@)
    &&& r.long_market_value@ == signed_view(a.long_market_value@)
    &&& r.short_market_value@ == signed_view(a.short_market_value@)
    &&& r.initial_margin@ == signed_view(a.initial_margin@)
    &&& r.maintenance_margin@ == signed_view(a.maintenance_margin@)
    &&& r.daytrade_count == a.daytrade_count
    &&& r.trading_blocked == a.trading_blocked
    &&& r.transfers_blocked == a.transfers_blocked
    &&& r.account_blocked == a.account_blocked
    &&& r.trade_suspended_by_user == a.trade_suspended_by_user
}

pub fn normalize_account(account: ApiAccount) -> (res: Result<AlpacaAccount, BrokerError>)
    ensures
        res is Ok <==> account_decimals_ok(account),
        res matches Ok(r) ==> account_matches(account, r),
        res matches Err(e) ==> is_rejection(e, invalid_signed_message()),
{
    Ok(
        AlpacaAccount {
            buying_power: signed(&account.buying_power)?,
            cash: signed(&account.cash)?,
            portfolio_value: signed(&account.portfolio_value)?,
            equity: signed(&account.equity)?,
            last_equity: signed(&account.last_equity)?,
            long_market_value: signed(&account.long_market_value)?,
            short_market_value: signed(&account.short_market_value)?,
            initial_margin: signed(&account.initial_margin)?,
            maintenance_margin: signed(&account.maintenance_margin)?,
            id: account.id,
            status: account.status,
            currency: account.currency,
            daytrade_count: account.daytrade_count,
            trading_blocked: account.trading_blocked,
            transfers_blocked: account.transfers_blocked,
            account_blocked: account.account_blocked,
            trade_suspended_by_user: account.trade_suspended_by_user,
        },
    )
}

/// A position as the Alpaca API reports it; decimals are kept as their text.
#[derive(Debug, Clone, PartialEq, Eq)]
pub struct ApiPosition {
    pub asset_id: String,
    pub symbol: String,
    pub exchange: String,
    pub asset_class: String,
    pub qty: String,
    pub qty_available: Option<String>,
    pub side: String,
    pub avg_entry_price: String,
    pub market_value: String,
    pub cost_basis: String,
    pub unrealized_pl: String,
    pub unrealized_plpc: String,
    pub current_price: String,
    pub lastday_price: String,
    pub change_today: String,
}

pub open spec fn api_position_decodes(v: JsonValue, p: ApiPosition) -> bool {
    &&& struct_shape(v, 15)
    &&& json_text_field(v, "asset_id"@, 0, 15) == Some(p.asset_id@)
    &&& json_text_field(v, "symbol"@, 1, 15) == Some(p.symbol@)
    &&& json_text_field(v, "exchange"@, 2, 15) == Some(p.exchange@)
    &&& json_text_field(v, "asset_class"@, 3, 15) == Some(p.asset_class@)
    &&& json_decimal_field(v, "qty"@, 4, 15) == Some(p.qty@)
    &&& json_optional_decimal_field(v, "qty_available"@, 5, 15) == Some(
        string_option_view(p.qty_available),
    )
    &&& json_text_field(v, "side"@, 6, 15) == Some(p.side@)
    &&& json_decimal_field(v, "avg_entry_price"@, 7, 15) == Some(p.avg_entry_price@)
    &&& json_decimal_field(v, "market_value"@, 8, 15) == Some(p.market_value@)
    &&& json_decimal_field(v, "cost_basis"@, 9, 15) == Some(p.cost_basis@)
    &&& json_decimal_field(v, "unrealized_pl"@, 10, 15) == Some(p.unrealized_pl@)
    &&& json_decimal_field(v, "unrealized_plpc"@, 11, 15) == Some(p.unrealized_plpc@)
    &&& json_decimal_field(v, "current_price"@, 12, 15) == Some(p.current_price@)
    &&& json_decimal_field(v, "lastday_price"@, 13, 15) == Some(p.lastday_price@)
    &&& json_decimal_field(v, "change_today"@, 14, 15) == Some(p.change_today@)
}

pub open spec fn api_position_decodable(v: JsonValue) -> bool {
    &&& struct_shape(v, 15)
    &&& json_text_field(v, "asset_id"@, 0, 15) is Some
    &&& json_text_field(v, "symbol"@, 1, 15) is Some
    &&& json_text_field(v, "exchange"@, 2, 15) is Some
    &&& json_text_field(v, "asset_class"@, 3, 15) is Some
    &&& json_decimal_field(v, "qty"@, 4, 15) is Some
    &&& json_optional_decimal_field(v, "qty_available"@, 5, 15) is Some
    &&& json_text_field(v, "side"@, 6, 15) is Some
    &&& json_decimal_field(v, "avg_entry_price"@, 7, 15) is Some
    &&& json_decimal_field(v, "market_value"@, 8, 15) is Some
    &&& json_decimal_field(v, "cost_basis"@, 9, 15) is Some
    &&& json_decimal_field(v, "unrealized_pl"@, 10, 15) is Some
    &&& json_decimal_field(v, "unrealized_plpc"@, 11, 15) is Some
    &&& json_decimal_field(v, "current_price"@, 12, 15) is Some
    &&& json_decimal_field(v, "lastday_price"@, 13, 15) is Some
    &&& json_decimal_field(v, "change_today"@, 14, 15) is Some
}

pub fn decode_api_position(v: &JsonValue) -> (res: Option<ApiPosition>)
    ensures
        res is Some <==> api_position_decodable(*v),
        res matches Some(p) ==> api_position_decodes(*v, p),
{
    if !is_struct_shape(v, 15) {
        return None;
    }
    Some(
        ApiPosition {
            asset_id: text_field(v, "asset_id", 0, 15)?,
            symbol: text_field(v, "symbol", 1, 15)?,
            exchange: text_field(v, "exchange", 2, 15)?,
            asset_class: text_field(v, "asset_class", 3, 15)?,
            qty: decimal_field(v, "qty", 4, 15)?,
            qty_available: optional_decimal_field(v, "qty_available", 5, 15)?,
            side: text_field(v, "side", 6, 15)?,
            avg_entry_price: decimal_field(v, "avg_entry_price", 7, 15)?,
            market_value: decimal_field(v, "market_value", 8, 15)?,
            cost_basis: decimal_field(v, "cost_basis", 9, 15)?,
            unrealized_pl: decimal_field(v, "unrealized_pl", 10, 15)?,
            unrealized_plpc: decimal_field(v, "unrealized_plpc", 11, 15)?,
            current_price: decimal_field(v, "current_price", 12, 15)?,
            lastday_price: decimal_field(v, "lastday_price", 13, 15)?,
            change_today: decimal_field(v, "change_today", 14, 15)?,
        },
    )
}

/// An Alpaca position with exact signed decimals.
#[derive(Debug, Clone, PartialEq, Eq)]
pub struct AlpacaPosition {
    pub asset_id: String,
    pub symbol: String,
    pub exchange: String,
    pub asset_class: String,
    pub quantity: SignedDecimal,
    pub quantity_available: Option<SignedDecimal>,
    pub side: String,
    pub average_entry_price: SignedDecimal,
    pub market_value: SignedDecimal,
    pub cost_basis: SignedDecimal,
    pub unrealized_pl: SignedDecimal,
    pub unrealized_pl_percent: SignedDecimal,
    pub current_price: SignedDecimal,
    pub last_day_price: SignedDecimal,
    pub change_today: SignedDecimal,
}

pub open spec fn position_decimals_ok(p: ApiPosition) -> bool {
    &&& signed_text_ok(p.qty@)
    &&& (p.qty_available matches Some(q) ==> signed_text_ok(q@))
    &&& signed_text_ok(p.avg_entry_price@)
    &&& signed_text_ok(p.market_value@)
    &&& signed_text_ok(p.cost_basis@)
    &&& signed_text_ok(p.unrealized_pl@)
    &&& signed_text_ok(p.unrealized_plpc@)
    &&& signed_text_ok(p.current_price@)
    &&& signed_text_ok(p.lastday_price@)
    &&& signed_text_ok(p.change_today@)
}

pub open spec fn position_matches(p: ApiPosition, r: AlpacaPosition) -> bool {
    &&& r.asset_id == p.asset_id
    &&& r.symbol == p.symbol
    &&& r.exchange == p.exchange
    &&& r.asset_class == p.asset_class
    &&& r.quantity@ == signed_view(p.qty@)
    &&& match p.qty_available {
        Some(q) => r.quantity_available matches Some(a) && a@ == signed_view(q@),
        None => r.quantity_available is None,
    }
    &&& r.side == p.side
    &&& r.average_entry_price@ == signed_view(p.avg_entry_price@)
    &&& r.market_value@ == signed_view(p.market_value@)
    &&& r.cost_basis@ == signed_view(p.cost_basis@)
    &&& r.unrealized_pl@ == signed_view(p.unrealized_pl@)
    &&& r.unrealized_pl_percent@ == signed_view(p.unrealized_plpc@)
    &&& r.current_price@ == signed_view(p.current_price@)
    &&& r.last_day_price@ == signed_view(p.lastday_price@)
    &&& r.change_today@ == signed_view(p.change_today@)
}

pub fn normalize_position(position: &ApiPosition) -> (res: Result<AlpacaPosition, BrokerError>)
    ensures
        res is Ok <==> position_decimals_ok(*position),
        res matches Ok(r) ==> position_matches(*position, r),
        res matches Err(e) ==> is_rejection(e, invalid_signed_message()),
{
    let quantity = signed(&position.qty)?;
    let quantity_available = match &position.qty_available {
        Some(q) => Some(signed(q)?),
        None => None,
    };
    Ok(
        AlpacaPosition {
            quantity,
            quantity_available,
            average_entry_price: signed(&position.avg_entry_price)?,
            market_value: signed(&position.market_value)?,
            cost_basis: signed(&position.cost_basis)?,
            unrealized_pl: signed(&position.unrealized_pl)?,
            unrealized_pl_percent: signed(&position.unrealized_plpc)?,
            current_price: signed(&position.current_price)?,
            last_day_price: signed(&position.lastday_price)?,
            change_today: signed(&position.change_today)?,
            asset_id: position.asset_id.clone(),
            symbol: position.symbol.clone(),
            exchange: position.exchange.clone(),
            asset_class: position.asset_class.clone(),
            side: position.side.clone(),
        },
    )
}


// ---------------------------------------------------------------------------------------------
// Laws
// ---------------------------------------------------------------------------------------------

/// Each Alpaca status family has its own broker state: `filled` alone is `Filled`,
/// `partially_filled` alone is `PartiallyFilled`, and the terminal states are reached exactly
/// from the statuses after which an order can no longer change. A normalized snapshot is
/// `Filled` exactly when its API order's status is `filled`.
pub proof fn law_order_status_families(status: Seq<char>, o: ApiOrder, s: BrokerOrderSnapshot)
    ensures
        order_state_of(status) == Some(BrokerOrderState::Filled) <==> status == "filled"@,
        order_state_of(status) == Some(BrokerOrderState::PartiallyFilled) <==> status
            == "partially_filled"@,
        (order_state_of(status) matches Some(st) && st.spec_is_terminal()) <==> (status
            == "filled"@ || status == "canceled"@ || status == "expired"@ || status == "replaced"@
            || status == "done_for_day"@ || status == "rejected"@ || status == "stopped"@ || status
            == "suspended"@),
        (order_state_of(status) matches Some(st) && !st.spec_is_terminal()) <==> (status
            == "pending_new"@ || status == "accepted"@ || status == "pending_cancel"@ || status
            == "pending_replace"@ || status == "new"@ || status == "accepted_for_bidding"@ || status
            == "calculated"@ || status == "held"@ || status == "partially_filled"@),
        order_fields_match(o, s) ==> (s.state is Filled <==> o.status@ == "filled"@),
{
    reveal_strlit("pending_new");
    reveal_strlit("accepted");
    reveal_strlit("pending_cancel");
    reveal_strlit("pending_replace");
    reveal_strlit("new");
    reveal_strlit("accepted_for_bidding");
    reveal_strlit("calculated");
    reveal_strlit("held");
    reveal_strlit("partially_filled");
    reveal_strlit("filled");
    reveal_strlit("canceled");
    reveal_strlit("expired");
    reveal_strlit("replaced");
    reveal_strlit("done_for_day");
    reveal_strlit("rejected");
    reveal_strlit("stopped");
    reveal_strlit("suspended");
    assert("pending_new"@.len() == 11);
    assert("accepted"@.len() == 8);
    assert("pending_cancel"@.len() == 14);
    assert("pending_replace"@.len() == 15);
    assert("new"@.len() == 3);
    assert("accepted_for_bidding"@.len() == 20);
    assert("calculated"@.len() == 10);
    assert("held"@.len() == 4);
    assert("partially_filled"@.len() == 16);
    assert("filled"@.len() == 6);
    assert("canceled"@.len() == 8);
    assert("expired"@.len() == 7);
    assert("replaced"@.len() == 8);
    assert("done_for_day"@.len() == 12);
    assert("rejected"@.len() == 8);
    assert("stopped"@.len() == 7);
    assert("suspended"@.len() == 9);
    assert("canceled"@[0] != "accepted"@[0] && "replaced"@[0] != "accepted"@[0]
        && "rejected"@[0] != "accepted"@[0] && "replaced"@[0] != "canceled"@[0]
        && "rejected"@[0] != "canceled"@[0] && "rejected"@[2] != "replaced"@[2]);
    assert("stopped"@[0] != "expired"@[0]);
    assert(order_state_of("filled"@) == Some(BrokerOrderState::Filled));
    assert(order_state_of("partially_filled"@) == Some(BrokerOrderState::PartiallyFilled));
}

/// A normalized account holds the API account's values under the same names: each decimal in
/// its canonical form, everything else as reported.
pub proof fn law_account_keeps_each_field(a: ApiAccount, r: AlpacaAccount)
    requires
        account_matches(a, r),
    ensures
        r.id == a.id && r.status == a.status && r.currency == a.currency,
        r.buying_power@ == signed_canonical(text_bytes(a.buying_power@))->0,
        r.cash@ == signed_canonical(text_bytes(a.cash@))->0,
        r.portfolio_value@ == signed_canonical(text_bytes(a.portfolio_value@))->0,
        r.equity@ == signed_canonical(text_bytes(a.equity@))->0,
        r.last_equity@ == signed_canonical(text_bytes(a.last_equity@))->0,
        r.long_market_value@ == signed_canonical(text_bytes(a.long_market_value@))->0,
        r.short_market_value@ == signed_canonical(text_bytes(a.short_market_value@))->0,
        r.initial_margin@ == signed_canonical(text_bytes(a.initial_margin@))->0,
        r.maintenance_margin@ == signed_canonical(text_bytes(a.maintenance_margin@))->0,
        r.daytrade_count == a.daytrade_count,
        r.trading_blocked == a.trading_blocked && r.transfers_blocked == a.transfers_blocked
            && r.account_blocked == a.account_blocked && r.trade_suspended_by_user
            == a.trade_suspended_by_user,
        account_decimals_ok(a) ==> (signed_canonical(text_bytes(a.buying_power@))
            != signed_canonical(text_bytes(a.cash@)) ==> r.buying_power@ != r.cash@),
{
}

/// A normalized position holds the API position's values under the matching names: each
/// decimal in its canonical form, everything else as reported.
pub proof fn law_position_keeps_each_field(p: ApiPosition, r: AlpacaPosition)
    requires
        position_matches(p, r),
    ensures
        r.asset_id == p.asset_id && r.symbol == p.symbol && r.exchange == p.exchange
            && r.asset_class == p.asset_class && r.side == p.side,
        r.quantity@ == signed_canonical(text_bytes(p.qty@))->0,
        p.qty_available is None <==> r.quantity_available is None,
        p.qty_available matches Some(q) ==> r.quantity_available->0@ == signed_canonical(
            text_bytes(q@),
        )->0,
        r.average_entry_price@ == signed_canonical(text_bytes(p.avg_entry_price@))->0,
        r.market_value@ == signed_canonical(text_bytes(p.market_value@))->0,
        r.cost_basis@ == signed_canonical(text_bytes(p.cost_basis@))->0,
        r.unrealized_pl@ == signed_canonical(text_bytes(p.unrealized_pl@))->0,
        r.unrealized_pl_percent@ == signed_canonical(text_bytes(p.unrealized_plpc@))->0,
        r.current_price@ == signed_canonical(text_bytes(p.current_price@))->0,
        r.last_day_price@ == signed_canonical(text_bytes(p.lastday_price@))->0,
        r.change_today@ == signed_canonical(text_bytes(p.change_today@))->0,
{
}

/// An execution reports its fill activity: the activity's identity and time, and its price and
/// quantity in canonical form.
pub proof fn law_fill_keeps_each_field(f: ApiFillActivity, x: BrokerExecution)
    requires
        fill_matches(f, x),
    ensures
        x.execution_id == f.id,
        x.occurred_at == f.transaction_time,
        x.effective_price@ == canonical_decimal(text_bytes(f.price@)),
        x.quantity@ == canonical_decimal(text_bytes(f.qty@)),
{
}

/// A normalized order keeps the API order's identities, acceptance time, filled quantity,
/// average price and update time under the matching names.
pub proof fn law_order_keeps_each_field(o: ApiOrder, s: BrokerOrderSnapshot)
    requires
        order_fields_match(o, s),
    ensures
        s.acknowledgement.broker_order_id == o.id,
        s.acknowledgement.client_order_id == o.client_order_id,
        timestamp_ns_of(o.submitted_at@) == Ok::<u64, Seq<char>>(s.acknowledgement.accepted_at_ns),
        s.filled_quantity@ == canonical_decimal(text_bytes(o.filled_qty@)),
        o.filled_avg_price is None <==> s.average_price is None,
        o.filled_avg_price matches Some(p) ==> s.average_price->0@ == canonical_decimal(
            text_bytes(p@),
        ),
        s.updated_at == o.updated_at,
{
}

} // verus!
