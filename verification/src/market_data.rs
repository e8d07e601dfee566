//! Alpaca market data: parsing the events of a WebSocket frame and turning them into
//! sequenced source records, per partition, with a restartable checkpoint.
//!
//! A frame is all-or-nothing: when any of its events is refused, nothing of it is recorded.

use vstd::prelude::*;
use vstd::string::StringSliceAdditionalSpecFns;
use vstd::string::StringExecFns;
use crate::broker::{parse_rfc3339_nanos, rfc3339_unix_nanos};
use crate::decimal::{canonical_decimal, decimal_syntax, digits_u64, range_all_digits, BrokerDecimal};
use crate::json::{get, json_get, parse_json, parsed_json, JsonValue};
use crate::text::{
    all_digits, digits_value, lemma_text_lt_total, lemma_text_lt_transitive, str_eq, str_less,
    text_bytes, text_lt,
};

verus! {

broadcast use {vstd::seq_lib::group_seq_properties, vstd::utf8::group_utf8_lib};

/// Frames larger than 8 MiB are refused.
pub const MAX_FRAME_BYTES: usize = 8388608;

/// Frames with more than this many events are refused.
pub const MAX_EVENTS_PER_FRAME: usize = 10000;

#[derive(Debug, Clone, PartialEq, Eq)]
pub enum AlpacaMarketEvent {
    Trade {
        symbol: String,
        trade_id: String,
        exchange: String,
        price: BrokerDecimal,
        size: BrokerDecimal,
        conditions: Vec<String>,
        tape: String,
    },
    Quote {
        symbol: String,
        bid_exchange: String,
        bid_price: BrokerDecimal,
        bid_size: BrokerDecimal,
        ask_exchange: String,
        ask_price: BrokerDecimal,
        ask_size: BrokerDecimal,
        conditions: Vec<String>,
        tape: String,
    },
    Bar {
        symbol: String,
        interval: String,
        open: BrokerDecimal,
        high: BrokerDecimal,
        low: BrokerDecimal,
        close: BrokerDecimal,
        volume: BrokerDecimal,
        trade_count: Option<u64>,
        vwap: Option<BrokerDecimal>,
    },
    Correction {
        symbol: String,
        original_trade_id: String,
        corrected_trade_id: String,
        original_price: BrokerDecimal,
        corrected_price: BrokerDecimal,
        original_size: BrokerDecimal,
        corrected_size: BrokerDecimal,
    },
    Cancel {
        symbol: String,
        trade_id: String,
        exchange: String,
        price: BrokerDecimal,
        size: BrokerDecimal,
        action: String,
        tape: String,
    },
    TradingStatus {
        symbol: String,
        status_code: String,
        reason_code: String,
        reason_message: String,
        tape: String,
    },
    Control { event_type: String, code: Option<u64>, message: Option<String> },
}

#[derive(Debug, Clone, PartialEq, Eq)]
pub enum MarketDataError {
    /// The frame exceeded the byte limit.
    FrameTooLarge,
    /// The frame was not valid JSON, or not an object or an array of objects.
    InvalidJson,
    /// The frame exceeded the event-count limit.
    TooManyEvents,
    /// An event is missing a field or has an invalid one.
    InvalidField(&'static str),
    /// An event type is not supported.
    UnsupportedEvent(String),
    /// The observation time went back for a partition.
    ObservationTimeRegression(String),
    /// A partition's sequence overflowed.
    SequenceOverflow,
    /// A checkpoint belongs to another source.
    ForeignCheckpoint,
}

impl MarketDataError {
    /// The error's message, as the error is displayed.
    pub fn message(&self) -> (res: String)
        ensures
            *self is FrameTooLarge ==> res@ == "Alpaca market-data frame exceeded the configured byte limit"@,
            *self is InvalidJson ==> res@ == "Alpaca market-data frame was not valid JSON"@,
            *self is TooManyEvents ==> res@ == "Alpaca market-data frame exceeded the event-count limit"@,
            *self matches MarketDataError::InvalidField(f) ==> res@
                == "Alpaca market-data event is missing or has an invalid "@ + f@ + " field"@,
            *self matches MarketDataError::UnsupportedEvent(t) ==> res@
                == "Alpaca market-data event type "@ + t@ + " is unsupported"@,
            *self matches MarketDataError::ObservationTimeRegression(p) ==> res@
                == "Alpaca market-data observation time regressed for partition "@ + p@,
            *self is SequenceOverflow ==> res@ == "Alpaca market-data partition sequence overflowed"@,
            *self is ForeignCheckpoint ==> res@ == "market-data checkpoint belongs to a different source"@,
    {
        match self {
            MarketDataError::FrameTooLarge => "Alpaca market-data frame exceeded the configured byte limit".to_owned(),
            MarketDataError::InvalidJson => "Alpaca market-data frame was not valid JSON".to_owned(),
            MarketDataError::TooManyEvents => "Alpaca market-data frame exceeded the event-count limit".to_owned(),
            MarketDataError::InvalidField(f) => "Alpaca market-data event is missing or has an invalid ".to_owned()
                .concat(f).concat(" field"),
            MarketDataError::UnsupportedEvent(t) => "Alpaca market-data event type ".to_owned()
                .concat(t.as_str()).concat(" is unsupported"),
            MarketDataError::ObservationTimeRegression(p) => "Alpaca market-data observation time regressed for partition ".to_owned()
                .concat(p.as_str()),
            MarketDataError::SequenceOverflow => "Alpaca market-data partition sequence overflowed".to_owned(),
            MarketDataError::ForeignCheckpoint => "market-data checkpoint belongs to a different source".to_owned(),
        }
    }
}

// ---------------------------------------------------------------------------------------------
// Fields
// ---------------------------------------------------------------------------------------------

/// A non-empty string member.
pub open spec fn present_text(m: Seq<(String, JsonValue)>, k: Seq<char>) -> Option<Seq<char>> {
    match json_get(m, k) {
        Some(JsonValue::String(s)) => if s@.len() > 0 {
            Some(s@)
        } else {
            None
        },
        _ => None,
    }
}

/// A non-empty string member, or the text of a number member.
pub open spec fn scalar_text(m: Seq<(String, JsonValue)>, k: Seq<char>) -> Option<Seq<char>> {
    match json_get(m, k) {
        Some(JsonValue::String(s)) => if s@.len() > 0 {
            Some(s@)
        } else {
            None
        },
        Some(JsonValue::Number(n)) => Some(n.text@),
        _ => None,
    }
}

/// A scalar member that is a decimal, canonicalized.
pub open spec fn decimal_value(m: Seq<(String, JsonValue)>, k: Seq<char>) -> Option<Seq<u8>> {
    match scalar_text(m, k) {
        Some(t) => if decimal_syntax(text_bytes(t)) {
            Some(canonical_decimal(text_bytes(t)))
        } else {
            None
        },
        None => None,
    }
}

/// An optional decimal: absent or `null` is `Some(None)`.
pub open spec fn optional_decimal_value(m: Seq<(String, JsonValue)>, k: Seq<char>) -> Option<
    Option<Seq<u8>>,
> {
    match json_get(m, k) {
        None => Some(None),
        Some(JsonValue::Null) => Some(None),
        Some(_) => match decimal_value(m, k) {
            Some(d) => Some(Some(d)),
            None => None,
        },
    }
}

/// What `u64::from_str` reads from text: an optional `+`, then one or more ASCII digits whose
/// value fits `u64`.
pub open spec fn u64_text(b: Seq<u8>) -> Option<u64> {
    let d = if b.len() > 0 && b[0] == 43 {
        b.drop_first()
    } else {
        b
    };
    if d.len() == 0 || !all_digits(d) || digits_value(d) > u64::MAX {
        None
    } else {
        Some(digits_value(d) as u64)
    }
}

/// An optional count: absent or `null` is `Some(None)`; a `u64` number or a string holding one
/// is its value.
pub open spec fn optional_count_value(m: Seq<(String, JsonValue)>, k: Seq<char>) -> Option<
    Option<u64>,
> {
    match json_get(m, k) {
        None => Some(None),
        Some(JsonValue::Null) => Some(None),
        Some(JsonValue::Number(n)) => match n.unsigned {
            Some(u) => Some(Some(u)),
            None => None,
        },
        Some(JsonValue::String(s)) => match u64_text(text_bytes(s@)) {
            Some(v) => Some(Some(v)),
            None => None,
        },
        _ => None,
    }
}

/// The text of a list item: a string, or the text of a number.
pub open spec fn item_text(v: JsonValue) -> Option<Seq<char>> {
    match v {
        JsonValue::String(s) => Some(s@),
        JsonValue::Number(n) => Some(n.text@),
        _ => None,
    }
}

/// An optional list of texts: absent is empty; an array's items must each have a text.
pub open spec fn text_list_value(m: Seq<(String, JsonValue)>, k: Seq<char>) -> Option<
    Seq<Seq<char>>,
> {
    match json_get(m, k) {
        None => Some(Seq::empty()),
        Some(JsonValue::Array(a)) => if forall|i: int|
            0 <= i < a@.len() ==> (#[trigger] item_text(a@[i])) is Some {
            Some(Seq::new(a@.len(), |i: int| item_text(a@[i])->0))
        } else {
            None
        },
        Some(_) => None,
    }
}

/// A scalar member, or empty text when there is none.
pub open spec fn default_scalar(m: Seq<(String, JsonValue)>, k: Seq<char>) -> Seq<char> {
    match scalar_text(m, k) {
        Some(t) => t,
        None => Seq::empty(),
    }
}

pub open spec fn texts_view(v: Seq<String>) -> Seq<Seq<char>> {
    v.map_values(|s: String| s@)
}

pub open spec fn decimal_option_view(d: Option<BrokerDecimal>) -> Option<Seq<u8>> {
    match d {
        Some(x) => Some(x@),
        None => None,
    }
}

fn read_text(m: &Vec<(String, JsonValue)>, k: &'static str) -> (res: Result<String, MarketDataError>)
    ensures
        match present_text(m@, k@) {
            Some(t) => res matches Ok(s) && s@ == t,
            None => res == Err::<String, MarketDataError>(MarketDataError::InvalidField(k)),
        },
{
    match get(m, k) {
        Some(JsonValue::String(s)) => {
            if !s.as_str().is_empty() {
                Ok(s.clone())
            } else {
                Err(MarketDataError::InvalidField(k))
            }
        },
        _ => Err(MarketDataError::InvalidField(k)),
    }
}

fn optional_scalar(m: &Vec<(String, JsonValue)>, k: &str) -> (res: Option<String>)
    ensures
        match scalar_text(m@, k@) {
            Some(t) => res matches Some(s) && s@ == t,
            None => res is None,
        },
{
    match get(m, k) {
        Some(JsonValue::String(s)) => {
            if !s.as_str().is_empty() {
                Some(s.clone())
            } else {
                None
            }
        },
        Some(JsonValue::Number(n)) => Some(n.text.clone()),
        _ => None,
    }
}

fn read_scalar(m: &Vec<(String, JsonValue)>, k: &'static str) -> (res: Result<String, MarketDataError>)
    ensures
        match scalar_text(m@, k@) {
            Some(t) => res matches Ok(s) && s@ == t,
            None => res == Err::<String, MarketDataError>(MarketDataError::InvalidField(k)),
        },
{
    match optional_scalar(m, k) {
        Some(s) => Ok(s),
        None => Err(MarketDataError::InvalidField(k)),
    }
}

fn read_default_scalar(m: &Vec<(String, JsonValue)>, k: &str) -> (res: String)
    ensures
        res@ == default_scalar(m@, k@),
{
    match optional_scalar(m, k) {
        Some(s) => s,
        None => String::new(),
    }
}

fn read_decimal(m: &Vec<(String, JsonValue)>, k: &'static str) -> (res: Result<
    BrokerDecimal,
    MarketDataError,
>)
    ensures
        match decimal_value(m@, k@) {
            Some(d) => res matches Ok(x) && x@ == d,
            None => res == Err::<BrokerDecimal, MarketDataError>(MarketDataError::InvalidField(k)),
        },
{
    let text = read_scalar(m, k)?;
    match BrokerDecimal::try_new(text.as_str()) {
        Ok(d) => Ok(d),
        Err(_) => Err(MarketDataError::InvalidField(k)),
    }
}

fn read_optional_decimal(m: &Vec<(String, JsonValue)>, k: &'static str) -> (res: Result<
    Option<BrokerDecimal>,
    MarketDataError,
>)
    ensures
        match optional_decimal_value(m@, k@) {
            Some(d) => res matches Ok(x) && decimal_option_view(x) == d,
            None => res == Err::<Option<BrokerDecimal>, MarketDataError>(
                MarketDataError::InvalidField(k),
            ),
        },
{
    match get(m, k) {
        None => Ok(None),
        Some(JsonValue::Null) => Ok(None),
        Some(_) => {
            let d = read_decimal(m, k)?;
            Ok(Some(d))
        },
    }
}

/// Reads text the way `u64::from_str` does.
pub fn parse_u64_text(text: &str) -> (res: Option<u64>)
    ensures
        res == u64_text(text.spec_bytes()),
{
    let b = text.as_bytes();
    let start: usize = if b.len() > 0 && b[0] == 43 {
        1
    } else {
        0
    };
    let ghost d = if b@.len() > 0 && b@[0] == 43 {
        b@.drop_first()
    } else {
        b@
    };
    assert(b@.subrange(start as int, b.len() as int) =~= d);
    if start == b.len() || !range_all_digits(b, start, b.len()) {
        return None;
    }
    digits_u64(b, start, b.len())
}

fn read_optional_count(m: &Vec<(String, JsonValue)>, k: &'static str) -> (res: Result<
    Option<u64>,
    MarketDataError,
>)
    ensures
        match optional_count_value(m@, k@) {
            Some(c) => res == Ok::<Option<u64>, MarketDataError>(c),
            None => res == Err::<Option<u64>, MarketDataError>(MarketDataError::InvalidField(k)),
        },
{
    match get(m, k) {
        None => Ok(None),
        Some(JsonValue::Null) => Ok(None),
        Some(JsonValue::Number(n)) => match n.unsigned {
            Some(u) => Ok(Some(u)),
            None => Err(MarketDataError::InvalidField(k)),
        },
        Some(JsonValue::String(s)) => match parse_u64_text(s.as_str()) {
            Some(v) => Ok(Some(v)),
            None => Err(MarketDataError::InvalidField(k)),
        },
        _ => Err(MarketDataError::InvalidField(k)),
    }
}

fn read_text_list(m: &Vec<(String, JsonValue)>, k: &'static str) -> (res: Result<
    Vec<String>,
    MarketDataError,
>)
    ensures
        match text_list_value(m@, k@) {
            Some(ts) => res matches Ok(v) && texts_view(v@) == ts,
            None => res == Err::<Vec<String>, MarketDataError>(MarketDataError::InvalidField(k)),
        },
{
    let a = match get(m, k) {
        None => {
            let out: Vec<String> = Vec::new();
            assert(texts_view(out@) =~= Seq::<Seq<char>>::empty());
            return Ok(out);
        },
        Some(JsonValue::Array(a)) => a,
        Some(_) => {
            return Err(MarketDataError::InvalidField(k));
        },
    };
    let mut out: Vec<String> = Vec::new();
    let mut i: usize = 0;
    while i < a.len()
        invariant
            i <= a.len(),
            json_get(m@, k@) == Some(JsonValue::Array(*a)),
            out@.len() == i,
            forall|j: int| 0 <= j < i ==> (#[trigger] item_text(a@[j])) is Some,
            forall|j: int| 0 <= j < i ==> (#[trigger] out@[j])@ == item_text(a@[j])->0,
        decreases a.len() - i,
    {
        match &a[i] {
            JsonValue::String(s) => out.push(s.clone()),
            JsonValue::Number(n) => out.push(n.text.clone()),
            _ => {
                assert(item_text(a@[i as int]) is None);
                return Err(MarketDataError::InvalidField(k));
            },
        }
        i = i + 1;
    }
    assert(texts_view(out@) =~= Seq::new(a@.len(), |i: int| item_text(a@[i])->0));
    Ok(out)
}

// ---------------------------------------------------------------------------------------------
// Events
// ---------------------------------------------------------------------------------------------

/// The bar interval an event type names.
pub open spec fn bar_interval(event_type: Seq<char>) -> Seq<char> {
    if event_type == "b"@ {
        "minute"@
    } else if event_type == "u"@ {
        "updated_minute"@
    } else {
        "daily"@
    }
}

fn bar_interval_text(event_type: &str) -> (res: String)
    ensures
        res@ == bar_interval(event_type@),
{
    if str_eq(event_type, "b") {
        "minute".to_owned()
    } else if str_eq(event_type, "u") {
        "updated_minute".to_owned()
    } else {
        "daily".to_owned()
    }
}

/// The first field of a trade event that is missing or invalid, in reading order.
pub open spec fn trade_problem(m: Seq<(String, JsonValue)>) -> Option<Seq<char>> {
    if !(present_text(m, "S"@) is Some) {
        Some("S"@)
    } else if !(scalar_text(m, "i"@) is Some) {
        Some("i"@)
    } else if !(scalar_text(m, "x"@) is Some) {
        Some("x"@)
    } else if !(decimal_value(m, "p"@) is Some) {
        Some("p"@)
    } else if !(decimal_value(m, "s"@) is Some) {
        Some("s"@)
    } else if !(text_list_value(m, "c"@) is Some) {
        Some("c"@)
    } else {
        None
    }
}

pub open spec fn trade_matches(m: Seq<(String, JsonValue)>, ev: AlpacaMarketEvent) -> bool {
    &&& ev matches AlpacaMarketEvent::Trade { symbol, trade_id, exchange, price, size, conditions, tape }
    &&& symbol@ == present_text(m, "S"@)->0
    &&& trade_id@ == scalar_text(m, "i"@)->0
    &&& exchange@ == scalar_text(m, "x"@)->0
    &&& price@ == decimal_value(m, "p"@)->0
    &&& size@ == decimal_value(m, "s"@)->0
    &&& texts_view(conditions@) == text_list_value(m, "c"@)->0
    &&& tape@ == default_scalar(m, "z"@)
}

/// The first field of a quote event that is missing or invalid, in reading order.
pub open spec fn quote_problem(m: Seq<(String, JsonValue)>) -> Option<Seq<char>> {
    if !(present_text(m, "S"@) is Some) {
        Some("S"@)
    } else if !(scalar_text(m, "bx"@) is Some) {
        Some("bx"@)
    } else if !(decimal_value(m, "bp"@) is Some) {
        Some("bp"@)
    } else if !(decimal_value(m, "bs"@) is Some) {
        Some("bs"@)
    } else if !(scalar_text(m, "ax"@) is Some) {
        Some("ax"@)
    } else if !(decimal_value(m, "ap"@) is Some) {
        Some("ap"@)
    } else if !(decimal_value(m, "as"@) is Some) {
        Some("as"@)
    } else if !(text_list_value(m, "c"@) is Some) {
        Some("c"@)
    } else {
        None
    }
}

pub open spec fn quote_matches(m: Seq<(String, JsonValue)>, ev: AlpacaMarketEvent) -> bool {
    &&& ev matches AlpacaMarketEvent::Quote { symbol, bid_exchange, bid_price, bid_size, ask_exchange, ask_price, ask_size, conditions, tape }
    &&& symbol@ == present_text(m, "S"@)->0
    &&& bid_exchange@ == scalar_text(m, "bx"@)->0
    &&& bid_price@ == decimal_value(m, "bp"@)->0
    &&& bid_size@ == decimal_value(m, "bs"@)->0
    &&& ask_exchange@ == scalar_text(m, "ax"@)->0
    &&& ask_price@ == decimal_value(m, "ap"@)->0
    &&& ask_size@ == decimal_value(m, "as"@)->0
    &&& texts_view(conditions@) == text_list_value(m, "c"@)->0
    &&& tape@ == default_scalar(m, "z"@)
}

/// The first field of a correction event that is missing or invalid, in reading order.
pub open spec fn correction_problem(m: Seq<(String, JsonValue)>) -> Option<Seq<char>> {
    if !(present_text(m, "S"@) is Some) {
        Some("S"@)
    } else if !(scalar_text(m, "oi"@) is Some) {
        Some("oi"@)
    } else if !(scalar_text(m, "ci"@) is Some) {
        Some("ci"@)
    } else if !(decimal_value(m, "op"@) is Some) {
        Some("op"@)
    } else if !(decimal_value(m, "cp"@) is Some) {
        Some("cp"@)
    } else if !(decimal_value(m, "os"@) is Some) {
        Some("os"@)
    } else if !(decimal_value(m, "cs"@) is Some) {
        Some("cs"@)
    } else {
        None
    }
}

pub open spec fn correction_matches(m: Seq<(String, JsonValue)>, ev: AlpacaMarketEvent) -> bool {
    &&& ev matches AlpacaMarketEvent::Correction { symbol, original_trade_id, corrected_trade_id, original_price, corrected_price, original_size, corrected_size }
    &&& symbol@ == present_text(m, "S"@)->0
    &&& original_trade_id@ == scalar_text(m, "oi"@)->0
    &&& corrected_trade_id@ == scalar_text(m, "ci"@)->0
    &&& original_price@ == decimal_value(m, "op"@)->0
    &&& corrected_price@ == decimal_value(m, "cp"@)->0
    &&& original_size@ == decimal_value(m, "os"@)->0
    &&& corrected_size@ == decimal_value(m, "cs"@)->0
}

/// The first field of a cancel event that is missing or invalid, in reading order.
pub open spec fn cancel_problem(m: Seq<(String, JsonValue)>) -> Option<Seq<char>> {
    if !(present_text(m, "S"@) is Some) {
        Some("S"@)
    } else if !(scalar_text(m, "i"@) is Some) {
        Some("i"@)
    } else if !(scalar_text(m, "x"@) is Some) {
        Some("x"@)
    } else if !(decimal_value(m, "p"@) is Some) {
        Some("p"@)
    } else if !(decimal_value(m, "s"@) is Some) {
        Some("s"@)
    } else {
        None
    }
}

pub open spec fn cancel_matches(m: Seq<(String, JsonValue)>, ev: AlpacaMarketEvent) -> bool {
    &&& ev matches AlpacaMarketEvent::Cancel { symbol, trade_id, exchange, price, size, action, tape }
    &&& symbol@ == present_text(m, "S"@)->0
    &&& trade_id@ == scalar_text(m, "i"@)->0
    &&& exchange@ == scalar_text(m, "x"@)->0
    &&& price@ == decimal_value(m, "p"@)->0
    &&& size@ == decimal_value(m, "s"@)->0
    &&& action@ == default_scalar(m, "a"@)
    &&& tape@ == default_scalar(m, "z"@)
}

/// The first field of a status event that is missing or invalid, in reading order.
pub open spec fn status_problem(m: Seq<(String, JsonValue)>) -> Option<Seq<char>> {
    if !(present_text(m, "S"@) is Some) {
        Some("S"@)
    } else if !(scalar_text(m, "sc"@) is Some) {
        Some("sc"@)
    } else {
        None
    }
}

pub open spec fn status_matches(m: Seq<(String, JsonValue)>, ev: AlpacaMarketEvent) -> bool {
    &&& ev matches AlpacaMarketEvent::TradingStatus { symbol, status_code, reason_code, reason_message, tape }
    &&& symbol@ == present_text(m, "S"@)->0
    &&& status_code@ == scalar_text(m, "sc"@)->0
    &&& reason_code@ == default_scalar(m, "rc"@)
    &&& reason_message@ == default_scalar(m, "rm"@)
    &&& tape@ == default_scalar(m, "z"@)
}

/// The first field of a bar event that is missing or invalid, in reading order.
pub open spec fn bar_problem(m: Seq<(String, JsonValue)>) -> Option<Seq<char>> {
    if !(present_text(m, "S"@) is Some) {
        Some("S"@)
    } else if !(decimal_value(m, "o"@) is Some) {
        Some("o"@)
    } else if !(decimal_value(m, "h"@) is Some) {
        Some("h"@)
    } else if !(decimal_value(m, "l"@) is Some) {
        Some("l"@)
    } else if !(decimal_value(m, "c"@) is Some) {
        Some("c"@)
    } else if !(decimal_value(m, "v"@) is Some) {
        Some("v"@)
    } else if !(optional_count_value(m, "n"@) is Some) {
        Some("n"@)
    } else if !(optional_decimal_value(m, "vw"@) is Some) {
        Some("vw"@)
    } else {
        None
    }
}

pub open spec fn bar_matches(m: Seq<(String, JsonValue)>, event_type: Seq<char>, ev: AlpacaMarketEvent) -> bool {
    &&& ev matches AlpacaMarketEvent::Bar { symbol, open, high, low, close, volume, trade_count, vwap, interval }
    &&& symbol@ == present_text(m, "S"@)->0
    &&& open@ == decimal_value(m, "o"@)->0
    &&& high@ == decimal_value(m, "h"@)->0
    &&& low@ == decimal_value(m, "l"@)->0
    &&& close@ == decimal_value(m, "c"@)->0
    &&& volume@ == decimal_value(m, "v"@)->0
    &&& trade_count == optional_count_value(m, "n"@)->0
    &&& decimal_option_view(vwap) == optional_decimal_value(m, "vw"@)->0
    &&& interval@ == bar_interval(event_type)
}

fn parse_trade(m: &Vec<(String, JsonValue)>) -> (res: Result<AlpacaMarketEvent, MarketDataError>)
    ensures
        match trade_problem(m@) {
            Some(f) => res matches Err(MarketDataError::InvalidField(x)) && x@ == f,
            None => res matches Ok(ev) && trade_matches(m@, ev),
        },
{
    let symbol = read_text(m, "S")?;
    let trade_id = read_scalar(m, "i")?;
    let exchange = read_scalar(m, "x")?;
    let price = read_decimal(m, "p")?;
    let size = read_decimal(m, "s")?;
    let conditions = read_text_list(m, "c")?;
    let tape = read_default_scalar(m, "z");
    Ok(AlpacaMarketEvent::Trade { symbol, trade_id, exchange, price, size, conditions, tape })
}

fn parse_quote(m: &Vec<(String, JsonValue)>) -> (res: Result<AlpacaMarketEvent, MarketDataError>)
    ensures
        match quote_problem(m@) {
            Some(f) => res matches Err(MarketDataError::InvalidField(x)) && x@ == f,
            None => res matches Ok(ev) && quote_matches(m@, ev),
        },
{
    let symbol = read_text(m, "S")?;
    let bid_exchange = read_scalar(m, "bx")?;
    let bid_price = read_decimal(m, "bp")?;
    let bid_size = read_decimal(m, "bs")?;
    let ask_exchange = read_scalar(m, "ax")?;
    let ask_price = read_decimal(m, "ap")?;
    let ask_size = read_decimal(m, "as")?;
    let conditions = read_text_list(m, "c")?;
    let tape = read_default_scalar(m, "z");
    Ok(AlpacaMarketEvent::Quote { symbol, bid_exchange, bid_price, bid_size, ask_exchange, ask_price, ask_size, conditions, tape })
}

fn parse_correction(m: &Vec<(String, JsonValue)>) -> (res: Result<AlpacaMarketEvent, MarketDataError>)
    ensures
        match correction_problem(m@) {
            Some(f) => res matches Err(MarketDataError::InvalidField(x)) && x@ == f,
            None => res matches Ok(ev) && correction_matches(m@, ev),
        },
{
    let symbol = read_text(m, "S")?;
    let original_trade_id = read_scalar(m, "oi")?;
    let corrected_trade_id = read_scalar(m, "ci")?;
    let original_price = read_decimal(m, "op")?;
    let corrected_price = read_decimal(m, "cp")?;
    let original_size = read_decimal(m, "os")?;
    let corrected_size = read_decimal(m, "cs")?;
    Ok(AlpacaMarketEvent::Correction { symbol, original_trade_id, corrected_trade_id, original_price, corrected_price, original_size, corrected_size })
}

fn parse_cancel(m: &Vec<(String, JsonValue)>) -> (res: Result<AlpacaMarketEvent, MarketDataError>)
    ensures
        match cancel_problem(m@) {
            Some(f) => res matches Err(MarketDataError::InvalidField(x)) && x@ == f,
            None => res matches Ok(ev) && cancel_matches(m@, ev),
        },
{
    let symbol = read_text(m, "S")?;
    let trade_id = read_scalar(m, "i")?;
    let exchange = read_scalar(m, "x")?;
    let price = read_decimal(m, "p")?;
    let size = read_decimal(m, "s")?;
    let action = read_default_scalar(m, "a");
    let tape = read_default_scalar(m, "z");
    Ok(AlpacaMarketEvent::Cancel { symbol, trade_id, exchange, price, size, action, tape })
}

fn parse_status(m: &Vec<(String, JsonValue)>) -> (res: Result<AlpacaMarketEvent, MarketDataError>)
    ensures
        match status_problem(m@) {
            Some(f) => res matches Err(MarketDataError::InvalidField(x)) && x@ == f,
            None => res matches Ok(ev) && status_matches(m@, ev),
        },
{
    let symbol = read_text(m, "S")?;
    let status_code = read_scalar(m, "sc")?;
    let reason_code = read_default_scalar(m, "rc");
    let reason_message = read_default_scalar(m, "rm");
    let tape = read_default_scalar(m, "z");
    Ok(AlpacaMarketEvent::TradingStatus { symbol, status_code, reason_code, reason_message, tape })
}

fn parse_bar(m: &Vec<(String, JsonValue)>, event_type: &str) -> (res: Result<AlpacaMarketEvent, MarketDataError>)
    ensures
        match bar_problem(m@) {
            Some(f) => res matches Err(MarketDataError::InvalidField(x)) && x@ == f,
            None => res matches Ok(ev) && bar_matches(m@, event_type@, ev),
        },
{
    let symbol = read_text(m, "S")?;
    let open = read_decimal(m, "o")?;
    let high = read_decimal(m, "h")?;
    let low = read_decimal(m, "l")?;
    let close = read_decimal(m, "c")?;
    let volume = read_decimal(m, "v")?;
    let trade_count = read_optional_count(m, "n")?;
    let vwap = read_optional_decimal(m, "vw")?;
    let interval = bar_interval_text(event_type);
    Ok(AlpacaMarketEvent::Bar { symbol, open, high, low, close, volume, trade_count, vwap, interval })
}

pub open spec fn is_bar_type(t: Seq<char>) -> bool {
    t == "b"@ || t == "u"@ || t == "d"@
}

pub open spec fn is_control_type(t: Seq<char>) -> bool {
    t == "success"@ || t == "subscription"@ || t == "error"@
}

/// The event types the normalizer understands.
pub open spec fn is_known_type(t: Seq<char>) -> bool {
    t == "t"@ || t == "q"@ || is_bar_type(t) || t == "c"@ || t == "x"@ || t == "s"@
        || is_control_type(t)
}

/// The event time: the `t` timestamp in nanoseconds when present, else the observation time.
pub open spec fn event_time_value(m: Seq<(String, JsonValue)>, observed: i64) -> Option<i64> {
    match json_get(m, "t"@) {
        None => Some(observed),
        Some(JsonValue::String(s)) => match rfc3339_unix_nanos(s@) {
            Some(n) => if i64::MIN <= n <= i64::MAX {
                Some(n as i64)
            } else {
                None
            },
            None => None,
        },
        Some(_) => None,
    }
}

/// The first field of an event that is missing or invalid: its type `T`, its time `t`, then
/// the fields of its kind in reading order.
pub open spec fn event_problem(m: Seq<(String, JsonValue)>, observed: i64) -> Option<Seq<char>> {
    match present_text(m, "T"@) {
        None => Some("T"@),
        Some(t) => if event_time_value(m, observed) is None {
            Some("t"@)
        } else if t == "t"@ {
            trade_problem(m)
        } else if t == "q"@ {
            quote_problem(m)
        } else if is_bar_type(t) {
            bar_problem(m)
        } else if t == "c"@ {
            correction_problem(m)
        } else if t == "x"@ {
            cancel_problem(m)
        } else if t == "s"@ {
            status_problem(m)
        } else if is_control_type(t) {
            if optional_count_value(m, "code"@) is None {
                Some("code"@)
            } else {
                None
            }
        } else {
            None
        },
    }
}

/// The text of the `msg` member of a control event, when it is a string.
pub open spec fn message_text(m: Seq<(String, JsonValue)>) -> Option<Seq<char>> {
    match json_get(m, "msg"@) {
        Some(JsonValue::String(s)) => Some(s@),
        _ => None,
    }
}

pub open spec fn string_option_view(o: Option<String>) -> Option<Seq<char>> {
    match o {
        Some(s) => Some(s@),
        None => None,
    }
}

pub open spec fn control_matches(m: Seq<(String, JsonValue)>, ev: AlpacaMarketEvent) -> bool {
    &&& ev matches AlpacaMarketEvent::Control { event_type, code, message }
    &&& event_type@ == present_text(m, "T"@)->0
    &&& code == optional_count_value(m, "code"@)->0
    &&& string_option_view(message) == message_text(m)
}

/// The event parsed from a valid object of a known type.
pub open spec fn event_matches(m: Seq<(String, JsonValue)>, ev: AlpacaMarketEvent) -> bool {
    let t = present_text(m, "T"@)->0;
    if t == "t"@ {
        trade_matches(m, ev)
    } else if t == "q"@ {
        quote_matches(m, ev)
    } else if is_bar_type(t) {
        bar_matches(m, t, ev)
    } else if t == "c"@ {
        correction_matches(m, ev)
    } else if t == "x"@ {
        cancel_matches(m, ev)
    } else if t == "s"@ {
        status_matches(m, ev)
    } else {
        control_matches(m, ev)
    }
}

/// The partition of an event: its symbol, or `$control` for control events.
pub open spec fn partition_of(m: Seq<(String, JsonValue)>) -> Seq<char> {
    if is_control_type(present_text(m, "T"@)->0) {
        "$control"@
    } else {
        present_text(m, "S"@)->0
    }
}

impl AlpacaMarketEvent {
    pub open spec fn spec_partition(&self) -> Seq<char> {
        match self {
            AlpacaMarketEvent::Trade { symbol, .. } => symbol@,
            AlpacaMarketEvent::Quote { symbol, .. } => symbol@,
            AlpacaMarketEvent::Bar { symbol, .. } => symbol@,
            AlpacaMarketEvent::Correction { symbol, .. } => symbol@,
            AlpacaMarketEvent::Cancel { symbol, .. } => symbol@,
            AlpacaMarketEvent::TradingStatus { symbol, .. } => symbol@,
            AlpacaMarketEvent::Control { .. } => "$control"@,
        }
    }

    /// The partition an event is sequenced in.
    pub fn partition(&self) -> (res: &str)
        ensures
            res@ == self.spec_partition(),
    {
        match self {
            AlpacaMarketEvent::Trade { symbol, .. } => symbol.as_str(),
            AlpacaMarketEvent::Quote { symbol, .. } => symbol.as_str(),
            AlpacaMarketEvent::Bar { symbol, .. } => symbol.as_str(),
            AlpacaMarketEvent::Correction { symbol, .. } => symbol.as_str(),
            AlpacaMarketEvent::Cancel { symbol, .. } => symbol.as_str(),
            AlpacaMarketEvent::TradingStatus { symbol, .. } => symbol.as_str(),
            AlpacaMarketEvent::Control { .. } => "$control",
        }
    }
}

fn read_event_time(m: &Vec<(String, JsonValue)>, observed: i64) -> (res: Result<i64, MarketDataError>)
    ensures
        match event_time_value(m@, observed) {
            Some(t) => res == Ok::<i64, MarketDataError>(t),
            None => res matches Err(MarketDataError::InvalidField(f)) && f@ == "t"@,
        },
{
    match get(m, "t") {
        None => Ok(observed),
        Some(JsonValue::String(s)) => match parse_rfc3339_nanos(s.as_str()) {
            Some(n) => {
                if -0x8000_0000_0000_0000i128 <= n && n <= 0x7fff_ffff_ffff_ffffi128 {
                    Ok(n as i64)
                } else {
                    Err(MarketDataError::InvalidField("t"))
                }
            },
            None => Err(MarketDataError::InvalidField("t")),
        },
        Some(_) => Err(MarketDataError::InvalidField("t")),
    }
}

fn parse_control(m: &Vec<(String, JsonValue)>, event_type: String) -> (res: Result<
    AlpacaMarketEvent,
    MarketDataError,
>)
    requires
        event_type@ == present_text(m@, "T"@)->0,
    ensures
        match optional_count_value(m@, "code"@) {
            None => res matches Err(MarketDataError::InvalidField(x)) && x@ == "code"@,
            Some(_) => res matches Ok(ev) && control_matches(m@, ev),
        },
{
    let code = read_optional_count(m, "code")?;
    let message = match get(m, "msg") {
        Some(JsonValue::String(s)) => Some(s.clone()),
        _ => None,
    };
    Ok(AlpacaMarketEvent::Control { event_type, code, message })
}

/// Parses one market event object into its event time and event.
pub fn parse_market_event(m: &Vec<(String, JsonValue)>, observed: i64) -> (res: Result<
    (i64, AlpacaMarketEvent),
    MarketDataError,
>)
    ensures
        match event_problem(m@, observed) {
            Some(f) => res matches Err(MarketDataError::InvalidField(x)) && x@ == f,
            None => if is_known_type(present_text(m@, "T"@)->0) {
                res matches Ok((t, ev)) && event_time_value(m@, observed) == Some(t)
                    && event_matches(m@, ev) && ev.spec_partition() == partition_of(m@)
            } else {
                res matches Err(MarketDataError::UnsupportedEvent(u)) && u@ == present_text(
                    m@,
                    "T"@,
                )->0
            },
        },
{
    proof {
        reveal_strlit("success");
        reveal_strlit("subscription");
        reveal_strlit("error");
        reveal_strlit("t");
        reveal_strlit("q");
        reveal_strlit("b");
        reveal_strlit("u");
        reveal_strlit("d");
        reveal_strlit("c");
        reveal_strlit("x");
        reveal_strlit("s");
    }
    let event_type = read_text(m, "T")?;
    let event_time = read_event_time(m, observed)?;
    let t = event_type.as_str();
    let event = if str_eq(t, "t") {
        parse_trade(m)?
    } else if str_eq(t, "q") {
        parse_quote(m)?
    } else if str_eq(t, "b") || str_eq(t, "u") || str_eq(t, "d") {
        parse_bar(m, t)?
    } else if str_eq(t, "c") {
        parse_correction(m)?
    } else if str_eq(t, "x") {
        parse_cancel(m)?
    } else if str_eq(t, "s") {
        parse_status(m)?
    } else if str_eq(t, "success") || str_eq(t, "subscription") || str_eq(t, "error") {
        parse_control(m, event_type)?
    } else {
        return Err(MarketDataError::UnsupportedEvent(event_type));
    };
    Ok((event_time, event))
}

// ---------------------------------------------------------------------------------------------
// Source records and checkpoints
// ---------------------------------------------------------------------------------------------

/// Where a record sits in its source: a partition and a sequence number in it.
#[derive(Debug, Clone, PartialEq, Eq)]
pub struct SourceOffset {
    pub partition: String,
    pub sequence: u64,
}

/// How a record was obtained: market data is observed live.
#[derive(Debug, Clone, Copy, PartialEq, Eq, Structural)]
pub enum SourcePhase {
    Live,
}

/// A sequenced market-data record.
#[derive(Debug, Clone, PartialEq, Eq)]
pub struct SourceEnvelope {
    pub source: String,
    pub offset: SourceOffset,
    pub event_time: i64,
    pub available_at: i64,
    pub observed_at: i64,
    pub phase: SourcePhase,
    pub payload: AlpacaMarketEvent,
}

/// How far a source has been read: the last sequence and the last observation time of each
/// partition. A partition's value is that of its first entry; a normalizer's checkpoints list
/// each partition once, in text order, so two of them are equal exactly when they hold the same
/// values.
#[derive(Debug, PartialEq, Eq)]
pub struct SourceCheckpoint {
    pub source: String,
    pub positions: Vec<(String, u64)>,
    pub available_at: Vec<(String, i64)>,
}

/// The value of the first entry with key `k`.
pub open spec fn lookup<V>(v: Seq<(String, V)>, k: Seq<char>) -> Option<V>
    decreases v.len(),
{
    if v.len() == 0 {
        None
    } else if v[0].0@ == k {
        Some(v[0].1)
    } else {
        lookup(v.drop_first(), k)
    }
}

proof fn lemma_lookup_first<V>(v: Seq<(String, V)>, k: Seq<char>, i: int)
    requires
        0 <= i <= v.len(),
        forall|j: int| 0 <= j < i ==> v[j].0@ != k,
        i < v.len() ==> v[i].0@ == k,
    ensures
        i < v.len() ==> lookup(v, k) == Some(v[i].1),
        i == v.len() ==> lookup(v, k) is None,
    decreases i,
{
    if i > 0 {
        lemma_lookup_first(v.drop_first(), k, i - 1);
    }
}

/// Two lists with the same keys, and the same values wherever the key is `k`, agree on `k`.
proof fn lemma_lookup_congruent<V>(v: Seq<(String, V)>, w: Seq<(String, V)>, k: Seq<char>)
    requires
        v.len() == w.len(),
        forall|j: int| 0 <= j < v.len() ==> (v[j].0@ == k) == (w[j].0@ == k),
        forall|j: int| 0 <= j < v.len() && v[j].0@ == k ==> v[j].1 == w[j].1,
    ensures
        lookup(v, k) == lookup(w, k),
    decreases v.len(),
{
    if v.len() > 0 {
        lemma_lookup_congruent(v.drop_first(), w.drop_first(), k);
    }
}

proof fn lemma_lookup_push<V>(v: Seq<(String, V)>, e: (String, V), k: Seq<char>)
    ensures
        lookup(v.push(e), k) == (if lookup(v, k) is Some {
            lookup(v, k)
        } else if e.0@ == k {
            Some(e.1)
        } else {
            None
        }),
    decreases v.len(),
{
    if v.len() > 0 {
        lemma_lookup_push(v.drop_first(), e, k);
        assert(v.push(e).drop_first() =~= v.drop_first().push(e));
    } else {
        assert(v.push(e).drop_first() =~= Seq::<(String, V)>::empty());
    }
}

/// The keys of a keyed list strictly increase in text order, so no key occurs twice.
pub open spec fn keys_sorted<V>(v: Seq<(String, V)>) -> bool {
    forall|i: int, j: int| 0 <= i < j < v.len() ==> text_lt(#[trigger] v[i].0@, #[trigger] v[j].0@)
}

/// A keyed list as keys (text) and values.
pub open spec fn entries_view<V>(v: Seq<(String, V)>) -> Seq<(Seq<char>, V)> {
    v.map_values(|e: (String, V)| (e.0@, e.1))
}

proof fn lemma_lookup_index<V>(v: Seq<(String, V)>, k: Seq<char>)
    ensures
        lookup(v, k) is None <==> forall|j: int| 0 <= j < v.len() ==> v[j].0@ != k,
        lookup(v, k) matches Some(x) ==> exists|j: int|
            0 <= j < v.len() && #[trigger] v[j].0@ == k && v[j].1 == x,
    decreases v.len(),
{
    if v.len() > 0 {
        lemma_lookup_index(v.drop_first(), k);
        if v[0].0@ != k {
            assert forall|j: int| 1 <= j < v.len() implies v[j].0@ == v.drop_first()[j - 1].0@ by {}
            if lookup(v, k) is Some {
                let j = choose|j: int|
                    0 <= j < v.drop_first().len() && #[trigger] v.drop_first()[j].0@ == k
                        && v.drop_first()[j].1 == lookup(v, k)->0;
                assert(v[j + 1] == v.drop_first()[j]);
            }
        }
    }
}

/// Two keyed lists, each with keys in text order, that give the same value for every key
/// hold the same entries in the same order.
pub proof fn law_sorted_entries_equal_by_content<V>(a: Seq<(String, V)>, b: Seq<(String, V)>)
    requires
        keys_sorted(a),
        keys_sorted(b),
        forall|k: Seq<char>| #[trigger] lookup(a, k) == lookup(b, k),
    ensures
        entries_view(a) == entries_view(b),
    decreases a.len() + b.len(),
{
    if a.len() == 0 || b.len() == 0 {
        if a.len() > 0 {
            lemma_lookup_index(b, a[0].0@);
            assert(lookup(a, a[0].0@) is Some);
        }
        if b.len() > 0 {
            lemma_lookup_index(a, b[0].0@);
            assert(lookup(b, b[0].0@) is Some);
        }
        assert(entries_view(a) =~= entries_view(b));
    } else {
        let ka = a[0].0@;
        let kb = b[0].0@;
        lemma_text_lt_total(ka, kb);
        assert(lookup(b, kb) is Some);
        lemma_lookup_index(a, kb);
        assert(lookup(a, ka) is Some);
        lemma_lookup_index(b, ka);
        if ka != kb {
            let i = choose|j: int| 0 <= j < a.len() && #[trigger] a[j].0@ == kb && a[j].1 == lookup(a, kb)->0;
            let j = choose|j: int| 0 <= j < b.len() && #[trigger] b[j].0@ == ka && b[j].1 == lookup(b, ka)->0;
            assert(i > 0);
            assert(j > 0);
            assert(text_lt(a[0].0@, a[i].0@));
            assert(text_lt(b[0].0@, b[j].0@));
            assert(false);
        }
        let ta = a.drop_first();
        let tb = b.drop_first();
        assert forall|i: int, j: int| 0 <= i < j < ta.len() implies text_lt(#[trigger] ta[i].0@, #[trigger] ta[j].0@) by {
            assert(ta[i] == a[i + 1] && ta[j] == a[j + 1]);
        }
        assert forall|i: int, j: int| 0 <= i < j < tb.len() implies text_lt(#[trigger] tb[i].0@, #[trigger] tb[j].0@) by {
            assert(tb[i] == b[i + 1] && tb[j] == b[j + 1]);
        }
        assert forall|k: Seq<char>| #[trigger] lookup(ta, k) == lookup(tb, k) by {
            if k == ka {
                assert forall|j: int| 0 <= j < ta.len() implies ta[j].0@ != k by {
                    assert(ta[j] == a[j + 1]);
                    assert(text_lt(a[0].0@, a[j + 1].0@));
                    lemma_text_lt_total(k, k);
                }
                assert forall|j: int| 0 <= j < tb.len() implies tb[j].0@ != k by {
                    assert(tb[j] == b[j + 1]);
                    assert(text_lt(b[0].0@, b[j + 1].0@));
                    lemma_text_lt_total(k, k);
                }
                lemma_lookup_index(ta, k);
                lemma_lookup_index(tb, k);
            } else {
                assert(lookup(a, k) == lookup(ta, k));
                assert(lookup(b, k) == lookup(tb, k));
            }
        }
        law_sorted_entries_equal_by_content(ta, tb);
        assert(lookup(a, ka) == Some(a[0].1));
        assert(lookup(b, ka) == Some(b[0].1));
        assert(entries_view(a) =~= seq![(ka, a[0].1)] + entries_view(ta));
        assert(entries_view(b) =~= seq![(kb, b[0].1)] + entries_view(tb));
    }
}

/// Inserting an entry whose key a list lacks changes the value of that key only.
proof fn lemma_lookup_insert<V>(v: Seq<(String, V)>, p: int, e: (String, V), k: Seq<char>)
    requires
        0 <= p <= v.len(),
        forall|j: int| 0 <= j < v.len() ==> v[j].0@ != e.0@,
    ensures
        lookup(v.insert(p, e), k) == if k == e.0@ {
            Some(e.1)
        } else {
            lookup(v, k)
        },
    decreases p,
{
    if p == 0 {
        assert(v.insert(0, e).drop_first() =~= v);
    } else {
        assert(v.insert(p, e).drop_first() =~= v.drop_first().insert(p - 1, e));
        assert(v.insert(p, e)[0] == v[0]);
        lemma_lookup_insert(v.drop_first(), p - 1, e, k);
    }
}

fn find_key<V>(v: &Vec<(String, V)>, k: &str) -> (res: Option<usize>)
    ensures
        match res {
            Some(i) => i < v@.len() && v@[i as int].0@ == k@ && forall|j: int|
                0 <= j < i ==> v@[j].0@ != k@,
            None => forall|j: int| 0 <= j < v@.len() ==> v@[j].0@ != k@,
        },
{
    let mut i: usize = 0;
    while i < v.len()
        invariant
            i <= v.len(),
            forall|j: int| 0 <= j < i ==> v@[j].0@ != k@,
        decreases v.len() - i,
    {
        if str_eq(v[i].0.as_str(), k) {
            return Some(i);
        }
        i = i + 1;
    }
    None
}

/// The value kept for `k`, if any.
fn lookup_value<V: Copy>(v: &Vec<(String, V)>, k: &str) -> (res: Option<V>)
    ensures
        res == lookup(v@, k@),
{
    match find_key(v, k) {
        Some(i) => {
            proof {
                lemma_lookup_first(v@, k@, i as int);
            }
            Some(v[i].1)
        },
        None => {
            proof {
                lemma_lookup_first(v@, k@, v@.len() as int);
            }
            None
        },
    }
}

/// Sets the value kept for `k`, leaving every other key as it was. A new key goes before the
/// first key that follows it in text order, so a list with keys in order stays in order.
fn assign<V: Copy>(v: &mut Vec<(String, V)>, k: &str, x: V)
    ensures
        forall|kk: Seq<char>| #[trigger]
            lookup(final(v)@, kk) == if kk == k@ {
                Some(x)
            } else {
                lookup(old(v)@, kk)
            },
        keys_sorted(old(v)@) ==> keys_sorted(final(v)@),
{
    match find_key(v, k) {
        Some(i) => {
            let key = v[i].0.clone();
            let ghost before = v@;
            v.set(i, (key, x));
            proof {
                lemma_lookup_first(v@, k@, i as int);
                assert forall|kk: Seq<char>| kk != k@ implies #[trigger] lookup(v@, kk) == lookup(
                    before,
                    kk,
                ) by {
                    lemma_lookup_congruent(v@, before, kk);
                }
                assert forall|a: int, b: int| 0 <= a < b < v@.len() && keys_sorted(before) implies text_lt(
                    #[trigger] v@[a].0@,
                    #[trigger] v@[b].0@,
                ) by {
                    assert(v@[a].0@ == before[a].0@ && v@[b].0@ == before[b].0@);
                }
            }
        },
        None => {
            let ghost before = v@;
            let mut p: usize = 0;
            while p < v.len() && !str_less(k, v[p].0.as_str())
                invariant
                    p <= v.len(),
                    v@ == before,
                    forall|j: int| 0 <= j < p ==> !text_lt(k@, #[trigger] v@[j].0@),
                decreases v.len() - p,
            {
                p = p + 1;
            }
            let entry = (k.to_owned(), x);
            let ghost e = entry;
            v.insert(p, entry);
            proof {
                assert(v@ == before.insert(p as int, e));
                assert forall|kk: Seq<char>| #[trigger] lookup(v@, kk) == if kk == k@ {
                    Some(x)
                } else {
                    lookup(before, kk)
                } by {
                    lemma_lookup_insert(before, p as int, e, kk);
                }
                if keys_sorted(before) {
                    assert forall|a: int, b: int| 0 <= a < b < v@.len() implies text_lt(
                        #[trigger] v@[a].0@,
                        #[trigger] v@[b].0@,
                    ) by {
                        let pp = p as int;
                        if b < pp {
                            assert(v@[a] == before[a] && v@[b] == before[b]);
                        } else if a > pp {
                            assert(v@[a] == before[a - 1] && v@[b] == before[b - 1]);
                        } else if a == pp {
                            assert(v@[b] == before[b - 1]);
                            if b - 1 == pp {
                                assert(text_lt(k@, before[pp].0@));
                            } else {
                                assert(text_lt(k@, before[pp].0@));
                                assert(text_lt(before[pp].0@, before[b - 1].0@));
                                lemma_text_lt_transitive(k@, before[pp].0@, before[b - 1].0@);
                            }
                        } else if b == pp {
                            assert(v@[a] == before[a]);
                            assert(!text_lt(k@, before[a].0@));
                            assert(before[a].0@ != k@);
                            lemma_text_lt_total(k@, before[a].0@);
                        } else {
                            assert(v@[a] == before[a] && v@[b] == before[b - 1]);
                        }
                    }
                }
            }
        },
    }
}

/// A copy of a keyed list.
fn copy_entries<V: Copy>(v: &Vec<(String, V)>) -> (res: Vec<(String, V)>)
    ensures
        res@ == v@,
{
    let mut out: Vec<(String, V)> = Vec::new();
    let mut i: usize = 0;
    while i < v.len()
        invariant
            i <= v.len(),
            out@ == v@.take(i as int),
        decreases v.len() - i,
    {
        out.push((v[i].0.clone(), v[i].1));
        i = i + 1;
        assert(out@ =~= v@.take(i as int));
    }
    assert(v@.take(v.len() as int) =~= v@);
    out
}

/// The entries of a keyed list with keys in text order; where a key occurs twice the first
/// entry counts, as `lookup` reads it.
fn ordered_entries<V: Copy>(v: &Vec<(String, V)>) -> (res: Vec<(String, V)>)
    ensures
        keys_sorted(res@),
        forall|k: Seq<char>| #[trigger] lookup(res@, k) == lookup(v@, k),
{
    let mut out: Vec<(String, V)> = Vec::new();
    let mut i: usize = 0;
    while i < v.len()
        invariant
            i <= v.len(),
            keys_sorted(out@),
            forall|k: Seq<char>| #[trigger] lookup(out@, k) == lookup(v@.take(i as int), k),
        decreases v.len() - i,
    {
        let ghost before = out@;
        let ghost e = v@[i as int];
        proof {
            assert(v@.take(i + 1) =~= v@.take(i as int).push(e));
            assert forall|k: Seq<char>| #[trigger] lookup(v@.take(i + 1), k) == (if lookup(
                v@.take(i as int),
                k,
            ) is Some {
                lookup(v@.take(i as int), k)
            } else if e.0@ == k {
                Some(e.1)
            } else {
                None
            }) by {
                lemma_lookup_push(v@.take(i as int), e, k);
            }
        }
        if lookup_value(&out, v[i].0.as_str()).is_none() {
            assign(&mut out, v[i].0.as_str(), v[i].1);
        }
        i = i + 1;
    }
    assert(v@.take(v.len() as int) =~= v@);
    out
}

// ---------------------------------------------------------------------------------------------
// Frames
// ---------------------------------------------------------------------------------------------

/// The messages of a frame: the elements of an array, or a single object.
pub open spec fn frame_messages(v: JsonValue) -> Option<Seq<JsonValue>> {
    match v {
        JsonValue::Array(a) => Some(a@),
        JsonValue::Object(_) => Some(seq![v]),
        _ => None,
    }
}

/// The partition of a message.
pub open spec fn message_partition(v: JsonValue) -> Seq<char> {
    match v {
        JsonValue::Object(m) => partition_of(m@),
        _ => Seq::empty(),
    }
}

pub open spec fn partitions(msgs: Seq<JsonValue>) -> Seq<Seq<char>> {
    msgs.map_values(|v: JsonValue| message_partition(v))
}

/// How many of the first `i` partitions are `p`.
pub open spec fn count_before(ps: Seq<Seq<char>>, i: int, p: Seq<char>) -> nat
    decreases i,
{
    if i <= 0 {
        0
    } else {
        count_before(ps, i - 1, p) + if ps[i - 1] == p {
            1nat
        } else {
            0nat
        }
    }
}

/// The sequence a checkpoint holds for a partition, zero when none.
pub open spec fn base_position(pos: Seq<(String, u64)>, p: Seq<char>) -> nat {
    match lookup(pos, p) {
        Some(n) => n as nat,
        None => 0,
    }
}

/// The sequence of the `i`-th event of a frame.
pub open spec fn sequence_at(ps: Seq<Seq<char>>, i: int, pos: Seq<(String, u64)>) -> nat {
    base_position(pos, ps[i]) + count_before(ps, i, ps[i]) + 1
}

/// The first event of a partition in a frame was observed before the checkpoint's last
/// observation of that partition.
pub open spec fn regresses(ps: Seq<Seq<char>>, i: int, avail: Seq<(String, i64)>, observed: i64) -> bool {
    &&& count_before(ps, i, ps[i]) == 0
    &&& lookup(avail, ps[i]) matches Some(prev)
    &&& observed < prev
}

/// The `i`-th message of a frame can be recorded.
pub open spec fn message_ok(
    msgs: Seq<JsonValue>,
    i: int,
    pos: Seq<(String, u64)>,
    avail: Seq<(String, i64)>,
    observed: i64,
) -> bool {
    &&& msgs[i] matches JsonValue::Object(m)
    &&& event_problem(m@, observed) is None
    &&& is_known_type(present_text(m@, "T"@)->0)
    &&& !regresses(partitions(msgs), i, avail, observed)
    &&& sequence_at(partitions(msgs), i, pos) <= u64::MAX
}

/// The error a frame is refused with at its first message that cannot be recorded.
pub open spec fn message_fault(
    e: MarketDataError,
    msgs: Seq<JsonValue>,
    i: int,
    pos: Seq<(String, u64)>,
    avail: Seq<(String, i64)>,
    observed: i64,
) -> bool {
    match msgs[i] {
        JsonValue::Object(m) => match event_problem(m@, observed) {
            Some(f) => e matches MarketDataError::InvalidField(x) && x@ == f,
            None => if !is_known_type(present_text(m@, "T"@)->0) {
                e matches MarketDataError::UnsupportedEvent(u) && u@ == present_text(m@, "T"@)->0
            } else if regresses(partitions(msgs), i, avail, observed) {
                e matches MarketDataError::ObservationTimeRegression(p) && p@ == partitions(
                    msgs,
                )[i]
            } else {
                e == MarketDataError::SequenceOverflow
            },
        },
        _ => e == MarketDataError::InvalidJson,
    }
}

/// The record of the `i`-th message of a frame.
pub open spec fn record_of(
    r: SourceEnvelope,
    msgs: Seq<JsonValue>,
    i: int,
    source: String,
    pos: Seq<(String, u64)>,
    observed: i64,
) -> bool {
    &&& msgs[i] matches JsonValue::Object(m)
    &&& r.source == source
    &&& r.offset.partition@ == partitions(msgs)[i]
    &&& r.offset.sequence == sequence_at(partitions(msgs), i, pos)
    &&& Some(r.event_time) == event_time_value(m@, observed)
    &&& event_matches(m@, r.payload)
    &&& r.available_at == observed
    &&& r.observed_at == observed
    &&& r.phase == SourcePhase::Live
}

/// The sequences after recording the first `n` partitions.
pub open spec fn positions_after(
    pos: Seq<(String, u64)>,
    ps: Seq<Seq<char>>,
    n: int,
    k: Seq<char>,
) -> Option<u64> {
    if count_before(ps, n, k) > 0 {
        Some((base_position(pos, k) + count_before(ps, n, k)) as u64)
    } else {
        lookup(pos, k)
    }
}

/// The observation times after recording the first `n` partitions.
pub open spec fn available_after(
    avail: Seq<(String, i64)>,
    ps: Seq<Seq<char>>,
    n: int,
    observed: i64,
    k: Seq<char>,
) -> Option<i64> {
    if count_before(ps, n, k) > 0 {
        Some(observed)
    } else {
        lookup(avail, k)
    }
}

/// The source of a feed: `alpaca-market-data:<feed>`.
pub open spec fn source_of(feed: Seq<char>) -> Seq<u8> {
    text_bytes("alpaca-market-data:"@) + text_bytes(feed)
}

fn source_name(feed: &str) -> (res: String)
    ensures
        text_bytes(res@) == source_of(feed@),
{
    let mut out: Vec<u8> = Vec::new();
    assert(out@ =~= vstd::utf8::encode_utf8(Seq::<char>::empty()));
    crate::text::push_str(&mut out, "alpaca-market-data:");
    crate::text::push_str(&mut out, feed);
    crate::text::utf8_string(out)
}

/// Normalizes Alpaca market-data frames into sequenced records for one feed.
pub struct AlpacaMarketNormalizer {
    source: String,
    checkpoint: SourceCheckpoint,
}

impl AlpacaMarketNormalizer {
    /// The checkpoint keeps each list's partitions in text order, one entry each.
    #[verifier::type_invariant]
    spec fn well_formed(self) -> bool {
        keys_sorted(self.checkpoint.positions@) && keys_sorted(self.checkpoint.available_at@)
    }

    pub closed spec fn source(&self) -> String {
        self.source
    }

    pub closed spec fn spec_checkpoint(&self) -> SourceCheckpoint {
        self.checkpoint
    }

    /// A normalizer with an empty checkpoint.
    pub fn new(feed: &str) -> (res: Self)
        ensures
            text_bytes(res.source()@) == source_of(feed@),
            res.spec_checkpoint().source == res.source(),
            res.spec_checkpoint().positions@.len() == 0,
            res.spec_checkpoint().available_at@.len() == 0,
    {
        let source = source_name(feed);
        let checkpoint = SourceCheckpoint {
            source: source.clone(),
            positions: Vec::new(),
            available_at: Vec::new(),
        };
        AlpacaMarketNormalizer { source, checkpoint }
    }

    /// A normalizer that continues from a checkpoint of the same feed. Its partitions are kept
    /// in text order; where the given lists name a partition twice, the first entry counts.
    pub fn resume(feed: &str, checkpoint: SourceCheckpoint) -> (res: Result<Self, MarketDataError>)
        ensures
            text_bytes(checkpoint.source@) != source_of(feed@) ==> res == Err::<
                Self,
                MarketDataError,
            >(MarketDataError::ForeignCheckpoint),
            text_bytes(checkpoint.source@) == source_of(feed@) ==> (res matches Ok(n)
                && n.spec_checkpoint().source == checkpoint.source && n.source()@
                == checkpoint.source@ && (forall|k: Seq<char>| #[trigger]
                lookup(n.spec_checkpoint().positions@, k) == lookup(checkpoint.positions@, k))
                && (forall|k: Seq<char>| #[trigger]
                lookup(n.spec_checkpoint().available_at@, k) == lookup(
                    checkpoint.available_at@,
                    k,
                ))),
    {
        let source = source_name(feed);
        if !str_eq(checkpoint.source.as_str(), source.as_str()) {
            proof {
                vstd::utf8::encode_utf8_decode_utf8(checkpoint.source@);
                vstd::utf8::encode_utf8_decode_utf8(source@);
            }
            return Err(MarketDataError::ForeignCheckpoint);
        }
        let positions = ordered_entries(&checkpoint.positions);
        let available_at = ordered_entries(&checkpoint.available_at);
        Ok(
            AlpacaMarketNormalizer {
                source,
                checkpoint: SourceCheckpoint { source: checkpoint.source, positions, available_at },
            },
        )
    }

    /// The current checkpoint.
    pub fn checkpoint(&self) -> (res: SourceCheckpoint)
        ensures
            res.source == self.spec_checkpoint().source,
            res.positions@ == self.spec_checkpoint().positions@,
            res.available_at@ == self.spec_checkpoint().available_at@,
            keys_sorted(res.positions@),
            keys_sorted(res.available_at@),
    {
        proof {
            use_type_invariant(self);
        }
        SourceCheckpoint {
            source: self.checkpoint.source.clone(),
            positions: copy_entries(&self.checkpoint.positions),
            available_at: copy_entries(&self.checkpoint.available_at),
        }
    }
}


/// What staging a frame's messages gives: records and checkpoint entries when every message
/// can be recorded, else the fault of the first one that cannot.
pub open spec fn staged(
    msgs: Seq<JsonValue>,
    source: String,
    pos: Seq<(String, u64)>,
    avail: Seq<(String, i64)>,
    observed: i64,
    res: Result<(Vec<SourceEnvelope>, Vec<(String, u64)>, Vec<(String, i64)>), MarketDataError>,
) -> bool {
    &&& res is Ok <==> forall|i: int|
        0 <= i < msgs.len() ==> #[trigger] message_ok(msgs, i, pos, avail, observed)
    &&& res matches Err(e) ==> exists|i: int|
        0 <= i < msgs.len() && (forall|j: int| 0 <= j < i ==> #[trigger] message_ok(msgs, j, pos, avail, observed))
            && !message_ok(msgs, i, pos, avail, observed) && #[trigger] message_fault(
            e,
            msgs,
            i,
            pos,
            avail,
            observed,
        )
    &&& res matches Ok((rs, new_pos, new_avail)) ==> {
        &&& rs@.len() == msgs.len()
        &&& forall|i: int|
            0 <= i < msgs.len() ==> record_of(#[trigger] rs@[i], msgs, i, source, pos, observed)
        &&& forall|k: Seq<char>| #[trigger]
            lookup(new_pos@, k) == positions_after(pos, partitions(msgs), msgs.len() as int, k)
        &&& forall|k: Seq<char>| #[trigger]
            lookup(new_avail@, k) == available_after(
                avail,
                partitions(msgs),
                msgs.len() as int,
                observed,
                k,
            )
    }
}

proof fn lemma_count_step(ps: Seq<Seq<char>>, i: int, k: Seq<char>)
    requires
        0 <= i,
    ensures
        count_before(ps, i + 1, k) == count_before(ps, i, k) + if ps[i] == k {
            1nat
        } else {
            0nat
        },
{
}

impl AlpacaMarketNormalizer {
    /// Stages every message of a frame on a copy of the checkpoint.
    fn stage(&self, msgs: &Vec<JsonValue>, observed: i64) -> (res: Result<
        (Vec<SourceEnvelope>, Vec<(String, u64)>, Vec<(String, i64)>),
        MarketDataError,
    >)
        ensures
            staged(
                msgs@,
                self.source(),
                self.spec_checkpoint().positions@,
                self.spec_checkpoint().available_at@,
                observed,
                res,
            ),
            res matches Ok((_, p, a)) ==> keys_sorted(p@) && keys_sorted(a@),
    {
        proof {
            use_type_invariant(self);
        }
        let ghost pos0 = self.checkpoint.positions@;
        let ghost avail0 = self.checkpoint.available_at@;
        let ghost ps = partitions(msgs@);
        let mut staged_pos = copy_entries(&self.checkpoint.positions);
        let mut staged_avail = copy_entries(&self.checkpoint.available_at);
        let mut records: Vec<SourceEnvelope> = Vec::new();
        let mut i: usize = 0;
        while i < msgs.len()
            invariant
                i <= msgs.len(),
                pos0 == self.checkpoint.positions@,
                avail0 == self.checkpoint.available_at@,
                ps == partitions(msgs@),
                keys_sorted(staged_pos@),
                keys_sorted(staged_avail@),
                records@.len() == i,
                forall|j: int| 0 <= j < i ==> #[trigger] message_ok(msgs@, j, pos0, avail0, observed),
                forall|j: int|
                    0 <= j < i ==> record_of(#[trigger] records@[j], msgs@, j, self.source, pos0, observed),
                forall|k: Seq<char>| #[trigger]
                    lookup(staged_pos@, k) == positions_after(pos0, ps, i as int, k),
                forall|k: Seq<char>| #[trigger]
                    lookup(staged_avail@, k) == available_after(avail0, ps, i as int, observed, k),
                forall|k: Seq<char>|
                    #[trigger] count_before(ps, i as int, k) > 0 ==> base_position(pos0, k) + count_before(
                        ps,
                        i as int,
                        k,
                    ) <= u64::MAX,
            decreases msgs.len() - i,
        {
            let m = match &msgs[i] {
                JsonValue::Object(m) => m,
                _ => {
                    assert(message_fault(MarketDataError::InvalidJson, msgs@, i as int, pos0, avail0, observed));
                    assert(!message_ok(msgs@, i as int, pos0, avail0, observed));
                    return Err(MarketDataError::InvalidJson);
                },
            };
            let (event_time, event) = match parse_market_event(m, observed) {
                Ok(x) => x,
                Err(e) => {
                    assert(message_fault(e, msgs@, i as int, pos0, avail0, observed));
                    assert(!message_ok(msgs@, i as int, pos0, avail0, observed));
                    return Err(e);
                },
            };
            let part = event.partition().to_owned();
            let ghost p = part@;
            assert(ps[i as int] == p);
            let previous = lookup_value(&staged_avail, part.as_str());
            match previous {
                Some(prev) => {
                    if observed < prev {
                        assert(count_before(ps, i as int, p) == 0);
                        assert(regresses(ps, i as int, avail0, observed));
                        assert(message_fault(
                            MarketDataError::ObservationTimeRegression(part),
                            msgs@,
                            i as int,
                            pos0,
                            avail0,
                            observed,
                        ));
                        assert(!message_ok(msgs@, i as int, pos0, avail0, observed));
                        return Err(MarketDataError::ObservationTimeRegression(part));
                    }
                },
                None => {},
            }
            assert(!regresses(ps, i as int, avail0, observed));
            let current = match lookup_value(&staged_pos, part.as_str()) {
                Some(n) => n,
                None => 0,
            };
            assert(current == base_position(pos0, p) + count_before(ps, i as int, p));
            let sequence = match current.checked_add(1) {
                Some(s) => s,
                None => {
                    assert(message_fault(MarketDataError::SequenceOverflow, msgs@, i as int, pos0, avail0, observed));
                    assert(!message_ok(msgs@, i as int, pos0, avail0, observed));
                    return Err(MarketDataError::SequenceOverflow);
                },
            };
            assert(message_ok(msgs@, i as int, pos0, avail0, observed));
            assign(&mut staged_pos, part.as_str(), sequence);
            assign(&mut staged_avail, part.as_str(), observed);
            proof {
                assert forall|k: Seq<char>| #[trigger]
                    lookup(staged_pos@, k) == positions_after(pos0, ps, i + 1, k) by {
                    lemma_count_step(ps, i as int, k);
                }
                assert forall|k: Seq<char>| #[trigger]
                    lookup(staged_avail@, k) == available_after(avail0, ps, i + 1, observed, k) by {
                    lemma_count_step(ps, i as int, k);
                }
                assert forall|k: Seq<char>|
                    #[trigger] count_before(ps, i + 1, k) > 0 implies base_position(pos0, k) + count_before(
                        ps,
                        i + 1,
                        k,
                    ) <= u64::MAX by {
                    lemma_count_step(ps, i as int, k);
                }
            }
            let record = SourceEnvelope {
                source: self.source.clone(),
                offset: SourceOffset { partition: part, sequence },
                event_time,
                available_at: observed,
                observed_at: observed,
                phase: SourcePhase::Live,
                payload: event,
            };
            records.push(record);
            i = i + 1;
        }
        Ok((records, staged_pos, staged_avail))
    }

    /// Turns a frame of market-data events into sequenced records. The frame is recorded
    /// whole or not at all: on any error the checkpoint is left as it was.
    pub fn normalize_frame(&mut self, frame: &[u8], observed_at_ns: i64) -> (res: Result<
        Vec<SourceEnvelope>,
        MarketDataError,
    >)
        ensures
            res is Err ==> *final(self) == *old(self),
            final(self).source() == old(self).source(),
            final(self).spec_checkpoint().source == old(self).spec_checkpoint().source,
            frame@.len() > MAX_FRAME_BYTES ==> res == Err::<Vec<SourceEnvelope>, MarketDataError>(
                MarketDataError::FrameTooLarge,
            ),
            frame@.len() <= MAX_FRAME_BYTES ==> match parsed_json(frame@) {
                None => res == Err::<Vec<SourceEnvelope>, MarketDataError>(
                    MarketDataError::InvalidJson,
                ),
                Some(v) => match frame_messages(v) {
                    None => res == Err::<Vec<SourceEnvelope>, MarketDataError>(
                        MarketDataError::InvalidJson,
                    ),
                    Some(msgs) => if msgs.len() > MAX_EVENTS_PER_FRAME {
                        res == Err::<Vec<SourceEnvelope>, MarketDataError>(
                            MarketDataError::TooManyEvents,
                        )
                    } else {
                        exists|st: Result<
                            (Vec<SourceEnvelope>, Vec<(String, u64)>, Vec<(String, i64)>),
                            MarketDataError,
                        >|
                            #[trigger] staged(
                                msgs,
                                old(self).source(),
                                old(self).spec_checkpoint().positions@,
                                old(self).spec_checkpoint().available_at@,
                                observed_at_ns,
                                st,
                            ) && match st {
                                Ok((rs, new_pos, new_avail)) => res == Ok::<
                                    Vec<SourceEnvelope>,
                                    MarketDataError,
                                >(rs) && final(self).spec_checkpoint().positions == new_pos
                                    && final(self).spec_checkpoint().available_at == new_avail,
                                Err(e) => res == Err::<Vec<SourceEnvelope>, MarketDataError>(e),
                            }
                    },
                },
            },
    {
        if frame.len() > MAX_FRAME_BYTES {
            return Err(MarketDataError::FrameTooLarge);
        }
        let parsed = match parse_json(frame) {
            Some(v) => v,
            None => {
                return Err(MarketDataError::InvalidJson);
            },
        };
        let msgs: Vec<JsonValue> = match parsed {
            JsonValue::Array(a) => a,
            JsonValue::Object(m) => {
                let mut single: Vec<JsonValue> = Vec::new();
                single.push(JsonValue::Object(m));
                single
            },
            _ => {
                return Err(MarketDataError::InvalidJson);
            },
        };
        if msgs.len() > MAX_EVENTS_PER_FRAME {
            return Err(MarketDataError::TooManyEvents);
        }
        proof {
            use_type_invariant(&*self);
        }
        let st = self.stage(&msgs, observed_at_ns);
        let ghost g = st;
        match st {
            Ok((records, positions, available_at)) => {
                self.checkpoint.positions = positions;
                self.checkpoint.available_at = available_at;
                Ok(records)
            },
            Err(e) => Err(e),
        }
    }
}


// ---------------------------------------------------------------------------------------------
// Trading-stream frames
// ---------------------------------------------------------------------------------------------

/// An order update from the trading stream, with exact decimals.
#[derive(Debug, Clone, PartialEq, Eq)]
pub struct AlpacaTradeUpdate {
    pub event: String,
    pub execution_id: Option<String>,
    pub timestamp: String,
    pub order_id: String,
    pub client_order_id: String,
    pub symbol: String,
    pub side: String,
    pub status: String,
    pub quantity: BrokerDecimal,
    pub filled_quantity: BrokerDecimal,
    pub filled_average_price: Option<BrokerDecimal>,
    pub execution_price: Option<BrokerDecimal>,
    pub execution_quantity: Option<BrokerDecimal>,
}

#[derive(Debug, Clone, PartialEq, Eq)]
pub enum AlpacaTradingFrame {
    Authorization { status: String },
    Listening { streams: Vec<String> },
    TradeUpdate { update: Box<AlpacaTradeUpdate> },
}

#[derive(Debug, Clone, PartialEq, Eq)]
pub enum TradingFrameError {
    /// The frame exceeded the byte limit.
    FrameTooLarge,
    /// The frame was invalid.
    InvalidFrame,
    /// The frame came from a stream that is not supported.
    UnsupportedStream(String),
}

impl TradingFrameError {
    /// The error's message, as the error is displayed.
    pub fn message(&self) -> (res: String)
        ensures
            *self is FrameTooLarge ==> res@ == "Alpaca trading frame exceeded the configured byte limit"@,
            *self is InvalidFrame ==> res@ == "Alpaca trading frame was invalid"@,
            *self matches TradingFrameError::UnsupportedStream(s) ==> res@
                == "Alpaca trading frame used an unsupported stream "@ + s@,
    {
        match self {
            TradingFrameError::FrameTooLarge => "Alpaca trading frame exceeded the configured byte limit".to_owned(),
            TradingFrameError::InvalidFrame => "Alpaca trading frame was invalid".to_owned(),
            TradingFrameError::UnsupportedStream(s) => "Alpaca trading frame used an unsupported stream ".to_owned()
                .concat(s.as_str()),
        }
    }
}

/// An optional decimal of a trade update: absent or `null` is `Some(None)`; a string or a
/// number must be a decimal.
pub open spec fn update_decimal(v: Option<JsonValue>) -> Option<Option<Seq<u8>>> {
    match v {
        None => Some(None),
        Some(JsonValue::Null) => Some(None),
        Some(x) => match item_text(x) {
            Some(t) => if decimal_syntax(text_bytes(t)) {
                Some(Some(canonical_decimal(text_bytes(t))))
            } else {
                None
            },
            None => None,
        },
    }
}

/// The `order` object of a trade update.
pub open spec fn update_order(data: Seq<(String, JsonValue)>) -> Option<Seq<(String, JsonValue)>> {
    match json_get(data, "order"@) {
        Some(JsonValue::Object(o)) => Some(o@),
        _ => None,
    }
}

/// Every member a trade update needs is present and valid.
pub open spec fn update_valid(data: Seq<(String, JsonValue)>) -> bool {
    &&& update_order(data) matches Some(o)
    &&& present_text(data, "event"@) is Some
    &&& present_text(data, "timestamp"@) is Some
    &&& present_text(o, "id"@) is Some
    &&& present_text(o, "client_order_id"@) is Some
    &&& present_text(o, "symbol"@) is Some
    &&& present_text(o, "side"@) is Some
    &&& present_text(o, "status"@) is Some
    &&& update_decimal(json_get(o, "qty"@)) matches Some(Some(_))
    &&& update_decimal(json_get(o, "filled_qty"@)) matches Some(Some(_))
    &&& update_decimal(json_get(o, "filled_avg_price"@)) is Some
    &&& update_decimal(json_get(data, "price"@)) is Some
    &&& update_decimal(json_get(data, "qty"@)) is Some
}

/// The trade update a valid `data` object describes.
pub open spec fn update_matches(data: Seq<(String, JsonValue)>, u: AlpacaTradeUpdate) -> bool {
    let o = update_order(data)->0;
    &&& u.event@ == present_text(data, "event"@)->0
    &&& string_option_view(u.execution_id) == message_text_of(data, "execution_id"@)
    &&& u.timestamp@ == present_text(data, "timestamp"@)->0
    &&& u.order_id@ == present_text(o, "id"@)->0
    &&& u.client_order_id@ == present_text(o, "client_order_id"@)->0
    &&& u.symbol@ == present_text(o, "symbol"@)->0
    &&& u.side@ == present_text(o, "side"@)->0
    &&& u.status@ == present_text(o, "status"@)->0
    &&& Some(Some(u.quantity@)) == update_decimal(json_get(o, "qty"@))
    &&& Some(Some(u.filled_quantity@)) == update_decimal(json_get(o, "filled_qty"@))
    &&& Some(decimal_option_view(u.filled_average_price)) == update_decimal(
        json_get(o, "filled_avg_price"@),
    )
    &&& Some(decimal_option_view(u.execution_price)) == update_decimal(json_get(data, "price"@))
    &&& Some(decimal_option_view(u.execution_quantity)) == update_decimal(json_get(data, "qty"@))
}

/// A string member, empty or not.
pub open spec fn message_text_of(m: Seq<(String, JsonValue)>, k: Seq<char>) -> Option<Seq<char>> {
    match json_get(m, k) {
        Some(JsonValue::String(s)) => Some(s@),
        _ => None,
    }
}

fn read_update_decimal(v: Option<&JsonValue>) -> (res: Result<Option<BrokerDecimal>, TradingFrameError>)
    ensures
        match update_decimal(
            match v {
                Some(x) => Some(*x),
                None => None,
            },
        ) {
            Some(d) => res matches Ok(x) && decimal_option_view(x) == d,
            None => res == Err::<Option<BrokerDecimal>, TradingFrameError>(
                TradingFrameError::InvalidFrame,
            ),
        },
{
    let text = match v {
        None => {
            return Ok(None);
        },
        Some(JsonValue::Null) => {
            return Ok(None);
        },
        Some(JsonValue::String(s)) => s.as_str(),
        Some(JsonValue::Number(n)) => n.text.as_str(),
        Some(_) => {
            return Err(TradingFrameError::InvalidFrame);
        },
    };
    match BrokerDecimal::try_new(text) {
        Ok(d) => Ok(Some(d)),
        Err(_) => Err(TradingFrameError::InvalidFrame),
    }
}

fn required_decimal(v: Option<&JsonValue>) -> (res: Result<BrokerDecimal, TradingFrameError>)
    ensures
        match update_decimal(
            match v {
                Some(x) => Some(*x),
                None => None,
            },
        ) {
            Some(Some(d)) => res matches Ok(x) && x@ == d,
            _ => res == Err::<BrokerDecimal, TradingFrameError>(TradingFrameError::InvalidFrame),
        },
{
    match read_update_decimal(v)? {
        Some(d) => Ok(d),
        None => Err(TradingFrameError::InvalidFrame),
    }
}

fn required_text(m: &Vec<(String, JsonValue)>, k: &str) -> (res: Result<String, TradingFrameError>)
    ensures
        match present_text(m@, k@) {
            Some(t) => res matches Ok(s) && s@ == t,
            None => res == Err::<String, TradingFrameError>(TradingFrameError::InvalidFrame),
        },
{
    match get(m, k) {
        Some(JsonValue::String(s)) => {
            if !s.as_str().is_empty() {
                Ok(s.clone())
            } else {
                Err(TradingFrameError::InvalidFrame)
            }
        },
        _ => Err(TradingFrameError::InvalidFrame),
    }
}

/// Reads a trade update from the `data` object of a `trade_updates` frame.
pub fn parse_trade_update(data: &Vec<(String, JsonValue)>) -> (res: Result<
    AlpacaTradeUpdate,
    TradingFrameError,
>)
    ensures
        update_valid(data@) ==> (res matches Ok(u) && update_matches(data@, u)),
        !update_valid(data@) ==> res == Err::<AlpacaTradeUpdate, TradingFrameError>(
            TradingFrameError::InvalidFrame,
        ),
{
    let order = match get(data, "order") {
        Some(JsonValue::Object(o)) => o,
        _ => {
            return Err(TradingFrameError::InvalidFrame);
        },
    };
    let event = required_text(data, "event")?;
    let execution_id = match get(data, "execution_id") {
        Some(JsonValue::String(s)) => Some(s.clone()),
        _ => None,
    };
    let timestamp = required_text(data, "timestamp")?;
    let order_id = required_text(order, "id")?;
    let client_order_id = required_text(order, "client_order_id")?;
    let symbol = required_text(order, "symbol")?;
    let side = required_text(order, "side")?;
    let status = required_text(order, "status")?;
    let quantity = required_decimal(get(order, "qty"))?;
    let filled_quantity = required_decimal(get(order, "filled_qty"))?;
    let filled_average_price = read_update_decimal(get(order, "filled_avg_price"))?;
    let execution_price = read_update_decimal(get(data, "price"))?;
    let execution_quantity = read_update_decimal(get(data, "qty"))?;
    Ok(
        AlpacaTradeUpdate {
            event,
            execution_id,
            timestamp,
            order_id,
            client_order_id,
            symbol,
            side,
            status,
            quantity,
            filled_quantity,
            filled_average_price,
            execution_price,
            execution_quantity,
        },
    )
}

/// The stream name and `data` object of a trading frame.
pub open spec fn trading_frame_parts(v: JsonValue) -> Option<(Seq<char>, Seq<(String, JsonValue)>)> {
    match v {
        JsonValue::Object(m) => match (json_get(m@, "stream"@), json_get(m@, "data"@)) {
            (Some(JsonValue::String(s)), Some(JsonValue::Object(d))) => Some((s@, d@)),
            _ => None,
        },
        _ => None,
    }
}

/// Every item of a list is a string.
pub open spec fn stream_names(v: Option<JsonValue>) -> Option<Seq<Seq<char>>> {
    match v {
        Some(JsonValue::Array(a)) => if forall|i: int|
            0 <= i < a@.len() ==> (#[trigger] a@[i]) is String {
            Some(Seq::new(a@.len(), |i: int| a@[i]->String_0@))
        } else {
            None
        },
        _ => None,
    }
}

/// What a trading frame holds, for a frame that names a stream and carries a `data` object.
pub open spec fn trading_frame_outcome(
    stream: Seq<char>,
    data: Seq<(String, JsonValue)>,
    res: Result<AlpacaTradingFrame, TradingFrameError>,
) -> bool {
    if stream == "authorization"@ {
        match message_text_of(data, "status"@) {
            Some(st) => res matches Ok(AlpacaTradingFrame::Authorization { status }) && status@ == st,
            None => res == Err::<AlpacaTradingFrame, TradingFrameError>(
                TradingFrameError::InvalidFrame,
            ),
        }
    } else if stream == "listening"@ {
        match stream_names(json_get(data, "streams"@)) {
            Some(names) => res matches Ok(AlpacaTradingFrame::Listening { streams }) && texts_view(
                streams@,
            ) == names,
            None => res == Err::<AlpacaTradingFrame, TradingFrameError>(
                TradingFrameError::InvalidFrame,
            ),
        }
    } else if stream == "trade_updates"@ {
        if update_valid(data) {
            res matches Ok(AlpacaTradingFrame::TradeUpdate { update }) && update_matches(data, *update)
        } else {
            res == Err::<AlpacaTradingFrame, TradingFrameError>(TradingFrameError::InvalidFrame)
        }
    } else {
        res matches Err(TradingFrameError::UnsupportedStream(s)) && s@ == stream
    }
}

fn read_stream_names(v: Option<&JsonValue>) -> (res: Result<Vec<String>, TradingFrameError>)
    ensures
        match stream_names(
            match v {
                Some(x) => Some(*x),
                None => None,
            },
        ) {
            Some(names) => res matches Ok(s) && texts_view(s@) == names,
            None => res == Err::<Vec<String>, TradingFrameError>(TradingFrameError::InvalidFrame),
        },
{
    let a = match v {
        Some(JsonValue::Array(a)) => a,
        _ => {
            return Err(TradingFrameError::InvalidFrame);
        },
    };
    let mut out: Vec<String> = Vec::new();
    let mut i: usize = 0;
    while i < a.len()
        invariant
            i <= a.len(),
            v == Some(&JsonValue::Array(*a)),
            out@.len() == i,
            forall|j: int| 0 <= j < i ==> (#[trigger] a@[j]) is String,
            forall|j: int| 0 <= j < i ==> (#[trigger] out@[j])@ == a@[j]->String_0@,
        decreases a.len() - i,
    {
        match &a[i] {
            JsonValue::String(s) => out.push(s.clone()),
            _ => {
                return Err(TradingFrameError::InvalidFrame);
            },
        }
        i = i + 1;
    }
    assert(texts_view(out@) =~= Seq::new(a@.len(), |i: int| a@[i]->String_0@));
    Ok(out)
}

/// Parses one frame of the trading stream.
pub fn parse_trading_frame(frame: &[u8]) -> (res: Result<AlpacaTradingFrame, TradingFrameError>)
    ensures
        frame@.len() > MAX_FRAME_BYTES ==> res == Err::<AlpacaTradingFrame, TradingFrameError>(
            TradingFrameError::FrameTooLarge,
        ),
        frame@.len() <= MAX_FRAME_BYTES ==> match parsed_json(frame@) {
            None => res == Err::<AlpacaTradingFrame, TradingFrameError>(
                TradingFrameError::InvalidFrame,
            ),
            Some(v) => match trading_frame_parts(v) {
                None => res == Err::<AlpacaTradingFrame, TradingFrameError>(
                    TradingFrameError::InvalidFrame,
                ),
                Some((stream, data)) => trading_frame_outcome(stream, data, res),
            },
        },
{
    proof {
        reveal_strlit("authorization");
        reveal_strlit("listening");
        reveal_strlit("trade_updates");
    }
    if frame.len() > MAX_FRAME_BYTES {
        return Err(TradingFrameError::FrameTooLarge);
    }
    let value = match parse_json(frame) {
        Some(v) => v,
        None => {
            return Err(TradingFrameError::InvalidFrame);
        },
    };
    let object = match &value {
        JsonValue::Object(m) => m,
        _ => {
            return Err(TradingFrameError::InvalidFrame);
        },
    };
    let stream = match get(object, "stream") {
        Some(JsonValue::String(s)) => s.as_str(),
        _ => {
            return Err(TradingFrameError::InvalidFrame);
        },
    };
    let data = match get(object, "data") {
        Some(JsonValue::Object(d)) => d,
        _ => {
            return Err(TradingFrameError::InvalidFrame);
        },
    };
    if str_eq(stream, "authorization") {
        match get(data, "status") {
            Some(JsonValue::String(s)) => Ok(AlpacaTradingFrame::Authorization { status: s.clone() }),
            _ => Err(TradingFrameError::InvalidFrame),
        }
    } else if str_eq(stream, "listening") {
        let streams = read_stream_names(get(data, "streams"))?;
        Ok(AlpacaTradingFrame::Listening { streams })
    } else if str_eq(stream, "trade_updates") {
        let update = parse_trade_update(data)?;
        Ok(AlpacaTradingFrame::TradeUpdate { update: Box::new(update) })
    } else {
        Err(TradingFrameError::UnsupportedStream(stream.to_owned()))
    }
}


// ---------------------------------------------------------------------------------------------
// Laws of sequencing
// ---------------------------------------------------------------------------------------------

proof fn lemma_count_monotone(ps: Seq<Seq<char>>, i: int, j: int, p: Seq<char>)
    requires
        0 <= i <= j <= ps.len(),
    ensures
        count_before(ps, i, p) <= count_before(ps, j, p),
        i < j && ps[i] == p ==> count_before(ps, i, p) < count_before(ps, j, p),
    decreases j - i,
{
    if i < j {
        lemma_count_monotone(ps, i, j - 1, p);
        lemma_count_step(ps, j - 1, p);
        if ps[i] == p && i == j - 1 {
        }
    }
}

/// Within a frame, the records of one partition carry strictly increasing sequences.
pub proof fn law_sequences_increase_within_partition(
    ps: Seq<Seq<char>>,
    pos: Seq<(String, u64)>,
    i: int,
    j: int,
)
    requires
        0 <= i < j < ps.len(),
        ps[i] == ps[j],
    ensures
        sequence_at(ps, i, pos) < sequence_at(ps, j, pos),
{
    lemma_count_monotone(ps, i, j, ps[i]);
}

/// The first record of a partition in a frame continues the checkpoint: its sequence is one
/// more than the sequence the checkpoint holds for that partition (or 1 for a new partition).
pub proof fn law_first_record_continues_checkpoint(
    ps: Seq<Seq<char>>,
    pos: Seq<(String, u64)>,
    i: int,
)
    requires
        0 <= i < ps.len(),
        forall|j: int| 0 <= j < i ==> ps[j] != ps[i],
    ensures
        sequence_at(ps, i, pos) == base_position(pos, ps[i]) + 1,
    decreases i,
{
    assert(count_before(ps, i, ps[i]) == 0) by {
        lemma_no_occurrence(ps, i, ps[i]);
    }
}

proof fn lemma_no_occurrence(ps: Seq<Seq<char>>, i: int, p: Seq<char>)
    requires
        0 <= i <= ps.len(),
        forall|j: int| 0 <= j < i ==> ps[j] != p,
    ensures
        count_before(ps, i, p) == 0,
    decreases i,
{
    if i > 0 {
        lemma_no_occurrence(ps, i - 1, p);
    }
}

/// After a frame, the checkpoint holds, for each partition the frame touched, the sequence of
/// that partition's last record: a resumed normalizer continues exactly where the frame ended.
pub proof fn law_checkpoint_holds_last_sequence(
    ps: Seq<Seq<char>>,
    pos: Seq<(String, u64)>,
    i: int,
)
    requires
        0 <= i < ps.len(),
        forall|j: int| i < j < ps.len() ==> ps[j] != ps[i],
        sequence_at(ps, i, pos) <= u64::MAX,
    ensures
        positions_after(pos, ps, ps.len() as int, ps[i]) == Some(sequence_at(ps, i, pos) as u64),
{
    lemma_count_step(ps, i, ps[i]);
    lemma_count_tail(ps, i + 1, ps[i]);
}

proof fn lemma_count_tail(ps: Seq<Seq<char>>, i: int, p: Seq<char>)
    requires
        0 <= i <= ps.len(),
        forall|j: int| i <= j < ps.len() ==> ps[j] != p,
    ensures
        count_before(ps, ps.len() as int, p) == count_before(ps, i, p),
    decreases ps.len() - i,
{
    if i < ps.len() {
        lemma_count_step(ps, i, p);
        lemma_count_tail(ps, i + 1, p);
    }
}


/// A bar is normalized with the interval its event type names: `b` is a minute bar, `u` an
/// updated minute bar, `d` a daily bar; its prices and volume come from `o`, `h`, `l`, `c` and
/// `v` in that order.
pub proof fn law_bar_interval_and_prices(m: Seq<(String, JsonValue)>, ev: AlpacaMarketEvent)
    requires
        event_matches(m, ev),
        is_bar_type(present_text(m, "T"@)->0),
    ensures
        ev is Bar,
        present_text(m, "T"@)->0 == "b"@ ==> ev->Bar_interval@ == "minute"@,
        present_text(m, "T"@)->0 == "u"@ ==> ev->Bar_interval@ == "updated_minute"@,
        present_text(m, "T"@)->0 == "d"@ ==> ev->Bar_interval@ == "daily"@,
        ev->Bar_interval@ == "minute"@ <==> present_text(m, "T"@)->0 == "b"@,
        ev->Bar_interval@ == "updated_minute"@ <==> present_text(m, "T"@)->0 == "u"@,
        ev->Bar_open@ == decimal_value(m, "o"@)->0 && ev->Bar_high@ == decimal_value(m, "h"@)->0
            && ev->Bar_low@ == decimal_value(m, "l"@)->0 && ev->Bar_close@ == decimal_value(
            m,
            "c"@,
        )->0 && ev->Bar_volume@ == decimal_value(m, "v"@)->0,
{
    reveal_strlit("b");
    reveal_strlit("u");
    reveal_strlit("d");
    reveal_strlit("t");
    reveal_strlit("q");
    reveal_strlit("minute");
    reveal_strlit("updated_minute");
    reveal_strlit("daily");
    assert("minute"@.len() == 6 && "updated_minute"@.len() == 14 && "daily"@.len() == 5);
    assert("b"@[0] != "u"@[0] && "b"@[0] != "d"@[0] && "u"@[0] != "d"@[0]);
    assert("t"@[0] != "b"@[0] && "t"@[0] != "u"@[0] && "t"@[0] != "d"@[0]);
    assert("q"@[0] != "b"@[0] && "q"@[0] != "u"@[0] && "q"@[0] != "d"@[0]);
}

/// A quote keeps its two sides apart: the bid comes from `bx`, `bp`, `bs` and the ask from
/// `ax`, `ap`, `as`; a trade's price is `p` and its size `s`.
pub proof fn law_quote_and_trade_fields(m: Seq<(String, JsonValue)>, ev: AlpacaMarketEvent)
    requires
        event_matches(m, ev),
    ensures
        present_text(m, "T"@)->0 == "q"@ ==> ev is Quote && ev->Quote_bid_exchange@ == scalar_text(
            m,
            "bx"@,
        )->0 && ev->Quote_bid_price@ == decimal_value(m, "bp"@)->0 && ev->Quote_bid_size@
            == decimal_value(m, "bs"@)->0 && ev->Quote_ask_exchange@ == scalar_text(m, "ax"@)->0
            && ev->Quote_ask_price@ == decimal_value(m, "ap"@)->0 && ev->Quote_ask_size@
            == decimal_value(m, "as"@)->0,
        present_text(m, "T"@)->0 == "t"@ ==> ev is Trade && ev->Trade_price@ == decimal_value(
            m,
            "p"@,
        )->0 && ev->Trade_size@ == decimal_value(m, "s"@)->0 && ev->Trade_trade_id@ == scalar_text(
            m,
            "i"@,
        )->0,
{
    reveal_strlit("t");
    reveal_strlit("q");
    assert("t"@[0] != "q"@[0]);
}

} // verus!
