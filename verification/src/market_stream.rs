//! Alpaca WebSocket streams: the market-data subscription, its symbol rules and URL, the
//! control messages sent on connection, and the handling of each received frame.
//!
//! The sockets themselves live with the caller; this module decides what is sent and what a
//! received message means.

use vstd::prelude::*;
use vstd::string::StringSliceAdditionalSpecFns;
use vstd::utf8::*;
use crate::alpaca::{is_symbol_byte, valid_symbol, valid_symbol_bytes, AlpacaCredentials, ALPACA_MARKET_DATA_STREAM_ORIGIN};
use crate::json::JsonValue;
use crate::text::{push_str, text_bytes, utf8_string};

verus! {

broadcast use {vstd::seq_lib::group_seq_properties, vstd::utf8::group_utf8_lib};

/// At most this many symbols in one subscription list.
pub const MAX_STREAM_SYMBOLS: usize = 1000;

#[derive(Debug, Clone, Copy, PartialEq, Eq, Structural)]
pub enum AlpacaStockFeed {
    Iex,
    Sip,
    DelayedSip,
}

impl AlpacaStockFeed {
    pub open spec fn name(self) -> Seq<char> {
        match self {
            AlpacaStockFeed::Iex => "iex"@,
            AlpacaStockFeed::Sip => "sip"@,
            AlpacaStockFeed::DelayedSip => "delayed_sip"@,
        }
    }

    pub fn as_str(self) -> (res: &'static str)
        ensures
            res@ == self.name(),
    {
        match self {
            AlpacaStockFeed::Iex => "iex",
            AlpacaStockFeed::Sip => "sip",
            AlpacaStockFeed::DelayedSip => "delayed_sip",
        }
    }
}

#[derive(Debug, Clone, Copy, PartialEq, Eq, Structural)]
pub enum StreamError {
    /// The subscription lists are all empty.
    EmptySubscription,
    /// A list holds an invalid symbol or too many symbols.
    InvalidSymbol,
    /// The WebSocket connection failed.
    Connect,
    /// Sending authentication or the subscription failed.
    Send,
    /// Receiving failed.
    Receive,
    /// The WebSocket closed.
    Closed,
    /// A control message could not be serialized.
    Serialization,
}

impl StreamError {
    /// The error's message, as the error is displayed.
    pub fn message(&self) -> (res: String)
        ensures
            *self is EmptySubscription ==> res@ == "Alpaca stream subscription must not be empty"@,
            *self is InvalidSymbol ==> res@ == "Alpaca stream contains an invalid symbol or too many symbols"@,
            *self is Connect ==> res@ == "Alpaca WebSocket connection failed"@,
            *self is Send ==> res@ == "Alpaca WebSocket authentication or subscription send failed"@,
            *self is Receive ==> res@ == "Alpaca WebSocket receive failed"@,
            *self is Closed ==> res@ == "Alpaca WebSocket closed"@,
            *self is Serialization ==> res@ == "Alpaca WebSocket control serialization failed"@,
    {
        match self {
            StreamError::EmptySubscription => "Alpaca stream subscription must not be empty".to_owned(),
            StreamError::InvalidSymbol => "Alpaca stream contains an invalid symbol or too many symbols".to_owned(),
            StreamError::Connect => "Alpaca WebSocket connection failed".to_owned(),
            StreamError::Send => "Alpaca WebSocket authentication or subscription send failed".to_owned(),
            StreamError::Receive => "Alpaca WebSocket receive failed".to_owned(),
            StreamError::Closed => "Alpaca WebSocket closed".to_owned(),
            StreamError::Serialization => "Alpaca WebSocket control serialization failed".to_owned(),
        }
    }
}

/// A market-data subscription.
#[derive(Debug, Clone, PartialEq, Eq)]
pub struct MarketStreamConfig {
    pub feed: AlpacaStockFeed,
    pub trades: Vec<String>,
    pub quotes: Vec<String>,
    pub bars: Vec<String>,
    pub updated_bars: Vec<String>,
    pub statuses: Vec<String>,
}

/// A subscription list: at most 1000 symbols, each a canonical uppercase symbol.
pub open spec fn valid_symbol_list(symbols: Seq<String>) -> bool {
    &&& symbols.len() <= MAX_STREAM_SYMBOLS
    &&& forall|i: int|
        0 <= i < symbols.len() ==> valid_symbol_bytes(text_bytes(#[trigger] symbols[i]@))
}

pub fn validate_symbols(symbols: &[String]) -> (res: Result<(), StreamError>)
    ensures
        res is Ok <==> valid_symbol_list(symbols@),
        res is Err ==> res == Err::<(), StreamError>(StreamError::InvalidSymbol),
{
    if symbols.len() > MAX_STREAM_SYMBOLS {
        return Err(StreamError::InvalidSymbol);
    }
    let mut i: usize = 0;
    while i < symbols.len()
        invariant
            i <= symbols.len() <= MAX_STREAM_SYMBOLS,
            forall|j: int| 0 <= j < i ==> valid_symbol_bytes(text_bytes(#[trigger] symbols@[j]@)),
        decreases symbols.len() - i,
    {
        if !valid_symbol(symbols[i].as_str()) {
            return Err(StreamError::InvalidSymbol);
        }
        i = i + 1;
    }
    Ok(())
}

/// The market-data URL of a feed.
pub open spec fn stream_url(feed: AlpacaStockFeed) -> Seq<u8> {
    text_bytes(ALPACA_MARKET_DATA_STREAM_ORIGIN@) + text_bytes("/v2/"@) + text_bytes(feed.name())
}

impl MarketStreamConfig {
    /// The same symbols for every stock stream.
    pub fn stocks(feed: AlpacaStockFeed, symbols: Vec<String>) -> (res: Result<Self, StreamError>)
        ensures
            valid_symbol_list(symbols@) ==> (res matches Ok(c) && c.feed == feed && c.trades@
                == symbols@ && c.quotes@ == symbols@ && c.bars@ == symbols@ && c.updated_bars@
                == symbols@ && c.statuses@ == symbols@),
            !valid_symbol_list(symbols@) ==> res == Err::<Self, StreamError>(
                StreamError::InvalidSymbol,
            ),
    {
        validate_symbols(symbols.as_slice())?;
        let trades = symbols.clone();
        let quotes = symbols.clone();
        let bars = symbols.clone();
        let updated_bars = symbols.clone();
        assert(trades@ =~= symbols@);
        assert(quotes@ =~= symbols@);
        assert(bars@ =~= symbols@);
        assert(updated_bars@ =~= symbols@);
        Ok(MarketStreamConfig { feed, trades, quotes, bars, updated_bars, statuses: symbols })
    }

    /// At least one list is non-empty and every list is valid.
    pub fn validate(&self) -> (res: Result<(), StreamError>)
        ensures
            self.trades@.len() == 0 && self.quotes@.len() == 0 && self.bars@.len() == 0
                && self.updated_bars@.len() == 0 && self.statuses@.len() == 0 ==> res == Err::<
                (),
                StreamError,
            >(StreamError::EmptySubscription),
            !(self.trades@.len() == 0 && self.quotes@.len() == 0 && self.bars@.len() == 0
                && self.updated_bars@.len() == 0 && self.statuses@.len() == 0) ==> if valid_symbol_list(
                self.trades@,
            ) && valid_symbol_list(self.quotes@) && valid_symbol_list(self.bars@)
                && valid_symbol_list(self.updated_bars@) && valid_symbol_list(self.statuses@) {
                res is Ok
            } else {
                res == Err::<(), StreamError>(StreamError::InvalidSymbol)
            },
    {
        if self.trades.len() == 0 && self.quotes.len() == 0 && self.bars.len() == 0
            && self.updated_bars.len() == 0 && self.statuses.len() == 0 {
            return Err(StreamError::EmptySubscription);
        }
        validate_symbols(self.trades.as_slice())?;
        validate_symbols(self.quotes.as_slice())?;
        validate_symbols(self.bars.as_slice())?;
        validate_symbols(self.updated_bars.as_slice())?;
        validate_symbols(self.statuses.as_slice())?;
        Ok(())
    }

    /// `wss://stream.data.alpaca.markets/v2/<feed>`.
    pub fn url(&self) -> (res: String)
        ensures
            text_bytes(res@) == stream_url(self.feed),
    {
        let mut out: Vec<u8> = Vec::new();
        assert(out@ =~= encode_utf8(Seq::<char>::empty()));
        push_str(&mut out, ALPACA_MARKET_DATA_STREAM_ORIGIN);
        push_str(&mut out, "/v2/");
        push_str(&mut out, self.feed.as_str());
        assert(out@ =~= stream_url(self.feed));
        utf8_string(out)
    }
}

// ---------------------------------------------------------------------------------------------
// Control messages
// ---------------------------------------------------------------------------------------------

/// `v` is the JSON string `text`.
pub open spec fn is_text(v: JsonValue, text: Seq<char>) -> bool {
    v matches JsonValue::String(s) && s@ == text
}

/// `v` is a JSON array of exactly these strings.
pub open spec fn is_text_array(v: JsonValue, texts: Seq<String>) -> bool {
    v matches JsonValue::Array(a) && a@.len() == texts.len() && forall|i: int|
        0 <= i < texts.len() ==> is_text(#[trigger] a@[i], texts[i]@)
}

fn text_value(s: &str) -> (res: JsonValue)
    ensures
        is_text(res, s@),
{
    JsonValue::String(s.to_owned())
}

fn text_array(texts: &[String]) -> (res: JsonValue)
    ensures
        is_text_array(res, texts@),
{
    let mut out: Vec<JsonValue> = Vec::new();
    let mut i: usize = 0;
    while i < texts.len()
        invariant
            i <= texts.len(),
            out@.len() == i,
            forall|j: int| 0 <= j < i ==> is_text(#[trigger] out@[j], texts@[j]@),
        decreases texts.len() - i,
    {
        out.push(JsonValue::String(texts[i].clone()));
        i = i + 1;
    }
    JsonValue::Array(out)
}

/// The market-data subscription message. Members are in `serde_json`'s map order (sorted by
/// name): `action`, `bars`, `quotes`, `statuses`, `trades`, `updatedBars`.
pub open spec fn is_subscribe_message(
    v: JsonValue,
    trades: Seq<String>,
    quotes: Seq<String>,
    bars: Seq<String>,
    updated_bars: Seq<String>,
    statuses: Seq<String>,
) -> bool {
    &&& v matches JsonValue::Object(m)
    &&& m@.len() == 6
    &&& m@[0].0@ == "action"@ && is_text(m@[0].1, "subscribe"@)
    &&& m@[1].0@ == "bars"@ && is_text_array(m@[1].1, bars)
    &&& m@[2].0@ == "quotes"@ && is_text_array(m@[2].1, quotes)
    &&& m@[3].0@ == "statuses"@ && is_text_array(m@[3].1, statuses)
    &&& m@[4].0@ == "trades"@ && is_text_array(m@[4].1, trades)
    &&& m@[5].0@ == "updatedBars"@ && is_text_array(m@[5].1, updated_bars)
}

pub fn market_data_subscribe_message(
    trades: &[String],
    quotes: &[String],
    bars: &[String],
    updated_bars: &[String],
    statuses: &[String],
) -> (res: JsonValue)
    ensures
        is_subscribe_message(res, trades@, quotes@, bars@, updated_bars@, statuses@),
{
    let mut m: Vec<(String, JsonValue)> = Vec::new();
    m.push(("action".to_owned(), text_value("subscribe")));
    m.push(("bars".to_owned(), text_array(bars)));
    m.push(("quotes".to_owned(), text_array(quotes)));
    m.push(("statuses".to_owned(), text_array(statuses)));
    m.push(("trades".to_owned(), text_array(trades)));
    m.push(("updatedBars".to_owned(), text_array(updated_bars)));
    JsonValue::Object(m)
}

/// The market-data authentication message: `action`, `key`, `secret`.
pub open spec fn is_market_auth_message(v: JsonValue, key: Seq<char>, secret: Seq<char>) -> bool {
    &&& v matches JsonValue::Object(m)
    &&& m@.len() == 3
    &&& m@[0].0@ == "action"@ && is_text(m@[0].1, "auth"@)
    &&& m@[1].0@ == "key"@ && is_text(m@[1].1, key)
    &&& m@[2].0@ == "secret"@ && is_text(m@[2].1, secret)
}

pub fn market_data_auth_message(credentials: &AlpacaCredentials) -> (res: JsonValue)
    ensures
        is_market_auth_message(res, credentials.key(), credentials.secret()),
{
    credentials.websocket_auth_message()
}

/// The trading-stream authentication message: `action`, then `data` with `key_id` and
/// `secret_key`.
pub open spec fn is_trading_auth_message(v: JsonValue, key: Seq<char>, secret: Seq<char>) -> bool {
    &&& v matches JsonValue::Object(m)
    &&& m@.len() == 2
    &&& m@[0].0@ == "action"@ && is_text(m@[0].1, "authenticate"@)
    &&& m@[1].0@ == "data"@
    &&& m@[1].1 matches JsonValue::Object(d)
    &&& d@.len() == 2
    &&& d@[0].0@ == "key_id"@ && is_text(d@[0].1, key)
    &&& d@[1].0@ == "secret_key"@ && is_text(d@[1].1, secret)
}

pub fn trading_stream_auth_message(credentials: &AlpacaCredentials) -> (res: JsonValue)
    ensures
        is_trading_auth_message(res, credentials.key(), credentials.secret()),
{
    let (key, secret) = credentials.parts();
    let mut data: Vec<(String, JsonValue)> = Vec::new();
    data.push(("key_id".to_owned(), text_value(key)));
    data.push(("secret_key".to_owned(), text_value(secret)));
    let mut m: Vec<(String, JsonValue)> = Vec::new();
    m.push(("action".to_owned(), text_value("authenticate")));
    m.push(("data".to_owned(), JsonValue::Object(data)));
    JsonValue::Object(m)
}

/// The trading-stream listen message: `action`, then `data` with `streams: ["trade_updates"]`.
pub open spec fn is_listen_message(v: JsonValue) -> bool {
    &&& v matches JsonValue::Object(m)
    &&& m@.len() == 2
    &&& m@[0].0@ == "action"@ && is_text(m@[0].1, "listen"@)
    &&& m@[1].0@ == "data"@
    &&& m@[1].1 matches JsonValue::Object(d)
    &&& d@.len() == 1
    &&& d@[0].0@ == "streams"@
    &&& d@[0].1 matches JsonValue::Array(a)
    &&& a@.len() == 1 && is_text(a@[0], "trade_updates"@)
}

pub fn trading_stream_listen_message() -> (res: JsonValue)
    ensures
        is_listen_message(res),
{
    let mut streams: Vec<JsonValue> = Vec::new();
    streams.push(text_value("trade_updates"));
    let mut data: Vec<(String, JsonValue)> = Vec::new();
    data.push(("streams".to_owned(), JsonValue::Array(streams)));
    let mut m: Vec<(String, JsonValue)> = Vec::new();
    m.push(("action".to_owned(), text_value("listen")));
    m.push(("data".to_owned(), JsonValue::Object(data)));
    JsonValue::Object(m)
}

// ---------------------------------------------------------------------------------------------
// Received messages
// ---------------------------------------------------------------------------------------------

/// The kinds of WebSocket message a stream receives.
#[derive(Debug, Clone, Copy, PartialEq, Eq, Structural)]
pub enum StreamMessageKind {
    Text,
    Binary,
    Ping,
    Pong,
    Close,
    Frame,
}

/// What the reader does with a received message.
#[derive(Debug, Clone, Copy, PartialEq, Eq, Structural)]
pub enum FrameStep {
    /// Hand the message's bytes to the caller.
    Deliver,
    /// Answer with a pong carrying the same bytes, then keep reading.
    Pong,
    /// Keep reading.
    Skip,
    /// The stream is closed.
    Closed,
}

/// Text and binary messages are data; pings are answered; a close ends the stream.
pub fn frame_step(kind: StreamMessageKind) -> (res: FrameStep)
    ensures
        (kind is Text || kind is Binary) <==> res is Deliver,
        kind is Ping <==> res is Pong,
        kind is Close <==> res is Closed,
        (kind is Pong || kind is Frame) <==> res is Skip,
{
    match kind {
        StreamMessageKind::Text | StreamMessageKind::Binary => FrameStep::Deliver,
        StreamMessageKind::Ping => FrameStep::Pong,
        StreamMessageKind::Close => FrameStep::Closed,
        StreamMessageKind::Pong | StreamMessageKind::Frame => FrameStep::Skip,
    }
}


/// The text a member holds, if it is a string.
pub open spec fn member_text(m: Seq<(String, JsonValue)>, k: Seq<char>) -> Option<Seq<char>> {
    match crate::json::json_get(m, k) {
        Some(JsonValue::String(s)) => Some(s@),
        _ => None,
    }
}

/// Each authentication message carries the key under its key member and the secret under its
/// secret member: `key` and `secret` for market data, `key_id` and `secret_key` inside `data`
/// for trading.
pub proof fn law_auth_messages_name_their_parts(
    v: JsonValue,
    w: JsonValue,
    key: Seq<char>,
    secret: Seq<char>,
)
    ensures
        is_market_auth_message(v, key, secret) ==> member_text(v->Object_0@, "key"@) == Some(key)
            && member_text(v->Object_0@, "secret"@) == Some(secret) && member_text(
            v->Object_0@,
            "action"@,
        ) == Some("auth"@),
        is_trading_auth_message(w, key, secret) ==> (crate::json::json_get(w->Object_0@, "data"@)
            matches Some(JsonValue::Object(d)) && member_text(d@, "key_id"@) == Some(key)
            && member_text(d@, "secret_key"@) == Some(secret)),
{
    reveal_strlit("action");
    reveal_strlit("key");
    reveal_strlit("secret");
    reveal_strlit("data");
    reveal_strlit("key_id");
    reveal_strlit("secret_key");
    assert("action"@.len() == 6 && "key"@.len() == 3 && "secret"@.len() == 6 && "data"@.len() == 4
        && "key_id"@.len() == 6 && "secret_key"@.len() == 10);
    assert("action"@[0] != "secret"@[0]);
    if is_market_auth_message(v, key, secret) {
        let m = v->Object_0@;
        let m1 = m.drop_first();
        let m2 = m1.drop_first();
        assert(m1[0] == m[1] && m1[1] == m[2] && m2[0] == m[2]);
        assert(crate::json::json_get(m, "action"@) == Some(m[0].1));
        assert(crate::json::json_get(m, "key"@) == crate::json::json_get(m1, "key"@));
        assert(crate::json::json_get(m1, "key"@) == Some(m[1].1));
        assert(crate::json::json_get(m, "secret"@) == crate::json::json_get(m1, "secret"@));
        assert(crate::json::json_get(m1, "secret"@) == crate::json::json_get(m2, "secret"@));
        assert(crate::json::json_get(m2, "secret"@) == Some(m[2].1));
    }
    if is_trading_auth_message(w, key, secret) {
        let m = w->Object_0@;
        let m1 = m.drop_first();
        assert(m1[0] == m[1]);
        assert(crate::json::json_get(m, "data"@) == crate::json::json_get(m1, "data"@));
        assert(crate::json::json_get(m1, "data"@) == Some(m[1].1));
        let d = m[1].1->Object_0@;
        let d1 = d.drop_first();
        assert(d1[0] == d[1]);
        assert(crate::json::json_get(d, "key_id"@) == Some(d[0].1));
        assert(crate::json::json_get(d, "secret_key"@) == crate::json::json_get(d1, "secret_key"@));
        assert(crate::json::json_get(d1, "secret_key"@) == Some(d[1].1));
    }
}

} // verus!
