//! Alpaca trading adapter: environment and configuration, credentials, request construction
//! and validation, and the mapping of transport failures to broker errors.

use vstd::prelude::*;
use vstd::string::StringSliceAdditionalSpecFns;
use vstd::utf8::valid_utf8;
use crate::decimal::{ascii_string, BrokerDecimal};
use crate::json::JsonValue;
use crate::market_stream::is_market_auth_message;
use crate::execution::{
    checked_notional, notional_of, BrokerError, ExecutionMode, OrderIntent, Side,
};
use crate::text::{
    all_ascii, all_graphic, debug_escaped, insert_name, is_blank, is_blank_text, is_digit,
    is_graphic, lemma_sorted_names_unique, names_sorted, nat_digits, push_debug_escaped,
    push_number, push_str, sorted_name_set, str_eq, text_bytes, texts, utf8_string,
};

verus! {

broadcast use {vstd::seq_lib::group_seq_properties, vstd::utf8::group_utf8_lib};

pub const ALPACA_PAPER_API_ORIGIN: &'static str = "https://paper-api.alpaca.markets";
pub const ALPACA_LIVE_API_ORIGIN: &'static str = "https://api.alpaca.markets";
pub const ALPACA_MARKET_DATA_STREAM_ORIGIN: &'static str = "wss://stream.data.alpaca.markets";
pub const ALPACA_PAPER_TRADING_STREAM_URL: &'static str = "wss://paper-api.alpaca.markets/stream";
pub const ALPACA_LIVE_TRADING_STREAM_URL: &'static str = "wss://api.alpaca.markets/stream";

pub const ORDERS_PATH: &'static str = "/v2/orders";
pub const POSITIONS_PATH: &'static str = "/v2/positions";
pub const ACCOUNT_PATH: &'static str = "/v2/account";
pub const FILL_ACTIVITIES_PATH: &'static str = "/v2/account/activities/FILL";

pub const KEY_ID_HEADER: &'static str = "APCA-API-KEY-ID";
pub const SECRET_KEY_HEADER: &'static str = "APCA-API-SECRET-KEY";

#[derive(Debug, Clone, Copy, PartialEq, Eq, Structural)]
pub enum AlpacaEnvironment {
    Paper,
    Live,
}

impl AlpacaEnvironment {
    pub fn api_origin(self) -> (res: &'static str)
        ensures
            self is Paper ==> res@ == ALPACA_PAPER_API_ORIGIN@,
            self is Live ==> res@ == ALPACA_LIVE_API_ORIGIN@,
    {
        match self {
            AlpacaEnvironment::Paper => ALPACA_PAPER_API_ORIGIN,
            AlpacaEnvironment::Live => ALPACA_LIVE_API_ORIGIN,
        }
    }

    pub fn trading_stream_url(self) -> (res: &'static str)
        ensures
            self is Paper ==> res@ == ALPACA_PAPER_TRADING_STREAM_URL@,
            self is Live ==> res@ == ALPACA_LIVE_TRADING_STREAM_URL@,
    {
        match self {
            AlpacaEnvironment::Paper => ALPACA_PAPER_TRADING_STREAM_URL,
            AlpacaEnvironment::Live => ALPACA_LIVE_TRADING_STREAM_URL,
        }
    }

    pub open spec fn spec_execution_mode(self) -> ExecutionMode {
        match self {
            AlpacaEnvironment::Paper => ExecutionMode::Paper,
            AlpacaEnvironment::Live => ExecutionMode::Live,
        }
    }

    /// The execution mode orders must carry to be sent to this environment.
    pub fn execution_mode(self) -> (res: ExecutionMode)
        ensures
            res == self.spec_execution_mode(),
    {
        match self {
            AlpacaEnvironment::Paper => ExecutionMode::Paper,
            AlpacaEnvironment::Live => ExecutionMode::Live,
        }
    }
}

#[derive(Debug, Clone, Copy, PartialEq, Eq, Structural)]
pub enum ConfigurationError {
    /// API key and secret must be non-empty printable ASCII.
    InvalidCredentials,
    /// The venue must be non-empty.
    InvalidVenue,
    /// The reconciliation bounds are invalid.
    InvalidReconciliationBounds,
}

impl ConfigurationError {
    /// The error's message, as the error is displayed.
    pub fn message(&self) -> (res: String)
        ensures
            *self is InvalidCredentials ==> res@ == "Alpaca API key and secret must be non-empty printable ASCII"@,
            *self is InvalidVenue ==> res@ == "Alpaca venue must be non-empty"@,
            *self is InvalidReconciliationBounds ==> res@ == "Alpaca reconciliation bounds are invalid"@,
    {
        match self {
            ConfigurationError::InvalidCredentials => "Alpaca API key and secret must be non-empty printable ASCII".to_owned(),
            ConfigurationError::InvalidVenue => "Alpaca venue must be non-empty".to_owned(),
            ConfigurationError::InvalidReconciliationBounds => "Alpaca reconciliation bounds are invalid".to_owned(),
        }
    }
}

#[derive(Debug, Clone, PartialEq, Eq)]
pub struct AlpacaConfig {
    pub environment: AlpacaEnvironment,
    pub venue: String,
    pub extended_hours: bool,
    pub max_reconciliation_pages: usize,
    pub reconciliation_page_size: usize,
}

/// Why a configuration is refused, checked in order; `None` when it is accepted.
pub open spec fn config_error(config: AlpacaConfig) -> Option<ConfigurationError> {
    if is_blank_text(config.venue@) {
        Some(ConfigurationError::InvalidVenue)
    } else if config.max_reconciliation_pages == 0 || !(1 <= config.reconciliation_page_size
        <= 100) {
        Some(ConfigurationError::InvalidReconciliationBounds)
    } else {
        None
    }
}

impl AlpacaConfig {
    /// The paper-trading defaults: venue `ALPACA`, regular hours, 8 pages of 100.
    pub fn paper() -> (res: Self)
        ensures
            res.environment == AlpacaEnvironment::Paper,
            res.venue@ == "ALPACA"@,
            !res.extended_hours,
            res.max_reconciliation_pages == 8,
            res.reconciliation_page_size == 100,
    {
        AlpacaConfig {
            environment: AlpacaEnvironment::Paper,
            venue: "ALPACA".to_owned(),
            extended_hours: false,
            max_reconciliation_pages: 8,
            reconciliation_page_size: 100,
        }
    }

    pub fn validate(&self) -> (res: Result<(), ConfigurationError>)
        ensures
            match config_error(*self) {
                Some(e) => res == Err::<(), ConfigurationError>(e),
                None => res is Ok,
            },
    {
        if is_blank(self.venue.as_str()) {
            return Err(ConfigurationError::InvalidVenue);
        }
        if self.max_reconciliation_pages == 0 || !(1 <= self.reconciliation_page_size
            && self.reconciliation_page_size <= 100) {
            return Err(ConfigurationError::InvalidReconciliationBounds);
        }
        Ok(())
    }
}

/// A secret is non-empty printable (graphic) ASCII.
pub open spec fn valid_secret_bytes(b: Seq<u8>) -> bool {
    b.len() > 0 && all_graphic(b)
}

fn all_bytes_graphic(b: &[u8]) -> (res: bool)
    ensures
        res == all_graphic(b@),
{
    let mut i: usize = 0;
    while i < b.len()
        invariant
            i <= b.len(),
            forall|j: int| 0 <= j < i ==> is_graphic(#[trigger] b@[j]),
        decreases b.len() - i,
    {
        if b[i] < 33 || b[i] > 126 {
            return false;
        }
        i = i + 1;
    }
    true
}

pub fn valid_secret(value: &str) -> (res: bool)
    ensures
        res == valid_secret_bytes(value.spec_bytes()),
{
    let b = value.as_bytes();
    b.len() > 0 && all_bytes_graphic(b)
}

/// Alpaca API credentials. Both parts are non-empty printable ASCII.
pub struct AlpacaCredentials {
    key_id: String,
    secret_key: String,
}

impl AlpacaCredentials {
    pub closed spec fn key(&self) -> Seq<char> {
        self.key_id@
    }

    pub closed spec fn secret(&self) -> Seq<char> {
        self.secret_key@
    }

    pub fn try_new(key_id: &str, secret_key: &str) -> (res: Result<Self, ConfigurationError>)
        ensures
            res is Ok <==> valid_secret_bytes(key_id.spec_bytes()) && valid_secret_bytes(
                secret_key.spec_bytes(),
            ),
            res is Err ==> res == Err::<Self, ConfigurationError>(
                ConfigurationError::InvalidCredentials,
            ),
            res matches Ok(c) ==> c.key() == key_id@ && c.secret() == secret_key@,
    {
        if !valid_secret(key_id) || !valid_secret(secret_key) {
            return Err(ConfigurationError::InvalidCredentials);
        }
        Ok(AlpacaCredentials { key_id: key_id.to_owned(), secret_key: secret_key.to_owned() })
    }

    /// Sets the two authentication headers: each replaces a header of the same name, or is
    /// added after the others where there is none.
    pub fn apply(&self, headers: &mut Vec<(String, String)>)
        ensures
            header_view(final(headers)@) == header_set(
                header_set(header_view(old(headers)@), KEY_ID_HEADER@, self.key()),
                SECRET_KEY_HEADER@,
                self.secret(),
            ),
    {
        set_header(headers, KEY_ID_HEADER, self.key_id.as_str());
        set_header(headers, SECRET_KEY_HEADER, self.secret_key.as_str());
    }

    /// The key identity and the secret, for the messages that carry them.
    pub(crate) fn parts(&self) -> (res: (&str, &str))
        ensures
            res.0@ == self.key(),
            res.1@ == self.secret(),
    {
        (self.key_id.as_str(), self.secret_key.as_str())
    }

    /// The WebSocket authentication message: `action: "auth"`, `key`, `secret`, in
    /// `serde_json`'s member order.
    pub fn websocket_auth_message(&self) -> (res: JsonValue)
        ensures
            is_market_auth_message(res, self.key(), self.secret()),
    {
        let mut m: Vec<(String, JsonValue)> = Vec::new();
        m.push(("action".to_owned(), JsonValue::String("auth".to_owned())));
        m.push(("key".to_owned(), JsonValue::String(self.key_id.clone())));
        m.push(("secret".to_owned(), JsonValue::String(self.secret_key.clone())));
        JsonValue::Object(m)
    }

    /// A debugging rendering that never shows either secret.
    pub fn debug_text(&self) -> (res: String)
        ensures
            res@ == "AlpacaCredentials { key_id: \"[redacted]\", secret_key: \"[redacted]\" }"@,
    {
        "AlpacaCredentials { key_id: \"[redacted]\", secret_key: \"[redacted]\" }".to_owned()
    }
}

/// Header names and values as text.
pub open spec fn header_view(h: Seq<(String, String)>) -> Seq<(Seq<char>, Seq<char>)> {
    h.map_values(|p: (String, String)| (p.0@, p.1@))
}

/// Whether `i` is the first position of a header named `name`.
pub open spec fn first_header_at(h: Seq<(Seq<char>, Seq<char>)>, name: Seq<char>, i: int) -> bool {
    &&& 0 <= i < h.len()
    &&& h[i].0 == name
    &&& forall|j: int| 0 <= j < i ==> h[j].0 != name
}

/// `h` with the header `name` set to `value`: the first header of that name takes the new
/// value; where there is none, the header is added at the end.
pub open spec fn header_set(h: Seq<(Seq<char>, Seq<char>)>, name: Seq<char>, value: Seq<char>) -> Seq<
    (Seq<char>, Seq<char>),
> {
    if exists|i: int| first_header_at(h, name, i) {
        h.update(choose|i: int| first_header_at(h, name, i), (name, value))
    } else {
        h.push((name, value))
    }
}

/// Sets the header `name` to `value` in place.
fn set_header(headers: &mut Vec<(String, String)>, name: &str, value: &str)
    ensures
        header_view(final(headers)@) == header_set(header_view(old(headers)@), name@, value@),
{
    let ghost h0 = header_view(headers@);
    let mut i: usize = 0;
    while i < headers.len()
        invariant
            i <= headers.len(),
            header_view(headers@) == h0,
            h0 == header_view(old(headers)@),
            forall|j: int| 0 <= j < i ==> h0[j].0 != name@,
        decreases headers.len() - i,
    {
        if str_eq(headers[i].0.as_str(), name) {
            proof {
                assert(first_header_at(h0, name@, i as int));
                let c = choose|k: int| first_header_at(h0, name@, k);
                assert(c == i as int) by {
                    if c < i as int {
                        assert(h0[c].0 != name@);
                    } else if c > i as int {
                        assert(h0[i as int].0 != name@);
                    }
                }
            }
            headers.set(i, (name.to_owned(), value.to_owned()));
            assert(header_view(headers@) =~= h0.update(i as int, (name@, value@)));
            return;
        }
        i = i + 1;
    }
    assert(!exists|k: int| first_header_at(h0, name@, k));
    headers.push((name.to_owned(), value.to_owned()));
    assert(header_view(headers@) =~= h0.push((name@, value@)));
}

#[derive(Debug, Clone, Copy, PartialEq, Eq, Structural)]
pub enum HttpMethod {
    Get,
    Post,
    Patch,
    Delete,
}

impl HttpMethod {
    pub open spec fn spec_is_mutating(self) -> bool {
        !(self is Get)
    }

    /// Whether the request may change broker state.
    #[verifier::when_used_as_spec(spec_is_mutating)]
    pub fn is_mutating(self) -> (res: bool)
        ensures
            res == self.spec_is_mutating(),
    {
        !matches!(self, HttpMethod::Get)
    }

    pub open spec fn name(self) -> Seq<char> {
        match self {
            HttpMethod::Get => "Get"@,
            HttpMethod::Post => "Post"@,
            HttpMethod::Patch => "Patch"@,
            HttpMethod::Delete => "Delete"@,
        }
    }

    fn name_str(self) -> (res: &'static str)
        ensures
            res@ == self.name(),
    {
        match self {
            HttpMethod::Get => "Get",
            HttpMethod::Post => "Post",
            HttpMethod::Patch => "Patch",
            HttpMethod::Delete => "Delete",
        }
    }
}

/// An HTTP request handed to the transport. The requests the library builds name each header
/// once; a header's value is that of its first entry.
#[derive(Clone, PartialEq, Eq)]
pub struct HttpRequest {
    pub method: HttpMethod,
    pub path_and_query: String,
    pub headers: Vec<(String, String)>,
    pub body: Vec<u8>,
}

/// `"a", "b", ...`: each name escaped as `Debug` escapes it, in double quotes, separated by
/// `, `.
pub open spec fn quoted_names(names: Seq<Seq<char>>) -> Seq<u8>
    decreases names.len(),
{
    if names.len() == 0 {
        Seq::empty()
    } else if names.len() == 1 {
        text_bytes("\""@) + debug_escaped(text_bytes(names[0])) + text_bytes("\""@)
    } else {
        quoted_names(names.drop_last()) + text_bytes(", \""@) + debug_escaped(
            text_bytes(names.last()),
        ) + text_bytes("\""@)
    }
}

/// The debugging rendering of a request: method, escaped path, the header names in text order
/// with each listed once, and the body length only.
pub open spec fn request_debug_text(
    method: HttpMethod,
    path: Seq<char>,
    names: Seq<Seq<char>>,
    body_len: nat,
) -> Seq<u8> {
    text_bytes("HttpRequest { method: "@) + text_bytes(method.name()) + text_bytes(
        ", path_and_query: \""@,
    ) + debug_escaped(text_bytes(path)) + text_bytes("\", header_names: ["@) + quoted_names(
        sorted_name_set(names),
    ) + text_bytes("], body_bytes: "@) + nat_digits(body_len) + text_bytes(" }"@)
}

impl HttpRequest {
    pub open spec fn header_names(&self) -> Seq<Seq<char>> {
        self.headers@.map_values(|p: (String, String)| p.0@)
    }

    /// A debugging rendering that shows no header value and no body byte.
    pub fn debug_text(&self) -> (res: String)
        ensures
            text_bytes(res@) == request_debug_text(
                self.method,
                self.path_and_query@,
                self.header_names(),
                self.body@.len(),
            ),
    {
        let mut names: Vec<String> = Vec::new();
        let mut i: usize = 0;
        assert(names_sorted(texts(names@)));
        while i < self.headers.len()
            invariant
                i <= self.headers.len(),
                names_sorted(texts(names@)),
                forall|n: Seq<char>| #[trigger] texts(names@).contains(n) <==> self.header_names().subrange(
                    0,
                    i as int,
                ).contains(n),
            decreases self.headers.len() - i,
        {
            insert_name(&mut names, self.headers[i].0.as_str());
            proof {
                let hs = self.header_names();
                let s1 = hs.subrange(0, i as int);
                let x = hs[i as int];
                let s2 = s1.push(x);
                assert(hs.subrange(0, i + 1) =~= s2);
                assert forall|n: Seq<char>| #[trigger] s2.contains(n) <==> (s1.contains(n) || n == x) by {
                    if s2.contains(n) {
                        let k = choose|k: int| 0 <= k < s2.len() && #[trigger] s2[k] == n;
                        if k < s1.len() {
                            assert(s1[k] == n);
                        }
                    }
                    if s1.contains(n) {
                        let k = choose|k: int| 0 <= k < s1.len() && #[trigger] s1[k] == n;
                        assert(s2[k] == n);
                    }
                    if n == x {
                        assert(s2[s1.len() as int] == n);
                    }
                }
            }
            i = i + 1;
        }
        proof {
            let hs = self.header_names();
            assert(hs.subrange(0, self.headers.len() as int) =~= hs);
            let ns = texts(names@);
            assert(names_sorted(ns) && forall|n: Seq<char>| #[trigger] ns.contains(n) <==> hs.contains(n));
            let c = sorted_name_set(hs);
            lemma_sorted_names_unique(ns, c);
        }
        let mut out: Vec<u8> = Vec::new();
        assert(valid_utf8(out@)) by {
            assert(out@ =~= vstd::utf8::encode_utf8(Seq::<char>::empty()));
        }
        push_str(&mut out, "HttpRequest { method: ");
        push_str(&mut out, self.method.name_str());
        push_str(&mut out, ", path_and_query: \"");
        push_debug_escaped(&mut out, self.path_and_query.as_str());
        push_str(&mut out, "\", header_names: [");
        let ghost prefix = out@;
        let mut j: usize = 0;
        while j < names.len()
            invariant
                j <= names.len(),
                valid_utf8(out@),
                out@ == prefix + quoted_names(texts(names@).subrange(0, j as int)),
            decreases names.len() - j,
        {
            let ghost part = texts(names@).subrange(0, j as int + 1);
            assert(part.drop_last() =~= texts(names@).subrange(0, j as int));
            if j > 0 {
                push_str(&mut out, ", \"");
            } else {
                push_str(&mut out, "\"");
            }
            push_debug_escaped(&mut out, names[j].as_str());
            push_str(&mut out, "\"");
            j = j + 1;
            assert(out@ =~= prefix + quoted_names(part));
        }
        assert(texts(names@).subrange(0, names.len() as int) =~= texts(names@));
        push_str(&mut out, "], body_bytes: ");
        push_number(&mut out, self.body.len() as u64);
        push_str(&mut out, " }");
        assert(out@ =~= request_debug_text(
            self.method,
            self.path_and_query@,
            self.header_names(),
            self.body@.len(),
        ));
        utf8_string(out)
    }

    /// The value of a header, if present.
    pub fn header(&self, name: &str) -> (res: Option<&String>)
        ensures
            res matches Some(v) ==> exists|i: int|
                0 <= i < self.headers.len() && self.headers@[i].0@ == name@ && self.headers@[i].1
                    == *v,
            res is None ==> forall|i: int|
                0 <= i < self.headers.len() ==> self.headers@[i].0@ != name@,
    {
        let mut i: usize = 0;
        while i < self.headers.len()
            invariant
                i <= self.headers.len(),
                forall|j: int| 0 <= j < i ==> self.headers@[j].0@ != name@,
            decreases self.headers.len() - i,
        {
            if str_eq(self.headers[i].0.as_str(), name) {
                return Some(&self.headers[i].1);
            }
            i = i + 1;
        }
        None
    }
}

#[derive(Debug, Clone, PartialEq, Eq)]
pub struct HttpResponse {
    pub status: u16,
    pub body: Vec<u8>,
}

#[derive(Debug, Clone, Copy, PartialEq, Eq, Structural)]
pub enum TransportError {
    /// The transport is unavailable.
    Unavailable,
    /// The request outcome is unknown.
    OutcomeUnknown,
    /// The response exceeded the configured byte limit.
    ResponseTooLarge,
}

impl TransportError {
    /// The error's message, as the error is displayed.
    pub fn message(&self) -> (res: String)
        ensures
            *self is Unavailable ==> res@ == "Alpaca transport is unavailable"@,
            *self is OutcomeUnknown ==> res@ == "Alpaca request outcome is unknown"@,
            *self is ResponseTooLarge ==> res@ == "Alpaca response exceeded the configured byte limit"@,
    {
        match self {
            TransportError::Unavailable => "Alpaca transport is unavailable".to_owned(),
            TransportError::OutcomeUnknown => "Alpaca request outcome is unknown".to_owned(),
            TransportError::ResponseTooLarge => "Alpaca response exceeded the configured byte limit".to_owned(),
        }
    }
}

/// Carries requests to Alpaca. Implemented by users: native HTTP, a test double, a WASI host.
pub trait AlpacaTransport {
    fn execute(&mut self, request: HttpRequest) -> Result<HttpResponse, TransportError>;
}


#[derive(Debug, Clone, Copy, PartialEq, Eq, Structural)]
pub enum AlpacaOrderType {
    Market,
    Limit,
}

impl AlpacaOrderType {
    pub fn as_api_str(self) -> (res: &'static str)
        ensures
            self is Market ==> res@ == "market"@,
            self is Limit ==> res@ == "limit"@,
    {
        match self {
            AlpacaOrderType::Market => "market",
            AlpacaOrderType::Limit => "limit",
        }
    }
}

#[derive(Debug, Clone, Copy, PartialEq, Eq, Structural)]
pub enum AlpacaTimeInForce {
    Day,
    GoodTilCanceled,
    ImmediateOrCancel,
    FillOrKill,
}

impl AlpacaTimeInForce {
    pub fn as_api_str(self) -> (res: &'static str)
        ensures
            self is Day ==> res@ == "day"@,
            self is GoodTilCanceled ==> res@ == "gtc"@,
            self is ImmediateOrCancel ==> res@ == "ioc"@,
            self is FillOrKill ==> res@ == "fok"@,
    {
        match self {
            AlpacaTimeInForce::Day => "day",
            AlpacaTimeInForce::GoodTilCanceled => "gtc",
            AlpacaTimeInForce::ImmediateOrCancel => "ioc",
            AlpacaTimeInForce::FillOrKill => "fok",
        }
    }
}

/// The Alpaca name of an order side.
pub fn side(order_side: Side) -> (res: &'static str)
    ensures
        order_side is Buy ==> res@ == "buy"@,
        order_side is Sell ==> res@ == "sell"@,
{
    match order_side {
        Side::Buy => "buy",
        Side::Sell => "sell",
    }
}

/// A rejection with the given message.
pub fn rejected(message: &str) -> (res: BrokerError)
    ensures
        res matches BrokerError::Rejected(m) && m@ == message@,
{
    BrokerError::Rejected(message.to_owned())
}

pub open spec fn is_rejection(res: BrokerError, message: Seq<char>) -> bool {
    res matches BrokerError::Rejected(m) && m@ == message
}

pub open spec fn client_order_id_message() -> Seq<char> {
    "client order ID must be 1 to 128 visible ASCII characters"@
}

/// A client order identity is 1 to 128 visible ASCII characters.
pub open spec fn valid_client_order_id_bytes(b: Seq<u8>) -> bool {
    0 < b.len() <= 128 && all_graphic(b)
}

pub fn validate_client_order_id(value: &str) -> (res: Result<(), BrokerError>)
    ensures
        res is Ok <==> valid_client_order_id_bytes(value.spec_bytes()),
        res matches Err(e) ==> is_rejection(e, client_order_id_message()),
{
    let b = value.as_bytes();
    if b.len() == 0 || b.len() > 128 || !all_bytes_graphic(b) {
        return Err(rejected("client order ID must be 1 to 128 visible ASCII characters"));
    }
    Ok(())
}

pub open spec fn is_symbol_byte(b: u8) -> bool {
    (65 <= b <= 90) || is_digit(b) || b == 45
}

/// A canonical Alpaca symbol: 1 to 32 uppercase letters, digits or `-`.
pub open spec fn valid_symbol_bytes(b: Seq<u8>) -> bool {
    0 < b.len() <= 32 && forall|i: int| 0 <= i < b.len() ==> is_symbol_byte(#[trigger] b[i])
}

pub fn valid_symbol(value: &str) -> (res: bool)
    ensures
        res == valid_symbol_bytes(value.spec_bytes()),
{
    let b = value.as_bytes();
    if b.len() == 0 || b.len() > 32 {
        return false;
    }
    let mut i: usize = 0;
    while i < b.len()
        invariant
            i <= b.len(),
            0 < b.len() <= 32,
            b@ == value.spec_bytes(),
            forall|j: int| 0 <= j < i ==> is_symbol_byte(#[trigger] b@[j]),
        decreases b.len() - i,
    {
        let c = b[i];
        if !((65 <= c && c <= 90) || (48 <= c && c <= 57) || c == 45) {
            assert(!is_symbol_byte(b@[i as int]));
            return false;
        }
        i = i + 1;
    }
    true
}

#[derive(Debug, Clone, PartialEq, Eq)]
pub struct AlpacaOrderRequest {
    pub client_order_id: String,
    pub symbol: String,
    pub side: Side,
    pub quantity: BrokerDecimal,
    pub order_type: AlpacaOrderType,
    pub time_in_force: AlpacaTimeInForce,
    pub limit_price: Option<BrokerDecimal>,
    pub extended_hours: bool,
}

/// Why an order request is refused, checked in order; `None` when it may be sent.
pub open spec fn order_request_error(r: AlpacaOrderRequest) -> Option<Seq<char>> {
    if !valid_client_order_id_bytes(text_bytes(r.client_order_id@)) {
        Some(client_order_id_message())
    } else if !valid_symbol_bytes(text_bytes(r.symbol@)) {
        Some("symbol must be a canonical uppercase Alpaca symbol"@)
    } else if r.quantity@ == seq![48u8] {
        Some("quantity must be positive"@)
    } else if !((r.order_type is Market && r.limit_price is None) || (r.order_type is Limit && (
    r.limit_price matches Some(p) && p@ != seq![48u8]))) {
        Some("limit orders require a positive limit price and market orders forbid one"@)
    } else if r.extended_hours && !(r.order_type is Limit && r.time_in_force is Day) {
        Some("extended-hours orders must be day limit orders"@)
    } else {
        None
    }
}

impl AlpacaOrderRequest {
    pub fn validate(&self) -> (res: Result<(), BrokerError>)
        ensures
            match order_request_error(*self) {
                None => res is Ok,
                Some(m) => res matches Err(e) && is_rejection(e, m),
            },
    {
        validate_client_order_id(self.client_order_id.as_str())?;
        if !valid_symbol(self.symbol.as_str()) {
            return Err(rejected("symbol must be a canonical uppercase Alpaca symbol"));
        }
        if self.quantity.is_zero() {
            return Err(rejected("quantity must be positive"));
        }
        let price_ok = match (self.order_type, &self.limit_price) {
            (AlpacaOrderType::Market, None) => true,
            (AlpacaOrderType::Limit, Some(price)) => !price.is_zero(),
            _ => false,
        };
        if !price_ok {
            return Err(
                rejected("limit orders require a positive limit price and market orders forbid one"),
            );
        }
        if self.extended_hours && !(matches!(self.order_type, AlpacaOrderType::Limit) && matches!(
            self.time_in_force,
            AlpacaTimeInForce::Day
        )) {
            return Err(rejected("extended-hours orders must be day limit orders"));
        }
        Ok(())
    }
}

// ---------------------------------------------------------------------------------------------
// Percent encoding and request paths
// ---------------------------------------------------------------------------------------------

/// RFC 3986 unreserved bytes: letters, digits, `-`, `_`, `.`, `~`.
pub open spec fn is_unreserved(b: u8) -> bool {
    (65 <= b <= 90) || (97 <= b <= 122) || is_digit(b) || b == 45 || b == 95 || b == 46 || b
        == 126
}

pub open spec fn hex_upper(n: u8) -> u8 {
    if n < 10 {
        (48 + n) as u8
    } else {
        (55 + n) as u8
    }
}

pub open spec fn percent_encode_byte(b: u8) -> Seq<u8> {
    if is_unreserved(b) {
        seq![b]
    } else {
        seq![37u8, hex_upper(b / 16), hex_upper(b % 16)]
    }
}

/// Every unreserved byte as itself, every other byte as `%` and two upper-case hex digits.
pub open spec fn percent_encoded(s: Seq<u8>) -> Seq<u8>
    decreases s.len(),
{
    if s.len() == 0 {
        Seq::empty()
    } else {
        percent_encoded(s.drop_last()) + percent_encode_byte(s.last())
    }
}

fn hex_digit(n: u8) -> (res: u8)
    requires
        n < 16,
    ensures
        res == hex_upper(n),
{
    if n < 10 {
        48 + n
    } else {
        55 + n
    }
}

pub fn percent_encode(value: &str) -> (res: String)
    ensures
        text_bytes(res@) == percent_encoded(value.spec_bytes()),
        forall|i: int|
            0 <= i < text_bytes(res@).len() ==> is_unreserved(#[trigger] text_bytes(res@)[i])
                || text_bytes(res@)[i] == 37,
{
    let b = value.as_bytes();
    let mut out: Vec<u8> = Vec::new();
    let mut i: usize = 0;
    while i < b.len()
        invariant
            i <= b.len(),
            out@ == percent_encoded(b@.subrange(0, i as int)),
            forall|j: int| 0 <= j < out@.len() ==> is_unreserved(#[trigger] out@[j]) || out@[j] == 37,
        decreases b.len() - i,
    {
        let c = b[i];
        assert(b@.subrange(0, i as int + 1).drop_last() =~= b@.subrange(0, i as int));
        if (65 <= c && c <= 90) || (97 <= c && c <= 122) || (48 <= c && c <= 57) || c == 45 || c
            == 95 || c == 46 || c == 126 {
            out.push(c);
        } else {
            out.push(37);
            out.push(hex_digit(c / 16));
            out.push(hex_digit(c % 16));
        }
        i = i + 1;
    }
    assert(b@.subrange(0, b.len() as int) =~= b@);
    assert(all_ascii(out@));
    ascii_string(out)
}

/// A request path: starts with a single `/` and holds no CR or LF.
pub open spec fn valid_request_path(p: Seq<u8>) -> bool {
    &&& p.len() > 0
    &&& p[0] == 47
    &&& !(p.len() > 1 && p[1] == 47)
    &&& forall|i: int| 0 <= i < p.len() ==> #[trigger] p[i] != 13 && p[i] != 10
}

pub fn is_valid_request_path(path: &str) -> (res: bool)
    ensures
        res == valid_request_path(path.spec_bytes()),
{
    let b = path.as_bytes();
    if b.len() == 0 || b[0] != 47 || (b.len() > 1 && b[1] == 47) {
        return false;
    }
    let mut i: usize = 0;
    while i < b.len()
        invariant
            i <= b.len(),
            b@ == path.spec_bytes(),
            forall|j: int| 0 <= j < i ==> #[trigger] b@[j] != 13 && b@[j] != 10,
        decreases b.len() - i,
    {
        if b[i] == 13 || b[i] == 10 {
            assert(b@[i as int] == 13 || b@[i as int] == 10);
            return false;
        }
        i = i + 1;
    }
    true
}

/// The headers of every Alpaca request: credentials, `Accept`, and `Content-Type` when there is
/// a body.
pub open spec fn request_headers(key: Seq<char>, secret: Seq<char>, has_body: bool) -> Seq<
    (Seq<char>, Seq<char>),
> {
    seq![(KEY_ID_HEADER@, key), (SECRET_KEY_HEADER@, secret), ("Accept"@, "application/json"@)]
        + if has_body {
        seq![("Content-Type"@, "application/json"@)]
    } else {
        Seq::empty()
    }
}

/// Builds the request for a method, path and body, authenticated with `credentials`.
pub fn build_request(
    credentials: &AlpacaCredentials,
    method: HttpMethod,
    path_and_query: String,
    body: Vec<u8>,
) -> (res: HttpRequest)
    ensures
        res.method == method,
        res.path_and_query == path_and_query,
        res.body == body,
        header_view(res.headers@) == request_headers(
            credentials.key(),
            credentials.secret(),
            body@.len() > 0,
        ),
{
    let mut headers: Vec<(String, String)> = Vec::new();
    credentials.apply(&mut headers);
    proof {
        reveal_strlit("APCA-API-KEY-ID");
        reveal_strlit("APCA-API-SECRET-KEY");
        let e = Seq::<(Seq<char>, Seq<char>)>::empty();
        let one = header_set(e, KEY_ID_HEADER@, credentials.key());
        assert(one =~= seq![(KEY_ID_HEADER@, credentials.key())]);
        assert(KEY_ID_HEADER@ != SECRET_KEY_HEADER@) by {
            assert(KEY_ID_HEADER@.len() != SECRET_KEY_HEADER@.len());
        }
        assert(!first_header_at(one, SECRET_KEY_HEADER@, 0));
        assert(header_view(headers@) =~= seq![
            (KEY_ID_HEADER@, credentials.key()),
            (SECRET_KEY_HEADER@, credentials.secret()),
        ]);
    }
    let ghost h2 = header_view(headers@);
    headers.push(("Accept".to_owned(), "application/json".to_owned()));
    assert(header_view(headers@) =~= h2 + seq![("Accept"@, "application/json"@)]);
    if body.len() > 0 {
        let ghost h3 = header_view(headers@);
        headers.push(("Content-Type".to_owned(), "application/json".to_owned()));
        assert(header_view(headers@) =~= h3 + seq![("Content-Type"@, "application/json"@)]);
    }
    assert(header_view(headers@) =~= request_headers(
        credentials.key(),
        credentials.secret(),
        body@.len() > 0,
    ));
    HttpRequest { method, path_and_query, headers, body }
}

/// A transport failure as a broker error: an unknown outcome of a mutation stays ambiguous;
/// everything else means nothing happened.
pub open spec fn transport_error_meaning(method: HttpMethod, error: TransportError) -> BrokerError {
    if error is OutcomeUnknown && method.spec_is_mutating() {
        BrokerError::AmbiguousOutcome
    } else {
        BrokerError::Unavailable
    }
}

pub fn map_transport_error(method: HttpMethod, error: TransportError) -> (res: BrokerError)
    ensures
        res == transport_error_meaning(method, error),
{
    match error {
        TransportError::OutcomeUnknown if method.is_mutating() => BrokerError::AmbiguousOutcome,
        _ => BrokerError::Unavailable,
    }
}


/// Only a mutating request whose outcome is unknown is ambiguous; every other transport failure,
/// and every failure of a read, means the request did nothing.
pub proof fn law_transport_failure_meaning(method: HttpMethod, error: TransportError)
    ensures
        transport_error_meaning(method, error) is AmbiguousOutcome <==> (error is OutcomeUnknown
            && !(method is Get)),
        transport_error_meaning(method, error) is Unavailable <==> !(error is OutcomeUnknown
            && !(method is Get)),
{
}

/// The value of an upper-case hex digit.
pub open spec fn upper_hex_value(d: u8) -> int {
    if 48 <= d <= 57 {
        d - 48
    } else {
        d - 55
    }
}

/// Percent-encoding reads back byte by byte: an unreserved byte stands for itself; any other
/// becomes `%` and two upper-case hex digits, high nibble first, whose value is the byte.
pub proof fn law_percent_encoding_reads_back(b: u8)
    ensures
        is_unreserved(b) ==> percent_encode_byte(b) == seq![b],
        !is_unreserved(b) ==> {
            let e = percent_encode_byte(b);
            &&& e.len() == 3
            &&& e[0] == 37
            &&& (48 <= e[1] <= 57 || 65 <= e[1] <= 70)
            &&& (48 <= e[2] <= 57 || 65 <= e[2] <= 70)
            &&& upper_hex_value(e[1]) * 16 + upper_hex_value(e[2]) == b
        },
{
    assert(b / 16 * 16 + b % 16 == b);
}


/// The value of the first header named `name`, if any.
pub open spec fn header_value(hs: Seq<(Seq<char>, Seq<char>)>, name: Seq<char>) -> Option<Seq<char>>
    decreases hs.len(),
{
    if hs.len() == 0 {
        None
    } else if hs[0].0 == name {
        Some(hs[0].1)
    } else {
        header_value(hs.drop_first(), name)
    }
}

/// Every request carries the key under the key-id header and the secret under the secret-key
/// header, asks for JSON, and declares a JSON body exactly when it has one.
pub proof fn law_request_headers_carry_credentials(key: Seq<char>, secret: Seq<char>, has_body: bool)
    ensures
        header_value(request_headers(key, secret, has_body), KEY_ID_HEADER@) == Some(key),
        header_value(request_headers(key, secret, has_body), SECRET_KEY_HEADER@) == Some(secret),
        header_value(request_headers(key, secret, has_body), "Accept"@) == Some("application/json"@),
        header_value(request_headers(key, secret, has_body), "Content-Type"@) is Some <==> has_body,
{
    reveal_strlit("APCA-API-KEY-ID");
    reveal_strlit("APCA-API-SECRET-KEY");
    reveal_strlit("Accept");
    reveal_strlit("Content-Type");
    assert(KEY_ID_HEADER@.len() == 15 && SECRET_KEY_HEADER@.len() == 19 && "Accept"@.len() == 6
        && "Content-Type"@.len() == 12);
    let hs = request_headers(key, secret, has_body);
    let t1 = hs.drop_first();
    let t2 = t1.drop_first();
    let t3 = t2.drop_first();
    assert(t1[0] == hs[1] && t2[0] == hs[2]);
    if has_body {
        assert(t3[0] == hs[3]);
        assert(t3.drop_first() =~= Seq::<(Seq<char>, Seq<char>)>::empty());
    } else {
        assert(t3 =~= Seq::<(Seq<char>, Seq<char>)>::empty());
    }
    assert(header_value(hs, KEY_ID_HEADER@) == Some(key));
    assert(header_value(hs, SECRET_KEY_HEADER@) == header_value(t1, SECRET_KEY_HEADER@));
    assert(header_value(t1, SECRET_KEY_HEADER@) == Some(secret));
    assert(header_value(hs, "Accept"@) == header_value(t1, "Accept"@));
    assert(header_value(t1, "Accept"@) == header_value(t2, "Accept"@));
    assert(header_value(t2, "Accept"@) == Some("application/json"@));
    assert(header_value(hs, "Content-Type"@) == header_value(t1, "Content-Type"@));
    assert(header_value(t1, "Content-Type"@) == header_value(t2, "Content-Type"@));
    assert(header_value(t2, "Content-Type"@) == header_value(t3, "Content-Type"@));
    if has_body {
        assert(header_value(t3, "Content-Type"@) is Some);
    } else {
        assert(header_value(t3, "Content-Type"@) is None);
    }
}

} // verus!
