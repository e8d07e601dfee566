//! The Alpaca broker adapter: order submission, replacement and cancellation, account and
//! position reads, and the paged reconciliation inventories, over an injected transport.
//!
//! Each request is framed by verified code; what the transport answers is read by the
//! functions of the "Outcomes" section, whose contracts are exact for every response. The
//! broker records, as ghost state, every request it hands to the transport and every answer it
//! gets; each operation's contract gives the requests it sends and its result in terms of those
//! answers.

use vstd::prelude::*;
use vstd::string::StringSliceAdditionalSpecFns;
use vstd::utf8::*;
use crate::alpaca::{
    header_view, request_headers, transport_error_meaning, TransportError,
    build_request, config_error, is_rejection, is_valid_request_path, map_transport_error,
    percent_encode, percent_encoded, rejected, side, valid_client_order_id_bytes,
    valid_request_path, validate_client_order_id, AlpacaConfig, AlpacaCredentials,
    AlpacaEnvironment, AlpacaOrderRequest, AlpacaOrderType, AlpacaTimeInForce, AlpacaTransport,
    ConfigurationError, HttpMethod, HttpResponse, client_order_id_message, order_request_error,
    ACCOUNT_PATH, FILL_ACTIVITIES_PATH, ORDERS_PATH, POSITIONS_PATH,
};
use crate::broker::{
    api_account_decodes, api_fill_decodes, api_order_decodable, api_order_decodes,
    api_position_decodes, ApiAccount,
    account_decimals_ok, account_matches, decimal_text_ok,
    fill_execution, invalid_decimal_message, invalid_signed_message, normalize_account,
    normalize_order, normalize_position, order_error, order_fields_match, position_decimals_ok,
    position_matches, timestamp_ns_of, ApiFillActivity, ApiOrder, ApiPosition, AlpacaAccount, AlpacaPosition,
};
use crate::decimal::{canonical_decimal, micros_text, micros_to_decimal, BrokerDecimal};
use crate::execution::{
    checked_notional, notional_of, BrokerAcknowledgement, BrokerError, BrokerExecution,
    BrokerOrderSnapshot, OrderIntent, Side,
};
use crate::json::{json_string_literal, write_json_string};
use crate::responses::{
    api_rejection, fails_with, fills_decode, invalid_json_text, orders_decode, positions_decode,
    read_account, read_fills, read_order, read_orders, read_positions, rejection_text,
    response_json,
};
use crate::text::{nat_digits, push_all, push_number, push_str, str_eq, text_bytes, utf8_string};

verus! {

broadcast use {vstd::seq_lib::group_seq_properties, vstd::utf8::group_utf8_lib};

// ---------------------------------------------------------------------------------------------
// The broker
// ---------------------------------------------------------------------------------------------

/// A request as the broker hands it to its transport: method, path and query, body, and
/// headers (names and values).
pub type SentRequest = (HttpMethod, Seq<u8>, Seq<u8>, Seq<(Seq<char>, Seq<char>)>);

/// What the transport answered one request.
pub type TransportAnswer = Result<HttpResponse, TransportError>;

/// The request the broker builds with credentials `c`: the headers of `build_request`.
pub open spec fn signed_request(
    c: AlpacaCredentials,
    method: HttpMethod,
    path: Seq<u8>,
    body: Seq<u8>,
) -> SentRequest {
    (method, path, body, request_headers(c.key(), c.secret(), body.len() > 0))
}

/// A `GET` of `path`, with no body.
pub open spec fn get_request(c: AlpacaCredentials, path: Seq<u8>) -> SentRequest {
    signed_request(c, HttpMethod::Get, path, Seq::empty())
}

/// A transport answer as the broker reads it: a response, or the failure's meaning for
/// `method`.
pub open spec fn answered(method: HttpMethod, t: TransportAnswer) -> Result<HttpResponse, BrokerError> {
    match t {
        Ok(r) => Ok(r),
        Err(e) => Err(transport_error_meaning(method, e)),
    }
}

/// `after` is `before` with more entries at the end.
pub open spec fn extends<A>(before: Seq<A>, after: Seq<A>) -> bool {
    before.len() <= after.len() && after.subrange(0, before.len() as int) == before
}

/// The entries of `after` past `before`.
pub open spec fn appended<A>(before: Seq<A>, after: Seq<A>) -> Seq<A> {
    after.subrange(before.len() as int, after.len() as int)
}

/// The Alpaca broker adapter over an injected transport.
pub struct AlpacaBroker<T> {
    config: AlpacaConfig,
    credentials: AlpacaCredentials,
    transport: T,
    sent: Ghost<Seq<SentRequest>>,
    received: Ghost<Seq<TransportAnswer>>,
}

impl<T: AlpacaTransport> AlpacaBroker<T> {
    pub closed spec fn config(&self) -> AlpacaConfig {
        self.config
    }

    pub closed spec fn credentials(&self) -> AlpacaCredentials {
        self.credentials
    }

    pub closed spec fn transport(&self) -> T {
        self.transport
    }

    /// Every request handed to the transport so far, oldest first.
    pub closed spec fn sent(&self) -> Seq<SentRequest> {
        self.sent@
    }

    /// Every answer the transport gave so far, oldest first.
    pub closed spec fn received(&self) -> Seq<TransportAnswer> {
        self.received@
    }

    pub fn try_new(config: AlpacaConfig, credentials: AlpacaCredentials, transport: T) -> (res:
        Result<Self, ConfigurationError>)
        ensures
            match config_error(config) {
                Some(e) => res matches Err(got) && got == e,
                None => res matches Ok(b) && b.config() == config && b.credentials()
                    == credentials && b.transport() == transport && b.sent().len() == 0
                    && b.received().len() == 0,
            },
    {
        config.validate()?;
        Ok(
            AlpacaBroker {
                config,
                credentials,
                transport,
                sent: Ghost(Seq::empty()),
                received: Ghost(Seq::empty()),
            },
        )
    }

    pub fn environment(&self) -> (res: AlpacaEnvironment)
        ensures
            res == self.config().environment,
    {
        self.config.environment
    }

    pub fn venue(&self) -> (res: &str)
        ensures
            res@ == self.config().venue@,
    {
        self.config.venue.as_str()
    }

    pub fn into_transport(self) -> (res: T)
        ensures
            res == self.transport(),
    {
        self.transport
    }

    /// Sends one request. Invalid paths are refused before anything is sent; transport
    /// failures are mapped by `map_transport_error`.
    pub fn execute(&mut self, method: HttpMethod, path_and_query: String, body: Vec<u8>) -> (res:
        Result<HttpResponse, BrokerError>)
        ensures
            !valid_request_path(text_bytes(path_and_query@)) ==> (res matches Err(e)
                && is_rejection(e, "invalid Alpaca request path"@)),
            !valid_request_path(text_bytes(path_and_query@)) ==> *final(self) == *old(self),
            valid_request_path(text_bytes(path_and_query@)) ==> match res {
                Ok(_) => true,
                Err(e) => e is Unavailable || (e is AmbiguousOutcome && method.spec_is_mutating()),
            },
            valid_request_path(text_bytes(path_and_query@)) ==> final(self).sent() == old(
                self,
            ).sent().push(
                signed_request(old(self).credentials(), method, text_bytes(path_and_query@), body@),
            ),
            valid_request_path(text_bytes(path_and_query@)) ==> final(self).received() == old(
                self,
            ).received().push(final(self).received().last()) && res == answered(
                method,
                final(self).received().last(),
            ),
            final(self).config() == old(self).config(),
            final(self).credentials() == old(self).credentials(),
    {
        if !is_valid_request_path(path_and_query.as_str()) {
            return Err(rejected("invalid Alpaca request path"));
        }
        let request = build_request(&self.credentials, method, path_and_query, body);
        proof {
            self.sent@ = self.sent@.push(
                (request.method, text_bytes(request.path_and_query@), request.body@, header_view(request.headers@)),
            );
        }
        let answer = self.transport.execute(request);
        proof {
            self.received@ = self.received@.push(answer);
        }
        match answer {
            Ok(response) => Ok(response),
            Err(error) => Err(map_transport_error(method, error)),
        }
    }

    pub fn validate_intent(&self, intent: &OrderIntent) -> (res: Result<(), BrokerError>)
        ensures
            res is Ok <==> intent_error(self.config(), *intent) is None,
            res matches Err(e) ==> is_rejection(e, intent_error(self.config(), *intent)->0),
    {
        let notional_matches = match checked_notional(
            intent.proposal.limit_price,
            intent.proposal.quantity,
        ) {
            Some(notional) => notional.0 == intent.authorized_notional.0,
            None => false,
        };
        if !notional_matches {
            return Err(rejected("authorized notional does not match price and quantity"));
        }
        if intent.proposal.mode != self.config.environment.execution_mode() {
            return Err(rejected("order execution mode does not match Alpaca environment"));
        }
        if !str_eq(intent.proposal.venue.as_str(), self.config.venue.as_str()) || !str_eq(
            intent.proposal.currency.as_str(),
            "USD",
        ) {
            return Err(rejected("order does not target the configured Alpaca USD venue"));
        }
        validate_client_order_id(intent.client_order_id.as_str())?;
        Ok(())
    }
}

/// Why an order intent cannot be sent to a configured broker, checked in order.
pub open spec fn intent_error(config: AlpacaConfig, intent: OrderIntent) -> Option<Seq<char>> {
    if !(notional_of(intent.proposal.limit_price.0 as nat, intent.proposal.quantity.0 as nat)
        matches Some(n) && n == intent.authorized_notional.0) {
        Some("authorized notional does not match price and quantity"@)
    } else if intent.proposal.mode != config.environment.spec_execution_mode() {
        Some("order execution mode does not match Alpaca environment"@)
    } else if intent.proposal.venue@ != config.venue@ || intent.proposal.currency@ != "USD"@ {
        Some("order does not target the configured Alpaca USD venue"@)
    } else if !valid_client_order_id_bytes(text_bytes(intent.client_order_id@)) {
        Some(client_order_id_message())
    } else {
        None
    }
}



// ---------------------------------------------------------------------------------------------
// Request framing
// ---------------------------------------------------------------------------------------------

pub open spec fn side_name(s: Side) -> Seq<char> {
    match s {
        Side::Buy => "buy"@,
        Side::Sell => "sell"@,
    }
}

pub open spec fn order_type_name(t: AlpacaOrderType) -> Seq<char> {
    match t {
        AlpacaOrderType::Market => "market"@,
        AlpacaOrderType::Limit => "limit"@,
    }
}

pub open spec fn time_in_force_name(t: AlpacaTimeInForce) -> Seq<char> {
    match t {
        AlpacaTimeInForce::Day => "day"@,
        AlpacaTimeInForce::GoodTilCanceled => "gtc"@,
        AlpacaTimeInForce::ImmediateOrCancel => "ioc"@,
        AlpacaTimeInForce::FillOrKill => "fok"@,
    }
}

/// The text of a broker decimal.
pub open spec fn decimal_chars(d: BrokerDecimal) -> Seq<char> {
    decode_utf8(d@)
}

/// `"name":value`.
pub open spec fn json_member(name: Seq<char>, value: Seq<u8>) -> Seq<u8> {
    json_string_literal(name) + seq![58u8] + value
}

/// `"name":"text"`.
pub open spec fn text_member(name: Seq<char>, text: Seq<char>) -> Seq<u8> {
    json_member(name, json_string_literal(text))
}

pub open spec fn json_bool(b: bool) -> Seq<u8> {
    if b {
        seq![116u8, 114u8, 117u8, 101u8]
    } else {
        seq![102u8, 97u8, 108u8, 115u8, 101u8]
    }
}

/// The JSON body that places an order: `symbol`, `qty`, `side`, `type`, `time_in_force`,
/// `client_order_id` and `extended_hours`, then `limit_price` when there is one.
pub open spec fn place_order_json(r: AlpacaOrderRequest) -> Seq<u8> {
    seq![123u8] + text_member("symbol"@, r.symbol@) + seq![44u8] + text_member(
        "qty"@,
        decimal_chars(r.quantity),
    ) + seq![44u8] + text_member("side"@, side_name(r.side)) + seq![44u8] + text_member(
        "type"@,
        order_type_name(r.order_type),
    ) + seq![44u8] + text_member("time_in_force"@, time_in_force_name(r.time_in_force)) + seq![
        44u8,
    ] + text_member("client_order_id"@, r.client_order_id@) + seq![44u8] + json_member(
        "extended_hours"@,
        json_bool(r.extended_hours),
    ) + match r.limit_price {
        Some(p) => seq![44u8] + text_member("limit_price"@, decimal_chars(p)),
        None => Seq::<u8>::empty(),
    } + seq![125u8]
}

/// The optional members of a replacement, each followed by a comma.
pub open spec fn optional_member(name: Seq<char>, text: Option<Seq<char>>) -> Seq<u8> {
    match text {
        Some(t) => text_member(name, t) + seq![44u8],
        None => Seq::<u8>::empty(),
    }
}

/// The JSON body that replaces an order: `qty`, `limit_price` and `time_in_force` when given,
/// then `client_order_id`.
pub open spec fn replace_order_json(
    quantity: Option<BrokerDecimal>,
    limit_price: Option<BrokerDecimal>,
    time_in_force: Option<AlpacaTimeInForce>,
    client_order_id: Seq<char>,
) -> Seq<u8> {
    seq![123u8] + optional_member(
        "qty"@,
        match quantity {
            Some(q) => Some(decimal_chars(q)),
            None => None,
        },
    ) + optional_member(
        "limit_price"@,
        match limit_price {
            Some(p) => Some(decimal_chars(p)),
            None => None,
        },
    ) + optional_member(
        "time_in_force"@,
        match time_in_force {
            Some(t) => Some(time_in_force_name(t)),
            None => None,
        },
    ) + text_member("client_order_id"@, client_order_id) + seq![125u8]
}

fn push_text_member(out: &mut Vec<u8>, name: &str, text: &str)
    ensures
        final(out)@ == old(out)@ + text_member(name@, text@),
{
    write_json_string(out, name);
    out.push(58);
    write_json_string(out, text);
    assert(final(out)@ =~= old(out)@ + text_member(name@, text@));
}

fn decimal_str(d: &BrokerDecimal) -> (res: &str)
    ensures
        res@ == decimal_chars(*d),
{
    d.as_str()
}

/// The body that places `order`.
pub fn place_order_body(order: &AlpacaOrderRequest) -> (res: Vec<u8>)
    ensures
        res@ == place_order_json(*order),
{
    let ghost r = *order;
    let mut out: Vec<u8> = Vec::new();
    out.push(123);
    push_text_member(&mut out, "symbol", order.symbol.as_str());
    out.push(44);
    assert(out@ =~= seq![123u8] + text_member("symbol"@, r.symbol@) + seq![44u8]);
    let ghost p1 = out@;
    push_text_member(&mut out, "qty", decimal_str(&order.quantity));
    out.push(44);
    let s = side(order.side);
    assert(s@ == side_name(r.side));
    push_text_member(&mut out, "side", s);
    out.push(44);
    assert(out@ =~= p1 + text_member("qty"@, decimal_chars(r.quantity)) + seq![44u8]
        + text_member("side"@, side_name(r.side)) + seq![44u8]);
    let ghost p2 = out@;
    let t = order.order_type.as_api_str();
    assert(t@ == order_type_name(r.order_type));
    push_text_member(&mut out, "type", t);
    out.push(44);
    let f = order.time_in_force.as_api_str();
    assert(f@ == time_in_force_name(r.time_in_force));
    push_text_member(&mut out, "time_in_force", f);
    out.push(44);
    assert(out@ =~= p2 + text_member("type"@, order_type_name(r.order_type)) + seq![44u8]
        + text_member("time_in_force"@, time_in_force_name(r.time_in_force)) + seq![44u8]);
    let ghost p3 = out@;
    push_text_member(&mut out, "client_order_id", order.client_order_id.as_str());
    out.push(44);
    write_json_string(&mut out, "extended_hours");
    out.push(58);
    if order.extended_hours {
        out.push(116);
        out.push(114);
        out.push(117);
        out.push(101);
    } else {
        out.push(102);
        out.push(97);
        out.push(108);
        out.push(115);
        out.push(101);
    }
    assert(out@ =~= p3 + text_member("client_order_id"@, r.client_order_id@) + seq![44u8]
        + json_member("extended_hours"@, json_bool(r.extended_hours)));
    let ghost p4 = out@;
    match &order.limit_price {
        Some(p) => {
            out.push(44);
            push_text_member(&mut out, "limit_price", decimal_str(p));
            assert(out@ =~= p4 + (seq![44u8] + text_member("limit_price"@, decimal_chars(*p))));
        },
        None => {
            assert(out@ =~= p4 + Seq::<u8>::empty());
        },
    }
    let ghost p5 = out@;
    out.push(125);
    assert(out@ =~= p5 + seq![125u8]);
    out
}

/// The body that replaces an order.
pub fn replace_order_body(
    quantity: Option<&BrokerDecimal>,
    limit_price: Option<&BrokerDecimal>,
    time_in_force: Option<AlpacaTimeInForce>,
    client_order_id: &str,
) -> (res: Vec<u8>)
    ensures
        res@ == replace_order_json(
            match quantity {
                Some(q) => Some(*q),
                None => None,
            },
            match limit_price {
                Some(p) => Some(*p),
                None => None,
            },
            time_in_force,
            client_order_id@,
        ),
{
    let mut out: Vec<u8> = Vec::new();
    out.push(123);
    match quantity {
        Some(q) => {
            push_text_member(&mut out, "qty", decimal_str(q));
            out.push(44);
        },
        None => {},
    }
    match limit_price {
        Some(p) => {
            push_text_member(&mut out, "limit_price", decimal_str(p));
            out.push(44);
        },
        None => {},
    }
    match time_in_force {
        Some(t) => {
            push_text_member(&mut out, "time_in_force", t.as_api_str());
            out.push(44);
        },
        None => {},
    }
    push_text_member(&mut out, "client_order_id", client_order_id);
    out.push(125);
    assert(out@ =~= replace_order_json(
        match quantity {
            Some(q) => Some(*q),
            None => None,
        },
        match limit_price {
            Some(p) => Some(*p),
            None => None,
        },
        time_in_force,
        client_order_id@,
    ));
    out
}

// ---------------------------------------------------------------------------------------------
// Request paths
// ---------------------------------------------------------------------------------------------

/// One page of open orders, oldest first, after the order with id `after` when given.
pub open spec fn open_orders_path(page_size: nat, after: Option<Seq<char>>) -> Seq<u8> {
    text_bytes("/v2/orders?status=open&limit="@) + nat_digits(page_size) + text_bytes(
        "&direction=asc&nested=false"@,
    ) + match after {
        Some(id) => text_bytes("&after_order_id="@) + percent_encoded(text_bytes(id)),
        None => Seq::<u8>::empty(),
    }
}

/// One page of fill activities, oldest first, from the page token when given.
pub open spec fn fills_path(page_size: nat, token: Option<Seq<char>>) -> Seq<u8> {
    text_bytes("/v2/account/activities/FILL?direction=asc&page_size="@) + nat_digits(page_size)
        + match token {
        Some(t) => text_bytes("&page_token="@) + percent_encoded(text_bytes(t)),
        None => Seq::<u8>::empty(),
    }
}

/// The order with a client order identity.
pub open spec fn lookup_path(client_order_id: Seq<char>) -> Seq<u8> {
    text_bytes("/v2/orders:by_client_order_id?client_order_id="@) + percent_encoded(
        text_bytes(client_order_id),
    )
}

/// The order with a broker order identity, taken as it is.
pub open spec fn order_path(broker_order_id: Seq<char>) -> Seq<u8> {
    text_bytes("/v2/orders/"@) + text_bytes(broker_order_id)
}

fn start_text() -> (res: Vec<u8>)
    ensures
        res@.len() == 0,
        valid_utf8(res@),
{
    let out: Vec<u8> = Vec::new();
    assert(out@ =~= encode_utf8(Seq::<char>::empty()));
    out
}

pub fn open_orders_page_path(page_size: usize, after: Option<&String>) -> (res: String)
    ensures
        text_bytes(res@) == open_orders_path(
            page_size as nat,
            match after {
                Some(a) => Some(a@),
                None => None,
            },
        ),
{
    let mut out = start_text();
    push_str(&mut out, "/v2/orders?status=open&limit=");
    push_number(&mut out, page_size as u64);
    push_str(&mut out, "&direction=asc&nested=false");
    match after {
        Some(id) => {
            push_str(&mut out, "&after_order_id=");
            let encoded = percent_encode(id.as_str());
            push_str(&mut out, encoded.as_str());
        },
        None => {},
    }
    assert(out@ =~= open_orders_path(
        page_size as nat,
        match after {
            Some(a) => Some(a@),
            None => None,
        },
    ));
    utf8_string(out)
}

pub fn fills_page_path(page_size: usize, token: Option<&String>) -> (res: String)
    ensures
        text_bytes(res@) == fills_path(
            page_size as nat,
            match token {
                Some(t) => Some(t@),
                None => None,
            },
        ),
{
    let mut out = start_text();
    push_str(&mut out, "/v2/account/activities/FILL?direction=asc&page_size=");
    push_number(&mut out, page_size as u64);
    match token {
        Some(t) => {
            push_str(&mut out, "&page_token=");
            let encoded = percent_encode(t.as_str());
            push_str(&mut out, encoded.as_str());
        },
        None => {},
    }
    assert(out@ =~= fills_path(
        page_size as nat,
        match token {
            Some(t) => Some(t@),
            None => None,
        },
    ));
    utf8_string(out)
}

pub fn lookup_order_path(client_order_id: &str) -> (res: String)
    ensures
        text_bytes(res@) == lookup_path(client_order_id@),
{
    let mut out = start_text();
    push_str(&mut out, "/v2/orders:by_client_order_id?client_order_id=");
    let encoded = percent_encode(client_order_id);
    push_str(&mut out, encoded.as_str());
    assert(out@ =~= lookup_path(client_order_id@));
    utf8_string(out)
}

pub fn broker_order_path(broker_order_id: &str) -> (res: String)
    ensures
        text_bytes(res@) == order_path(broker_order_id@),
{
    let mut out = start_text();
    push_str(&mut out, "/v2/orders/");
    push_str(&mut out, broker_order_id);
    assert(out@ =~= order_path(broker_order_id@));
    utf8_string(out)
}


// ---------------------------------------------------------------------------------------------
// Outcomes: what the library makes of each response
// ---------------------------------------------------------------------------------------------

pub open spec fn identity_mismatch_message() -> Seq<char> {
    "Alpaca returned a different client order identity"@
}

/// The order carries another client identity than the one expected.
pub open spec fn identity_differs(o: ApiOrder, identity: Option<Seq<char>>) -> bool {
    match identity {
        Some(c) => o.client_order_id@ != c,
        None => false,
    }
}

/// The snapshot of an API order with no executions, or its refusal.
pub open spec fn normalized_outcome(o: ApiOrder, res: Result<BrokerOrderSnapshot, BrokerError>) -> bool {
    match order_error(o) {
        Some(m) => res matches Err(e) && is_rejection(e, m),
        None => res matches Ok(s) && order_fields_match(o, s) && s.executions@.len() == 0,
    }
}

/// A response read as one API order with an expected status, then turned into a result by
/// `normalized_outcome`, or into the identity refusal when `identity` is given and differs.
pub open spec fn order_response_outcome(
    response: HttpResponse,
    expected: Seq<u16>,
    identity: Option<Seq<char>>,
    res: Result<BrokerOrderSnapshot, BrokerError>,
) -> bool {
    match response_json(response, expected) {
        Err(t) => res matches Err(e) && fails_with(e, t),
        Ok(v) => if !api_order_decodable(v) {
            res matches Err(e) && fails_with(e, invalid_json_text())
        } else {
            exists|o: ApiOrder|
                #[trigger] api_order_decodes(v, o) && if order_error(o) is None && identity_differs(
                    o,
                    identity,
                ) {
                    res matches Err(e) && is_rejection(e, identity_mismatch_message())
                } else {
                    normalized_outcome(o, res)
                }
        },
    }
}

/// A placement response: 200 or 201, with the submitted client identity.
pub open spec fn placement_outcome(
    response: HttpResponse,
    client_order_id: Seq<char>,
    res: Result<BrokerOrderSnapshot, BrokerError>,
) -> bool {
    order_response_outcome(response, seq![200u16, 201u16], Some(client_order_id), res)
}

/// A replacement response: 200.
pub open spec fn replacement_outcome(
    response: HttpResponse,
    res: Result<BrokerOrderSnapshot, BrokerError>,
) -> bool {
    order_response_outcome(response, seq![200u16], None, res)
}

/// The order a placement response reports; it must carry the submitted client identity.
pub fn submitted_order(response: HttpResponse, client_order_id: &str) -> (res: Result<
    BrokerOrderSnapshot,
    BrokerError,
>)
    ensures
        placement_outcome(response, client_order_id@, res),
{
    let expected: [u16; 2] = [200, 201];
    assert(expected@ =~= seq![200u16, 201u16]);
    let order = read_order(response, &expected)?;
    let snapshot = normalize_order(&order, Vec::new())?;
    if !str_eq(snapshot.acknowledgement.client_order_id.as_str(), client_order_id) {
        return Err(rejected("Alpaca returned a different client order identity"));
    }
    Ok(snapshot)
}

/// The order a replacement response reports.
pub fn replaced_order(response: HttpResponse) -> (res: Result<BrokerOrderSnapshot, BrokerError>)
    ensures
        replacement_outcome(response, res),
{
    let expected: [u16; 1] = [200];
    assert(expected@ =~= seq![200u16]);
    let order = read_order(response, &expected)?;
    normalize_order(&order, Vec::new())
}

/// A response read as an account.
pub open spec fn account_outcome(response: HttpResponse, res: Result<AlpacaAccount, BrokerError>) -> bool {
    match response_json(response, seq![200u16]) {
        Err(t) => res matches Err(e) && fails_with(e, t),
        Ok(v) => if !crate::broker::api_account_decodable(v) {
            res matches Err(e) && fails_with(e, invalid_json_text())
        } else {
            exists|a: ApiAccount|
                #[trigger] api_account_decodes(v, a) && if account_decimals_ok(a) {
                    res matches Ok(r) && account_matches(a, r)
                } else {
                    res matches Err(e) && is_rejection(e, invalid_signed_message())
                }
        },
    }
}

pub fn account_from_response(response: HttpResponse) -> (res: Result<AlpacaAccount, BrokerError>)
    ensures
        account_outcome(response, res),
{
    let account = read_account(response)?;
    normalize_account(account)
}

/// Every position of a list has valid decimals.
pub open spec fn all_positions_ok(ps: Seq<ApiPosition>) -> bool {
    forall|i: int| 0 <= i < ps.len() ==> position_decimals_ok(#[trigger] ps[i])
}

/// A response read as a list of positions.
pub open spec fn positions_outcome(
    response: HttpResponse,
    res: Result<Vec<AlpacaPosition>, BrokerError>,
) -> bool {
    match response_json(response, seq![200u16]) {
        Err(t) => res matches Err(e) && fails_with(e, t),
        Ok(v) => if !crate::responses::positions_decodable(v) {
            res matches Err(e) && fails_with(e, invalid_json_text())
        } else {
            exists|ps: Vec<ApiPosition>|
                #[trigger] positions_decode(v, ps) && if all_positions_ok(ps@) {
                    res matches Ok(rs) && rs@.len() == ps@.len() && forall|i: int|
                        0 <= i < ps@.len() ==> position_matches(ps@[i], #[trigger] rs@[i])
                } else {
                    res matches Err(e) && is_rejection(e, invalid_signed_message())
                }
        },
    }
}

/// Normalizes a list of positions; the first invalid decimal refuses the whole list.
#[verifier::rlimit(40)]
pub fn normalize_positions(positions: &Vec<ApiPosition>) -> (res: Result<
    Vec<AlpacaPosition>,
    BrokerError,
>)
    ensures
        if all_positions_ok(positions@) {
            res matches Ok(rs) && rs@.len() == positions@.len() && forall|i: int|
                0 <= i < positions@.len() ==> position_matches(positions@[i], #[trigger] rs@[i])
        } else {
            res matches Err(e) && is_rejection(e, invalid_signed_message())
        },
{
    let mut out: Vec<AlpacaPosition> = Vec::new();
    let mut i: usize = 0;
    while i < positions.len()
        invariant
            i <= positions.len(),
            out@.len() == i,
            forall|j: int| 0 <= j < i ==> position_decimals_ok(#[trigger] positions@[j]),
            forall|j: int| 0 <= j < i ==> position_matches(positions@[j], #[trigger] out@[j]),
        decreases positions.len() - i,
    {
        match normalize_position(&positions[i]) {
            Ok(r) => out.push(r),
            Err(e) => {
                assert(!position_decimals_ok(positions@[i as int]));
                return Err(e);
            },
        }
        i = i + 1;
    }
    Ok(out)
}

pub fn positions_from_response(response: HttpResponse) -> (res: Result<
    Vec<AlpacaPosition>,
    BrokerError,
>)
    ensures
        positions_outcome(response, res),
{
    let positions = read_positions(response)?;
    normalize_positions(&positions)
}

/// Every order before index `i` can be normalized.
pub open spec fn orders_ok_before(os: Seq<ApiOrder>, i: int) -> bool {
    forall|j: int| 0 <= j < i ==> #[trigger] order_error(os[j]) is None
}

/// The normalization of a list of orders, each with no executions: the first order that cannot
/// be normalized refuses the whole list with its own reason.
pub open spec fn orders_normalized(os: Seq<ApiOrder>, res: Result<Vec<BrokerOrderSnapshot>, BrokerError>) -> bool {
    &&& res is Ok <==> orders_ok_before(os, os.len() as int)
    &&& res matches Ok(ss) ==> ss@.len() == os.len() && forall|i: int|
        0 <= i < os.len() ==> order_fields_match(os[i], #[trigger] ss@[i]) && ss@[i].executions@.len()
            == 0
    &&& res matches Err(e) ==> exists|i: int|
        0 <= i < os.len() && orders_ok_before(os, i) && (#[trigger] order_error(os[i]) matches Some(
            m,
        ) && is_rejection(e, m))
}

#[verifier::spinoff_prover]
#[verifier::rlimit(30)]
pub fn normalize_orders(orders: &Vec<ApiOrder>) -> (res: Result<Vec<BrokerOrderSnapshot>, BrokerError>)
    ensures
        orders_normalized(orders@, res),
{
    let mut out: Vec<BrokerOrderSnapshot> = Vec::new();
    let mut i: usize = 0;
    while i < orders.len()
        invariant
            i <= orders.len(),
            out@.len() == i,
            orders_ok_before(orders@, i as int),
            forall|j: int|
                0 <= j < i ==> order_fields_match(orders@[j], #[trigger] out@[j])
                    && out@[j].executions@.len() == 0,
        decreases orders.len() - i,
    {
        match normalize_order(&orders[i], Vec::new()) {
            Ok(snapshot) => out.push(snapshot),
            Err(e) => {
                assert(order_error(orders@[i as int]) is Some);
                return Err(e);
            },
        }
        i = i + 1;
    }
    Ok(out)
}

/// A page of orders: the snapshots, how many orders the page held, and the identity of its last
/// order.
pub open spec fn order_page_outcome(
    response: HttpResponse,
    res: Result<(Vec<BrokerOrderSnapshot>, usize, Option<String>), BrokerError>,
) -> bool {
    match response_json(response, seq![200u16]) {
        Err(t) => res matches Err(e) && fails_with(e, t),
        Ok(v) => if !crate::responses::orders_decodable(v) {
            res matches Err(e) && fails_with(e, invalid_json_text())
        } else {
            exists|os: Vec<ApiOrder>|
                #[trigger] orders_decode(v, os) && orders_normalized(
                    os@,
                    match res {
                        Ok((ss, _, _)) => Ok(ss),
                        Err(e) => Err(e),
                    },
                ) && (res matches Ok((_, count, last)) ==> count == os@.len() && if os@.len()
                    == 0 {
                    last is None
                } else {
                    last == Some(os@.last().id)
                })
        },
    }
}

pub fn order_page(response: HttpResponse) -> (res: Result<
    (Vec<BrokerOrderSnapshot>, usize, Option<String>),
    BrokerError,
>)
    ensures
        order_page_outcome(response, res),
{
    let orders = read_orders(response)?;
    let count = orders.len();
    let last = if count == 0 {
        None
    } else {
        Some(orders[count - 1].id.clone())
    };
    let snapshots = normalize_orders(&orders)?;
    Ok((snapshots, count, last))
}

/// The fill activities of one order, in page order.
pub open spec fn matching_fills(fs: Seq<ApiFillActivity>, order_id: Seq<char>) -> Seq<
    ApiFillActivity,
>
    decreases fs.len(),
{
    if fs.len() == 0 {
        fs
    } else if fs.last().order_id@ == order_id {
        matching_fills(fs.drop_last(), order_id).push(fs.last())
    } else {
        matching_fills(fs.drop_last(), order_id)
    }
}

/// The executions of a list of fill activities: those of the order, each with valid decimals.
pub open spec fn fills_converted(
    fs: Seq<ApiFillActivity>,
    order_id: Seq<char>,
    res: Result<Vec<BrokerExecution>, BrokerError>,
) -> bool {
    let m = matching_fills(fs, order_id);
    if forall|k: int| 0 <= k < m.len() ==> crate::broker::fill_decimals_ok(#[trigger] m[k]) {
        res matches Ok(xs) && xs@.len() == m.len() && forall|k: int|
            0 <= k < m.len() ==> crate::broker::fill_matches(m[k], #[trigger] xs@[k])
    } else {
        res matches Err(e) && is_rejection(e, invalid_decimal_message())
    }
}

pub fn executions_for_order(fills: &Vec<ApiFillActivity>, order_id: &str) -> (res: Result<
    Vec<BrokerExecution>,
    BrokerError,
>)
    ensures
        fills_converted(fills@, order_id@, res),
{
    let mut out: Vec<BrokerExecution> = Vec::new();
    let mut i: usize = 0;
    while i < fills.len()
        invariant
            i <= fills.len(),
            out@.len() == matching_fills(fills@.take(i as int), order_id@).len(),
            forall|k: int|
                0 <= k < out@.len() ==> crate::broker::fill_decimals_ok(
                    #[trigger] matching_fills(fills@.take(i as int), order_id@)[k],
                ),
            forall|k: int|
                0 <= k < out@.len() ==> crate::broker::fill_matches(
                    matching_fills(fills@.take(i as int), order_id@)[k],
                    #[trigger] out@[k],
                ),
        decreases fills.len() - i,
    {
        let ghost before = matching_fills(fills@.take(i as int), order_id@);
        assert(fills@.take(i + 1).drop_last() =~= fills@.take(i as int));
        assert(fills@.take(i + 1).last() == fills@[i as int]);
        if str_eq(fills[i].order_id.as_str(), order_id) {
            assert(matching_fills(fills@.take(i + 1), order_id@) == before.push(fills@[i as int]));
            match fill_execution(&fills[i]) {
                Ok(x) => out.push(x),
                Err(e) => {
                    proof {
                        let m = matching_fills(fills@.take(i + 1), order_id@);
                        let mfull = matching_fills(fills@, order_id@);
                        lemma_matching_fills_prefix(fills@, order_id@, i + 1);
                        assert(m[before.len() as int] == fills@[i as int]);
                        assert(mfull[before.len() as int] == m[before.len() as int]);
                        assert(!crate::broker::fill_decimals_ok(mfull[before.len() as int]));
                    }
                    return Err(e);
                },
            }
        } else {
            assert(matching_fills(fills@.take(i + 1), order_id@) == before);
        }
        i = i + 1;
    }
    assert(fills@.take(fills.len() as int) =~= fills@);
    Ok(out)
}

/// The matching activities of a prefix are a prefix of the matching activities.
proof fn lemma_matching_fills_prefix(fs: Seq<ApiFillActivity>, order_id: Seq<char>, n: int)
    requires
        0 <= n <= fs.len(),
    ensures
        matching_fills(fs.take(n), order_id).len() <= matching_fills(fs, order_id).len(),
        forall|k: int|
            0 <= k < matching_fills(fs.take(n), order_id).len() ==> #[trigger] matching_fills(
                fs,
                order_id,
            )[k] == matching_fills(fs.take(n), order_id)[k],
    decreases fs.len() - n,
{
    if n < fs.len() {
        lemma_matching_fills_prefix(fs, order_id, n + 1);
        assert(fs.take(n + 1).drop_last() =~= fs.take(n));
    } else {
        assert(fs.take(n) =~= fs);
    }
}

/// A page of fill activities: the executions of the order, how many activities the page held,
/// and the identity of its last activity.
pub open spec fn fill_page_outcome(
    response: HttpResponse,
    order_id: Seq<char>,
    res: Result<(Vec<BrokerExecution>, usize, Option<String>), BrokerError>,
) -> bool {
    match response_json(response, seq![200u16]) {
        Err(t) => res matches Err(e) && fails_with(e, t),
        Ok(v) => if !crate::responses::fills_decodable(v) {
            res matches Err(e) && fails_with(e, invalid_json_text())
        } else {
            exists|fs: Vec<ApiFillActivity>|
                #[trigger] fills_decode(v, fs) && fills_converted(
                    fs@,
                    order_id,
                    match res {
                        Ok((xs, _, _)) => Ok(xs),
                        Err(e) => Err(e),
                    },
                ) && (res matches Ok((_, count, last)) ==> count == fs@.len() && if fs@.len()
                    == 0 {
                    last is None
                } else {
                    last == Some(fs@.last().id)
                })
        },
    }
}

pub fn fill_page(response: HttpResponse, order_id: &str) -> (res: Result<
    (Vec<BrokerExecution>, usize, Option<String>),
    BrokerError,
>)
    ensures
        fill_page_outcome(response, order_id@, res),
{
    let fills = read_fills(response)?;
    let count = fills.len();
    let last = if count == 0 {
        None
    } else {
        Some(fills[count - 1].id.clone())
    };
    let executions = executions_for_order(&fills, order_id)?;
    Ok((executions, count, last))
}

/// A lookup by client identity: no order on 404, else the order the response carries.
pub open spec fn lookup_outcome(response: HttpResponse, res: Result<Option<ApiOrder>, BrokerError>) -> bool {
    if response.status == 404 {
        res matches Ok(None)
    } else {
        match response_json(response, seq![200u16]) {
            Err(t) => res matches Err(e) && fails_with(e, t),
            Ok(v) => if !api_order_decodable(v) {
                res matches Err(e) && fails_with(e, invalid_json_text())
            } else {
                res matches Ok(Some(o)) && api_order_decodes(v, o)
            },
        }
    }
}

pub fn looked_up_order(response: HttpResponse) -> (res: Result<Option<ApiOrder>, BrokerError>)
    ensures
        lookup_outcome(response, res),
{
    if response.status == 404 {
        return Ok(None);
    }
    let expected: [u16; 1] = [200];
    assert(expected@ =~= seq![200u16]);
    let order = read_order(response, &expected)?;
    Ok(Some(order))
}

/// A cancellation is acknowledged by 204; any other status is refused.
pub fn cancel_acknowledged(response: HttpResponse) -> (res: Result<(), BrokerError>)
    ensures
        response.status == 204 ==> res is Ok,
        response.status != 204 ==> (res matches Err(e) && fails_with(
            e,
            rejection_text(response.status, response.body@),
        )),
{
    if response.status != 204 {
        return Err(api_rejection(response));
    }
    Ok(())
}


// ---------------------------------------------------------------------------------------------
// Request path validity
// ---------------------------------------------------------------------------------------------

/// No carriage return or line feed.
pub open spec fn no_line_break(b: Seq<u8>) -> bool {
    forall|i: int| 0 <= i < b.len() ==> #[trigger] b[i] != 13 && b[i] != 10
}

proof fn lemma_literal_bytes(s: &str)
    requires
        s.is_ascii(),
    ensures
        text_bytes(s@) =~= Seq::new(s@.len(), |i: int| s@[i] as u8),
{
    assert(s.spec_bytes() =~= Seq::new(s@.len(), |i: int| s@[i] as u8));
}

proof fn lemma_path_extend(a: Seq<u8>, b: Seq<u8>)
    requires
        valid_request_path(a),
        a.len() >= 2,
        no_line_break(b),
    ensures
        valid_request_path(a + b),
{
    assert forall|i: int| 0 <= i < (a + b).len() implies #[trigger] (a + b)[i] != 13 && (a
        + b)[i] != 10 by {
        if i < a.len() {
            assert((a + b)[i] == a[i]);
        } else {
            assert((a + b)[i] == b[i - a.len()]);
        }
    }
}

proof fn lemma_no_line_break_concat(a: Seq<u8>, b: Seq<u8>)
    requires
        no_line_break(a),
        no_line_break(b),
    ensures
        no_line_break(a + b),
{
    assert forall|i: int| 0 <= i < (a + b).len() implies #[trigger] (a + b)[i] != 13 && (a
        + b)[i] != 10 by {
        if i < a.len() {
            assert((a + b)[i] == a[i]);
        } else {
            assert((a + b)[i] == b[i - a.len()]);
        }
    }
}

proof fn lemma_digits_no_line_break(n: nat)
    ensures
        no_line_break(nat_digits(n)),
{
    crate::text::lemma_nat_digits_shape(n);
    assert forall|i: int| 0 <= i < nat_digits(n).len() implies #[trigger] nat_digits(n)[i] != 13
        && nat_digits(n)[i] != 10 by {
        assert(crate::text::is_digit(nat_digits(n)[i]));
    }
}

proof fn lemma_percent_encoded_no_line_break(b: Seq<u8>)
    ensures
        no_line_break(percent_encoded(b)),
    decreases b.len(),
{
    if b.len() > 0 {
        lemma_percent_encoded_no_line_break(b.drop_last());
        let x = b.last();
        let tail = crate::alpaca::percent_encode_byte(x);
        assert(no_line_break(tail)) by {
            if crate::alpaca::is_unreserved(x) {
            } else {
                assert(x / 16 < 16 && x % 16 < 16);
            }
        }
        lemma_no_line_break_concat(percent_encoded(b.drop_last()), tail);
    }
}

proof fn lemma_constant_paths_valid()
    ensures
        valid_request_path(text_bytes(ORDERS_PATH@)),
        valid_request_path(text_bytes(ACCOUNT_PATH@)),
        valid_request_path(text_bytes(POSITIONS_PATH@)),
{
    reveal_strlit("/v2/orders");
    reveal_strlit("/v2/account");
    reveal_strlit("/v2/positions");
    lemma_literal_bytes(ORDERS_PATH);
    lemma_literal_bytes(ACCOUNT_PATH);
    lemma_literal_bytes(POSITIONS_PATH);
}

proof fn lemma_lookup_path_valid(client_order_id: Seq<char>)
    ensures
        valid_request_path(lookup_path(client_order_id)),
{
    let lit: &str = "/v2/orders:by_client_order_id?client_order_id=";
    reveal_strlit("/v2/orders:by_client_order_id?client_order_id=");
    lemma_literal_bytes(lit);
    lemma_percent_encoded_no_line_break(text_bytes(client_order_id));
    lemma_path_extend(text_bytes(lit@), percent_encoded(text_bytes(client_order_id)));
}

proof fn lemma_open_orders_path_valid(page_size: nat, after: Option<Seq<char>>)
    ensures
        valid_request_path(open_orders_path(page_size, after)),
{
    let a: &str = "/v2/orders?status=open&limit=";
    let b: &str = "&direction=asc&nested=false";
    let c: &str = "&after_order_id=";
    reveal_strlit("/v2/orders?status=open&limit=");
    reveal_strlit("&direction=asc&nested=false");
    reveal_strlit("&after_order_id=");
    lemma_literal_bytes(a);
    lemma_literal_bytes(b);
    lemma_literal_bytes(c);
    lemma_digits_no_line_break(page_size);
    let head = text_bytes(a@);
    lemma_path_extend(head, nat_digits(page_size));
    let h2 = head + nat_digits(page_size);
    lemma_path_extend(h2, text_bytes(b@));
    let h3 = h2 + text_bytes(b@);
    match after {
        Some(id) => {
            lemma_percent_encoded_no_line_break(text_bytes(id));
            lemma_no_line_break_concat(text_bytes(c@), percent_encoded(text_bytes(id)));
            lemma_path_extend(h3, text_bytes(c@) + percent_encoded(text_bytes(id)));
            assert(open_orders_path(page_size, after) =~= h3 + (text_bytes(c@) + percent_encoded(
                text_bytes(id),
            )));
        },
        None => {
            assert(open_orders_path(page_size, after) =~= h3);
        },
    }
}

proof fn lemma_fills_path_valid(page_size: nat, token: Option<Seq<char>>)
    ensures
        valid_request_path(fills_path(page_size, token)),
{
    let a: &str = "/v2/account/activities/FILL?direction=asc&page_size=";
    let c: &str = "&page_token=";
    reveal_strlit("/v2/account/activities/FILL?direction=asc&page_size=");
    reveal_strlit("&page_token=");
    lemma_literal_bytes(a);
    lemma_literal_bytes(c);
    lemma_digits_no_line_break(page_size);
    let head = text_bytes(a@);
    lemma_path_extend(head, nat_digits(page_size));
    let h2 = head + nat_digits(page_size);
    match token {
        Some(t) => {
            lemma_percent_encoded_no_line_break(text_bytes(t));
            lemma_no_line_break_concat(text_bytes(c@), percent_encoded(text_bytes(t)));
            lemma_path_extend(h2, text_bytes(c@) + percent_encoded(text_bytes(t)));
            assert(fills_path(page_size, token) =~= h2 + (text_bytes(c@) + percent_encoded(
                text_bytes(t),
            )));
        },
        None => {
            assert(fills_path(page_size, token) =~= h2);
        },
    }
}

// ---------------------------------------------------------------------------------------------
// Paged reads and composite operations, over the answers the transport gave
// ---------------------------------------------------------------------------------------------

/// What reading one page gives: its items, how many the page held, and the identity of its
/// last entry.
pub type PageRead<T> = Result<(Vec<T>, usize, Option<String>), BrokerError>;

/// Whether reading stops at this page: an error, or a page with fewer than `page_size` entries.
pub open spec fn page_ends<T>(p: PageRead<T>, page_size: nat) -> bool {
    match p {
        Err(_) => true,
        Ok((_, count, _)) => count < page_size,
    }
}

/// The cursor of the `k`-th page: none for the first, then the last identity of the page
/// before.
pub open spec fn page_cursor<T>(reads: Seq<PageRead<T>>, k: int) -> Option<Seq<char>> {
    if k <= 0 {
        None
    } else {
        match reads[k - 1] {
            Ok((_, _, Some(last))) => Some(last@),
            _ => None,
        }
    }
}

/// The items of the pages, in page order.
pub open spec fn page_items<T>(reads: Seq<PageRead<T>>) -> Seq<T>
    decreases reads.len(),
{
    if reads.len() == 0 {
        Seq::empty()
    } else {
        page_items(reads.drop_last()) + match reads.last() {
            Ok((items, _, _)) => items@,
            Err(_) => Seq::empty(),
        }
    }
}

/// A complete run of at most `pages` page reads: every page but the last was full, and the
/// last ends reading or is the `pages`-th.
pub open spec fn paged_run<T>(reads: Seq<PageRead<T>>, page_size: nat, pages: nat) -> bool {
    &&& 0 < reads.len() <= pages
    &&& forall|k: int| 0 <= k < reads.len() - 1 ==> !page_ends(#[trigger] reads[k], page_size)
    &&& (page_ends(reads.last(), page_size) || reads.len() == pages)
}

/// What a complete run gives: the error of its last page; the items of all pages when the last
/// is short; `Unavailable` when every page was full.
pub open spec fn paged_result<T>(reads: Seq<PageRead<T>>, page_size: nat) -> Result<
    Seq<T>,
    BrokerError,
> {
    match reads.last() {
        Err(e) => Err(e),
        Ok((_, count, _)) => if count < page_size {
            Ok(page_items(reads))
        } else {
            Err(BrokerError::Unavailable)
        },
    }
}

/// Each page read answers its request: the `k`-th request asks for the page after the `k`-th
/// cursor, and the page read is what its answer gives.
pub open spec fn pages_read<T>(
    reads: Seq<PageRead<T>>,
    sent: Seq<SentRequest>,
    received: Seq<TransportAnswer>,
    request: spec_fn(Option<Seq<char>>) -> SentRequest,
    answer: spec_fn(TransportAnswer, PageRead<T>) -> bool,
) -> bool {
    &&& sent.len() == reads.len()
    &&& received.len() == reads.len()
    &&& forall|k: int|
        0 <= k < reads.len() ==> sent[k] == request(page_cursor(reads, k)) && answer(
            received[k],
            #[trigger] reads[k],
        )
}

/// A paged read of at most `pages` pages of `page_size` with these requests and answers:
/// nothing is sent when `pages` is zero and the read is `Unavailable`; otherwise the pages of
/// a complete run, and what that run gives.
pub open spec fn paged_outcome<T>(
    page_size: nat,
    pages: nat,
    sent: Seq<SentRequest>,
    received: Seq<TransportAnswer>,
    request: spec_fn(Option<Seq<char>>) -> SentRequest,
    answer: spec_fn(TransportAnswer, PageRead<T>) -> bool,
    res: Result<Seq<T>, BrokerError>,
) -> bool {
    if pages == 0 {
        sent.len() == 0 && received.len() == 0 && res == Err::<Seq<T>, BrokerError>(
            BrokerError::Unavailable,
        )
    } else {
        exists|reads: Seq<PageRead<T>>|
            #[trigger] paged_run(reads, page_size, pages) && pages_read(
                reads,
                sent,
                received,
                request,
                answer,
            ) && res == paged_result(reads, page_size)
    }
}

/// A result's items as a sequence.
pub open spec fn items_of<T>(res: Result<Vec<T>, BrokerError>) -> Result<Seq<T>, BrokerError> {
    match res {
        Ok(v) => Ok(v@),
        Err(e) => Err(e),
    }
}

/// The request for a page of open orders.
pub open spec fn open_orders_request(c: AlpacaCredentials, page_size: nat) -> spec_fn(
    Option<Seq<char>>,
) -> SentRequest {
    |cursor: Option<Seq<char>>| get_request(c, open_orders_path(page_size, cursor))
}

/// A page of open orders read from an answer.
pub open spec fn order_page_answer() -> spec_fn(TransportAnswer, PageRead<BrokerOrderSnapshot>) -> bool {
    |t: TransportAnswer, p: PageRead<BrokerOrderSnapshot>|
        match answered(HttpMethod::Get, t) {
            Err(e) => p == Err::<(Vec<BrokerOrderSnapshot>, usize, Option<String>), BrokerError>(e),
            Ok(r) => order_page_outcome(r, p),
        }
}

/// The request for a page of fill activities.
pub open spec fn fills_request(c: AlpacaCredentials, page_size: nat) -> spec_fn(
    Option<Seq<char>>,
) -> SentRequest {
    |cursor: Option<Seq<char>>| get_request(c, fills_path(page_size, cursor))
}

/// A page of fill activities, reduced to the executions of `order_id`, read from an answer.
pub open spec fn fill_page_answer(order_id: Seq<char>) -> spec_fn(
    TransportAnswer,
    PageRead<BrokerExecution>,
) -> bool {
    |t: TransportAnswer, p: PageRead<BrokerExecution>|
        match answered(HttpMethod::Get, t) {
            Err(e) => p == Err::<(Vec<BrokerExecution>, usize, Option<String>), BrokerError>(e),
            Ok(r) => fill_page_outcome(r, order_id, p),
        }
}

/// The order with a client identity, read from the lookup answer.
pub open spec fn lookup_answer(t: TransportAnswer, found: Result<Option<ApiOrder>, BrokerError>) -> bool {
    match answered(HttpMethod::Get, t) {
        Err(e) => found == Err::<Option<ApiOrder>, BrokerError>(e),
        Ok(r) => lookup_outcome(r, found),
    }
}

/// The snapshot of an order with the executions `xs`: the order's own refusal, or its fields
/// with those executions.
pub open spec fn snapshot_with(
    o: ApiOrder,
    xs: Seq<BrokerExecution>,
    res: Result<Option<BrokerOrderSnapshot>, BrokerError>,
) -> bool {
    match order_error(o) {
        Some(m) => res matches Err(e) && is_rejection(e, m),
        None => res matches Ok(Some(s)) && order_fields_match(o, s) && s.executions@ == xs,
    }
}

/// What a fetch makes of a looked-up order with these further requests and answers: an
/// invalid filled quantity is refused; a zero one needs no fills; otherwise the fill
/// activities are read in pages and attached.
pub open spec fn fetched_from(
    c: AlpacaCredentials,
    page_size: nat,
    pages: nat,
    o: ApiOrder,
    sent: Seq<SentRequest>,
    received: Seq<TransportAnswer>,
    res: Result<Option<BrokerOrderSnapshot>, BrokerError>,
) -> bool {
    if !decimal_text_ok(o.filled_qty@) {
        sent.len() == 0 && received.len() == 0 && (res matches Err(e) && is_rejection(
            e,
            invalid_decimal_message(),
        ))
    } else if canonical_decimal(text_bytes(o.filled_qty@)) == seq![48u8] {
        sent.len() == 0 && received.len() == 0 && snapshot_with(o, Seq::empty(), res)
    } else {
        exists|fills: Result<Seq<BrokerExecution>, BrokerError>|
            #[trigger] paged_outcome(
                page_size,
                pages,
                sent,
                received,
                fills_request(c, page_size),
                fill_page_answer(o.id@),
                fills,
            ) && match fills {
                Err(e) => res == Err::<Option<BrokerOrderSnapshot>, BrokerError>(e),
                Ok(xs) => snapshot_with(o, xs, res),
            }
    }
}

/// A fetch of the order with a client identity, with these requests and answers: the lookup,
/// then, for a found order, what `fetched_from` makes of it.
pub open spec fn fetch_outcome(
    c: AlpacaCredentials,
    page_size: nat,
    pages: nat,
    client_order_id: Seq<char>,
    sent: Seq<SentRequest>,
    received: Seq<TransportAnswer>,
    res: Result<Option<BrokerOrderSnapshot>, BrokerError>,
) -> bool {
    &&& sent.len() >= 1
    &&& received.len() >= 1
    &&& sent[0] == get_request(c, lookup_path(client_order_id))
    &&& exists|found: Result<Option<ApiOrder>, BrokerError>|
        #[trigger] lookup_answer(received[0], found) && match found {
            Err(e) => sent.len() == 1 && received.len() == 1 && res == Err::<
                Option<BrokerOrderSnapshot>,
                BrokerError,
            >(e),
            Ok(None) => sent.len() == 1 && received.len() == 1 && res == Ok::<
                Option<BrokerOrderSnapshot>,
                BrokerError,
            >(None),
            Ok(Some(o)) => fetched_from(c, page_size, pages, o, sent.drop_first(), received.drop_first(), res),
        }
}

/// A `DELETE` of the order with a broker identity.
pub open spec fn delete_request(c: AlpacaCredentials, broker_order_id: Seq<char>) -> SentRequest {
    signed_request(c, HttpMethod::Delete, order_path(broker_order_id), Seq::empty())
}

/// A `PATCH` of the order with a broker identity.
pub open spec fn patch_request(c: AlpacaCredentials, broker_order_id: Seq<char>, body: Seq<u8>) -> SentRequest {
    signed_request(c, HttpMethod::Patch, order_path(broker_order_id), body)
}

/// What a cancellation does after its first fetch gave `first`, with these further requests and
/// answers: a missing order is refused, a terminal one returned as it is; otherwise the order
/// is deleted by its broker identity and, once Alpaca acknowledges that with 204, fetched
/// again and returned.
pub open spec fn cancel_after(
    c: AlpacaCredentials,
    page_size: nat,
    pages: nat,
    client_order_id: Seq<char>,
    first: Result<Option<BrokerOrderSnapshot>, BrokerError>,
    sent: Seq<SentRequest>,
    received: Seq<TransportAnswer>,
    res: Result<BrokerOrderSnapshot, BrokerError>,
) -> bool {
    match first {
        Err(e) => sent.len() == 0 && received.len() == 0 && res == Err::<BrokerOrderSnapshot, BrokerError>(e),
        Ok(None) => sent.len() == 0 && received.len() == 0 && (res matches Err(e) && is_rejection(
            e,
            "Alpaca order was not found"@,
        )),
        Ok(Some(s)) => if s.state.spec_is_terminal() {
            sent.len() == 0 && received.len() == 0 && res == Ok::<BrokerOrderSnapshot, BrokerError>(s)
        } else if !valid_request_path(order_path(s.acknowledgement.broker_order_id@)) {
            sent.len() == 0 && received.len() == 0 && (res matches Err(e) && is_rejection(
                e,
                "invalid Alpaca request path"@,
            ))
        } else {
            &&& sent.len() >= 1
            &&& received.len() >= 1
            &&& sent[0] == delete_request(c, s.acknowledgement.broker_order_id@)
            &&& match answered(HttpMethod::Delete, received[0]) {
                Err(e) => sent.len() == 1 && received.len() == 1 && res == Err::<
                    BrokerOrderSnapshot,
                    BrokerError,
                >(e),
                Ok(r) => if r.status != 204 {
                    sent.len() == 1 && received.len() == 1 && (res matches Err(e) && fails_with(
                        e,
                        rejection_text(r.status, r.body@),
                    ))
                } else {
                    exists|again: Result<Option<BrokerOrderSnapshot>, BrokerError>|
                        #[trigger] fetch_outcome(
                            c,
                            page_size,
                            pages,
                            client_order_id,
                            sent.drop_first(),
                            received.drop_first(),
                            again,
                        ) && match again {
                            Err(e) => res == Err::<BrokerOrderSnapshot, BrokerError>(e),
                            Ok(None) => res matches Err(e) && is_rejection(
                                e,
                                "Alpaca order disappeared after cancel acknowledgement"@,
                            ),
                            Ok(Some(a)) => res == Ok::<BrokerOrderSnapshot, BrokerError>(a),
                        }
                },
            }
        },
    }
}

/// A cancellation with these requests and answers: a fetch of the order over the first `n`,
/// then what `cancel_after` makes of it over the rest.
pub open spec fn cancel_outcome(
    c: AlpacaCredentials,
    page_size: nat,
    pages: nat,
    client_order_id: Seq<char>,
    sent: Seq<SentRequest>,
    received: Seq<TransportAnswer>,
    res: Result<BrokerOrderSnapshot, BrokerError>,
) -> bool {
    exists|n: int, first: Result<Option<BrokerOrderSnapshot>, BrokerError>|
        0 <= n <= sent.len() && n <= received.len() && #[trigger] fetch_outcome(
            c,
            page_size,
            pages,
            client_order_id,
            sent.subrange(0, n),
            received.subrange(0, n),
            first,
        ) && cancel_after(
            c,
            page_size,
            pages,
            client_order_id,
            first,
            sent.subrange(n, sent.len() as int),
            received.subrange(n, received.len() as int),
            res,
        )
}

/// What a replacement does after its fetch gave `first`: a missing or terminal order is
/// refused; otherwise the order is patched by its broker identity with `body`, and the answer
/// read.
pub open spec fn replace_after(
    c: AlpacaCredentials,
    body: Seq<u8>,
    first: Result<Option<BrokerOrderSnapshot>, BrokerError>,
    sent: Seq<SentRequest>,
    received: Seq<TransportAnswer>,
    res: Result<BrokerOrderSnapshot, BrokerError>,
) -> bool {
    match first {
        Err(e) => sent.len() == 0 && received.len() == 0 && res == Err::<BrokerOrderSnapshot, BrokerError>(e),
        Ok(None) => sent.len() == 0 && received.len() == 0 && (res matches Err(e) && is_rejection(
            e,
            "Alpaca order was not found"@,
        )),
        Ok(Some(s)) => if s.state.spec_is_terminal() {
            sent.len() == 0 && received.len() == 0 && (res matches Err(e) && is_rejection(
                e,
                "terminal Alpaca order cannot be replaced"@,
            ))
        } else if !valid_request_path(order_path(s.acknowledgement.broker_order_id@)) {
            sent.len() == 0 && received.len() == 0 && (res matches Err(e) && is_rejection(
                e,
                "invalid Alpaca request path"@,
            ))
        } else {
            &&& sent == seq![patch_request(c, s.acknowledgement.broker_order_id@, body)]
            &&& received.len() == 1
            &&& match answered(HttpMethod::Patch, received[0]) {
                Err(e) => res == Err::<BrokerOrderSnapshot, BrokerError>(e),
                Ok(r) => replacement_outcome(r, res),
            }
        },
    }
}

/// A replacement with these requests and answers: a fetch of the order over the first `n`,
/// then what `replace_after` makes of it over the rest.
pub open spec fn replace_outcome(
    c: AlpacaCredentials,
    page_size: nat,
    pages: nat,
    client_order_id: Seq<char>,
    body: Seq<u8>,
    sent: Seq<SentRequest>,
    received: Seq<TransportAnswer>,
    res: Result<BrokerOrderSnapshot, BrokerError>,
) -> bool {
    exists|n: int, first: Result<Option<BrokerOrderSnapshot>, BrokerError>|
        0 <= n <= sent.len() && n <= received.len() && #[trigger] fetch_outcome(
            c,
            page_size,
            pages,
            client_order_id,
            sent.subrange(0, n),
            received.subrange(0, n),
            first,
        ) && replace_after(
            c,
            body,
            first,
            sent.subrange(n, sent.len() as int),
            received.subrange(n, received.len() as int),
            res,
        )
}

/// One more page read extends the pages read.
#[verifier::rlimit(40)]
proof fn lemma_pages_read_extend<T>(
    reads: Seq<PageRead<T>>,
    sent: Seq<SentRequest>,
    received: Seq<TransportAnswer>,
    request: spec_fn(Option<Seq<char>>) -> SentRequest,
    answer: spec_fn(TransportAnswer, PageRead<T>) -> bool,
    p: PageRead<T>,
    t: TransportAnswer,
)
    requires
        pages_read(reads, sent, received, request, answer),
        answer(t, p),
    ensures
        pages_read(
            reads.push(p),
            sent.push(request(page_cursor(reads, reads.len() as int))),
            received.push(t),
            request,
            answer,
        ),
        page_items(reads.push(p)) == page_items(reads) + match p {
            Ok((items, _, _)) => items@,
            Err(_) => Seq::empty(),
        },
{
    let r2 = reads.push(p);
    let s2 = sent.push(request(page_cursor(reads, reads.len() as int)));
    let t2 = received.push(t);
    assert(r2.drop_last() =~= reads);
    assert forall|k: int| 0 <= k < r2.len() implies s2[k] == request(page_cursor(r2, k)) && answer(
        t2[k],
        #[trigger] r2[k],
    ) by {
        lemma_page_cursor_push(reads, p, k);
        if k < reads.len() {
            assert(r2[k] == reads[k]);
            assert(s2[k] == sent[k]);
            assert(t2[k] == received[k]);
        }
    }
}

proof fn lemma_page_cursor_push<T>(reads: Seq<PageRead<T>>, p: PageRead<T>, k: int)
    requires
        0 <= k <= reads.len(),
    ensures
        page_cursor(reads.push(p), k) == page_cursor(reads, k),
{
    if k > 0 {
        assert(reads.push(p)[k - 1] == reads[k - 1]);
    }
}

// ---------------------------------------------------------------------------------------------
// Broker operations
// ---------------------------------------------------------------------------------------------

/// An execution reported for the order with broker identity `order_id`.
pub open spec fn execution_of(order_id: Seq<char>, x: BrokerExecution) -> bool {
    exists|f: ApiFillActivity|
        f.order_id@ == order_id && crate::broker::fill_decimals_ok(f)
            && #[trigger] crate::broker::fill_matches(f, x)
}

/// A snapshot normalized from some API order that the API accepted as valid.
pub open spec fn reported_snapshot(s: BrokerOrderSnapshot) -> bool {
    exists|o: ApiOrder| order_error(o) is None && #[trigger] order_fields_match(o, s)
}

/// The order request a risk-authorized intent becomes: a day limit order at the authorized
/// price and quantity, with the configured extended-hours flag.
pub open spec fn request_for_intent(
    intent: OrderIntent,
    extended_hours: bool,
    r: AlpacaOrderRequest,
) -> bool {
    &&& r.client_order_id == intent.client_order_id
    &&& r.symbol == intent.proposal.symbol
    &&& r.side == intent.proposal.side
    &&& r.quantity@ == micros_text(intent.proposal.quantity.0 as nat)
    &&& r.order_type is Limit
    &&& r.time_in_force is Day
    &&& r.limit_price matches Some(p) && p@ == micros_text(intent.proposal.limit_price.0 as nat)
    &&& r.extended_hours == extended_hours
}

/// What placing an order gives: the refusal of an invalid request, a transport failure, or the
/// outcome of a placement response.
pub open spec fn placement_result(
    order: AlpacaOrderRequest,
    res: Result<BrokerOrderSnapshot, BrokerError>,
) -> bool {
    match order_request_error(order) {
        Some(m) => res matches Err(e) && is_rejection(e, m),
        None => (res matches Err(e) && (e is Unavailable || e is AmbiguousOutcome)) || exists|
            r: HttpResponse,
        | #[trigger] placement_outcome(r, order.client_order_id@, res),
    }
}

/// The acknowledgement of a placement result.
pub open spec fn acknowledged(
    placed: Result<BrokerOrderSnapshot, BrokerError>,
    res: Result<BrokerAcknowledgement, BrokerError>,
) -> bool {
    match placed {
        Ok(s) => res == Ok::<BrokerAcknowledgement, BrokerError>(s.acknowledgement),
        Err(e) => res == Err::<BrokerAcknowledgement, BrokerError>(e),
    }
}

/// The requests sent to place `order`: one `POST` of its body to the orders path when the
/// order is valid, none otherwise.
pub open spec fn placement_sent(
    c: AlpacaCredentials,
    before: Seq<SentRequest>,
    after: Seq<SentRequest>,
    order: AlpacaOrderRequest,
) -> bool {
    if order_request_error(order) is None {
        after == before.push(
            signed_request(c, HttpMethod::Post, text_bytes(ORDERS_PATH@), place_order_json(order)),
        )
    } else {
        after == before
    }
}

/// The order request for an authorized intent.
pub fn order_request_for(intent: &OrderIntent, extended_hours: bool) -> (res: Result<
    AlpacaOrderRequest,
    BrokerError,
>)
    ensures
        res matches Ok(r) && request_for_intent(*intent, extended_hours, r),
{
    let quantity_text = micros_to_decimal(intent.proposal.quantity.0);
    let price_text = micros_to_decimal(intent.proposal.limit_price.0);
    proof {
        crate::decimal::lemma_micros_text_shape(intent.proposal.quantity.0 as nat);
        crate::decimal::lemma_micros_text_shape(intent.proposal.limit_price.0 as nat);
        crate::decimal::lemma_canonical_shape_fixed(micros_text(intent.proposal.quantity.0 as nat));
        crate::decimal::lemma_canonical_shape_fixed(micros_text(intent.proposal.limit_price.0 as nat));
    }
    let quantity = match BrokerDecimal::try_new(quantity_text.as_str()) {
        Ok(d) => d,
        Err(_) => {
            return Err(rejected("invalid order quantity"));
        },
    };
    let limit_price = match BrokerDecimal::try_new(price_text.as_str()) {
        Ok(d) => d,
        Err(_) => {
            return Err(rejected("invalid order price"));
        },
    };
    Ok(
        AlpacaOrderRequest {
            client_order_id: intent.client_order_id.clone(),
            symbol: intent.proposal.symbol.clone(),
            side: intent.proposal.side,
            quantity,
            order_type: AlpacaOrderType::Limit,
            time_in_force: AlpacaTimeInForce::Day,
            limit_price: Some(limit_price),
            extended_hours,
        },
    )
}

/// The snapshots of a page that was read are all reported by the API, with no executions.
proof fn lemma_page_snapshots_reported(
    r: HttpResponse,
    page: Result<(Vec<BrokerOrderSnapshot>, usize, Option<String>), BrokerError>,
)
    requires
        order_page_outcome(r, page),
        page is Ok,
    ensures
        page matches Ok((ss, _, _)) && forall|i: int|
            0 <= i < ss@.len() ==> reported_snapshot(#[trigger] ss@[i])
                && ss@[i].executions@.len() == 0,
{
    let (ss, count, last) = page->Ok_0;
    let v = response_json(r, seq![200u16])->Ok_0;
    let os = choose|os: Vec<ApiOrder>|
        #[trigger] orders_decode(v, os) && orders_normalized(
            os@,
            match page {
                Ok((ss, _, _)) => Ok(ss),
                Err(e) => Err(e),
            },
        ) && (page matches Ok((_, count, last)) ==> count == os@.len() && if os@.len() == 0 {
            last is None
        } else {
            last == Some(os@.last().id)
        });
    assert forall|i: int| 0 <= i < ss@.len() implies reported_snapshot(#[trigger] ss@[i])
        && ss@[i].executions@.len() == 0 by {
        assert(order_fields_match(os@[i], ss@[i]));
        assert(order_error(os@[i]) is None);
    }
}

/// The acknowledgement of an API order: its identities and acceptance time.
pub open spec fn acknowledges(o: ApiOrder, a: BrokerAcknowledgement) -> bool {
    &&& a.broker_order_id == o.id
    &&& a.client_order_id == o.client_order_id
    &&& timestamp_ns_of(o.submitted_at@) == Ok::<u64, Seq<char>>(a.accepted_at_ns)
}

/// The acknowledgement of some API order that the API reported as valid.
pub open spec fn reported_acknowledgement(a: BrokerAcknowledgement) -> bool {
    exists|o: ApiOrder| order_error(o) is None && #[trigger] acknowledges(o, a)
}

/// A snapshot of a fetched order: normalized from an API order the API reported as valid, with
/// executions that all belong to that order, and none when nothing is filled.
pub open spec fn fetched_snapshot(s: BrokerOrderSnapshot) -> bool {
    exists|o: ApiOrder|
        order_error(o) is None && #[trigger] order_fields_match(o, s) && (forall|k: int|
            0 <= k < s.executions@.len() ==> execution_of(o.id@, #[trigger] s.executions@[k])) && (
        s.filled_quantity@ == seq![48u8] ==> s.executions@.len() == 0)
}

/// The matching activities of a list all carry the order identity.
proof fn lemma_matching_fills_belong(fs: Seq<ApiFillActivity>, order_id: Seq<char>)
    ensures
        forall|k: int|
            0 <= k < matching_fills(fs, order_id).len() ==> (#[trigger] matching_fills(
                fs,
                order_id,
            )[k]).order_id@ == order_id,
    decreases fs.len(),
{
    if fs.len() > 0 {
        lemma_matching_fills_belong(fs.drop_last(), order_id);
        let m1 = matching_fills(fs.drop_last(), order_id);
        if fs.last().order_id@ == order_id {
            assert(matching_fills(fs, order_id) == m1.push(fs.last()));
        } else {
            assert(matching_fills(fs, order_id) == m1);
        }
    }
}

/// The executions of a page that was read all belong to the order.
proof fn lemma_page_executions(
    r: HttpResponse,
    order_id: Seq<char>,
    page: Result<(Vec<BrokerExecution>, usize, Option<String>), BrokerError>,
)
    requires
        fill_page_outcome(r, order_id, page),
        page is Ok,
    ensures
        page matches Ok((xs, _, _)) && forall|k: int|
            0 <= k < xs@.len() ==> execution_of(order_id, #[trigger] xs@[k]),
{
    let (xs, count, last) = page->Ok_0;
    let v = response_json(r, seq![200u16])->Ok_0;
    let fs = choose|fs: Vec<ApiFillActivity>|
        #[trigger] fills_decode(v, fs) && fills_converted(
            fs@,
            order_id,
            match page {
                Ok((xs, _, _)) => Ok(xs),
                Err(e) => Err(e),
            },
        ) && (page matches Ok((_, count, last)) ==> count == fs@.len() && if fs@.len() == 0 {
            last is None
        } else {
            last == Some(fs@.last().id)
        });
    let m = matching_fills(fs@, order_id);
    lemma_matching_fills_belong(fs@, order_id);
    assert forall|k: int| 0 <= k < xs@.len() implies execution_of(order_id, #[trigger] xs@[k]) by {
        assert(crate::broker::fill_matches(m[k], xs@[k]));
        assert(crate::broker::fill_decimals_ok(m[k]));
    }
}

/// The answer to a placement: none when the order is invalid; otherwise one answer, read as a
/// placement response.
pub open spec fn placement_answered(
    order: AlpacaOrderRequest,
    before: Seq<TransportAnswer>,
    after: Seq<TransportAnswer>,
    res: Result<BrokerOrderSnapshot, BrokerError>,
) -> bool {
    if order_request_error(order) is None {
        after == before.push(after.last()) && match answered(HttpMethod::Post, after.last()) {
            Err(e) => res == Err::<BrokerOrderSnapshot, BrokerError>(e),
            Ok(r) => placement_outcome(r, order.client_order_id@, res),
        }
    } else {
        after == before
    }
}

/// An optional string as text.
pub open spec fn text_option(o: Option<&String>) -> Option<Seq<char>> {
    match o {
        Some(s) => Some(s@),
        None => None,
    }
}

/// An optional owned string as text.
pub open spec fn string_option(o: Option<String>) -> Option<Seq<char>> {
    match o {
        Some(s) => Some(s@),
        None => None,
    }
}

proof fn lemma_appended_chain<A>(a: Seq<A>, b: Seq<A>, c: Seq<A>)
    requires
        extends(a, b),
        extends(b, c),
    ensures
        extends(a, c),
        appended(a, c).subrange(0, b.len() - a.len()) == appended(a, b),
        appended(a, c).subrange(b.len() - a.len(), appended(a, c).len() as int) == appended(b, c),
{
    assert(c.subrange(0, a.len() as int) =~= b.subrange(0, a.len() as int));
    assert(appended(a, c).subrange(0, b.len() - a.len()) =~= appended(a, b));
    assert(appended(a, c).subrange(b.len() - a.len(), appended(a, c).len() as int) =~= appended(b, c));
}

proof fn lemma_appended_push<A>(a: Seq<A>, b: Seq<A>, x: A)
    requires
        extends(a, b),
    ensures
        extends(a, b.push(x)),
        appended(a, b.push(x)) == appended(a, b).push(x),
        extends(b, b.push(x)),
        appended(b, b.push(x)) == seq![x],
{
    assert(b.push(x).subrange(0, a.len() as int) =~= b.subrange(0, a.len() as int));
    assert(appended(a, b.push(x)) =~= appended(a, b).push(x));
    assert(b.push(x).subrange(0, b.len() as int) =~= b);
    assert(appended(b, b.push(x)) =~= seq![x]);
}

proof fn lemma_appended_same<A>(a: Seq<A>)
    ensures
        extends(a, a),
        appended(a, a) == Seq::<A>::empty(),
{
    assert(a.subrange(0, a.len() as int) =~= a);
    assert(appended(a, a) =~= Seq::<A>::empty());
}

/// After one more entry `x`, the rest of a log past `b` starts with `x`.
proof fn lemma_appended_after_push<A>(b: Seq<A>, x: A, c: Seq<A>)
    requires
        extends(b.push(x), c),
    ensures
        extends(b, c),
        appended(b, c).len() >= 1,
        appended(b, c)[0] == x,
        appended(b, c).drop_first() == appended(b.push(x), c),
{
    assert(c.subrange(0, b.len() as int) =~= b.push(x).subrange(0, b.len() as int));
    assert(b.push(x).subrange(0, b.len() as int) =~= b);
    assert(c[b.len() as int] == b.push(x)[b.len() as int]);
    assert(appended(b, c).drop_first() =~= appended(b.push(x), c));
}

impl<T: AlpacaTransport> AlpacaBroker<T> {
    /// Places an order. A request that fails validation is refused before anything is sent.
    pub fn submit_order(&mut self, order: &AlpacaOrderRequest) -> (res: Result<
        BrokerOrderSnapshot,
        BrokerError,
    >)
        ensures
            placement_result(*order, res),
            placement_sent(old(self).credentials(), old(self).sent(), final(self).sent(), *order),
            placement_answered(*order, old(self).received(), final(self).received(), res),
            order_request_error(*order) is Some ==> *final(self) == *old(self),
            final(self).config() == old(self).config(),
            final(self).credentials() == old(self).credentials(),
    {
        order.validate()?;
        let body = place_order_body(order);
        proof {
            lemma_constant_paths_valid();
        }
        let response = self.execute(HttpMethod::Post, ORDERS_PATH.to_owned(), body)?;
        submitted_order(response, order.client_order_id.as_str())
    }

    #[verifier::rlimit(60)]
    #[verifier::spinoff_prover]
    /// Replaces a working order. The new identity and the presence of a change are checked
    /// before anything is sent; a missing or terminal order is refused.
    pub fn replace_order(
        &mut self,
        client_order_id: &str,
        new_client_order_id: &str,
        quantity: Option<&BrokerDecimal>,
        limit_price: Option<&BrokerDecimal>,
        time_in_force: Option<AlpacaTimeInForce>,
    ) -> (res: Result<BrokerOrderSnapshot, BrokerError>)
        ensures
            !valid_client_order_id_bytes(new_client_order_id.spec_bytes()) ==> (res matches Err(e)
                && is_rejection(e, client_order_id_message())) && *final(self) == *old(self),
            valid_client_order_id_bytes(new_client_order_id.spec_bytes()) && quantity is None
                && limit_price is None && time_in_force is None ==> (res matches Err(e)
                && is_rejection(e, "replace must change quantity, limit price, or time in force"@))
                && *final(self) == *old(self),
            res is Ok ==> exists|r: HttpResponse| #[trigger] replacement_outcome(r, res),
            valid_client_order_id_bytes(new_client_order_id.spec_bytes()) && !(quantity is None
                && limit_price is None && time_in_force is None)
                && valid_client_order_id_bytes(client_order_id.spec_bytes()) ==> extends(
                old(self).sent(),
                final(self).sent(),
            ) && extends(old(self).received(), final(self).received()) && replace_outcome(
                old(self).credentials(),
                old(self).config().reconciliation_page_size as nat,
                old(self).config().max_reconciliation_pages as nat,
                client_order_id@,
                replace_order_json(
                    match quantity {
                        Some(q) => Some(*q),
                        None => None,
                    },
                    match limit_price {
                        Some(p) => Some(*p),
                        None => None,
                    },
                    time_in_force,
                    new_client_order_id@,
                ),
                appended(old(self).sent(), final(self).sent()),
                appended(old(self).received(), final(self).received()),
                res,
            ),
            final(self).config() == old(self).config(),
            final(self).credentials() == old(self).credentials(),
    {
        validate_client_order_id(new_client_order_id)?;
        if quantity.is_none() && limit_price.is_none() && time_in_force.is_none() {
            return Err(rejected("replace must change quantity, limit price, or time in force"));
        }
        let ghost c = old(self).credentials();
        let ghost ps = old(self).config().reconciliation_page_size as nat;
        let ghost pages = old(self).config().max_reconciliation_pages as nat;
        let ghost os = old(self).sent();
        let ghost orr = old(self).received();
        let fetched = self.fetch_order_by_client_order_id(client_order_id);
        let ghost first = fetched;
        let ghost s1 = self.sent();
        let ghost r1 = self.received();
        let ghost n = s1.len() - os.len();
        let ghost m = r1.len() - orr.len();
        let body = replace_order_body(quantity, limit_price, time_in_force, new_client_order_id);
        let ghost patch = body@;
        proof {
            if valid_client_order_id_bytes(client_order_id.spec_bytes()) {
                lemma_appended_same(s1);
                lemma_appended_same(r1);
                lemma_appended_chain(os, s1, s1);
                lemma_appended_chain(orr, r1, r1);
            }
        }
        let current = match fetched {
            Ok(Some(current)) => current,
            Ok(None) => {
                return Err(rejected("Alpaca order was not found"));
            },
            Err(e) => {
                return Err(e);
            },
        };
        if current.state.is_terminal() {
            return Err(rejected("terminal Alpaca order cannot be replaced"));
        }
        let path = broker_order_path(current.acknowledgement.broker_order_id.as_str());
        let response = match self.execute(HttpMethod::Patch, path, body) {
            Ok(r) => r,
            Err(e) => {
                proof {
                    if self.sent() != s1 {
                        lemma_appended_push(os, s1, self.sent().last());
                        lemma_appended_push(orr, r1, self.received().last());
                        lemma_appended_chain(os, s1, self.sent());
                        lemma_appended_chain(orr, r1, self.received());
                    }
                }
                return Err(e);
            },
        };
        proof {
            lemma_appended_push(os, s1, self.sent().last());
            lemma_appended_push(orr, r1, self.received().last());
            lemma_appended_chain(os, s1, self.sent());
            lemma_appended_chain(orr, r1, self.received());
        }
        replaced_order(response)
    }

    /// The account.
    pub fn account(&mut self) -> (res: Result<AlpacaAccount, BrokerError>)
        ensures
            final(self).sent() == old(self).sent().push(
                get_request(old(self).credentials(), text_bytes(ACCOUNT_PATH@)),
            ),
            final(self).received() == old(self).received().push(final(self).received().last()),
            match answered(HttpMethod::Get, final(self).received().last()) {
                Err(e) => res == Err::<AlpacaAccount, BrokerError>(e),
                Ok(r) => account_outcome(r, res),
            },
            final(self).config() == old(self).config(),
            final(self).credentials() == old(self).credentials(),
    {
        proof {
            lemma_constant_paths_valid();
        }
        let response = self.execute(HttpMethod::Get, ACCOUNT_PATH.to_owned(), Vec::new())?;
        account_from_response(response)
    }

    /// The open positions.
    pub fn positions(&mut self) -> (res: Result<Vec<AlpacaPosition>, BrokerError>)
        ensures
            final(self).sent() == old(self).sent().push(
                get_request(old(self).credentials(), text_bytes(POSITIONS_PATH@)),
            ),
            final(self).received() == old(self).received().push(final(self).received().last()),
            match answered(HttpMethod::Get, final(self).received().last()) {
                Err(e) => res == Err::<Vec<AlpacaPosition>, BrokerError>(e),
                Ok(r) => positions_outcome(r, res),
            },
            final(self).config() == old(self).config(),
            final(self).credentials() == old(self).credentials(),
    {
        proof {
            lemma_constant_paths_valid();
        }
        let response = self.execute(HttpMethod::Get, POSITIONS_PATH.to_owned(), Vec::new())?;
        positions_from_response(response)
    }

    /// One page of open orders.
    fn next_order_page(&mut self, page_size: usize, after: Option<&String>) -> (res: Result<
        (Vec<BrokerOrderSnapshot>, usize, Option<String>),
        BrokerError,
    >)
        ensures
            res matches Ok((ss, _, _)) ==> forall|i: int|
                0 <= i < ss@.len() ==> reported_snapshot(#[trigger] ss@[i])
                    && ss@[i].executions@.len() == 0,
            final(self).sent() == old(self).sent().push(
                open_orders_request(old(self).credentials(), page_size as nat)(text_option(after)),
            ),
            final(self).received() == old(self).received().push(final(self).received().last()),
            order_page_answer()(final(self).received().last(), res),
            final(self).config() == old(self).config(),
            final(self).credentials() == old(self).credentials(),
    {
        let path = open_orders_page_path(page_size, after);
        proof {
            lemma_open_orders_path_valid(page_size as nat, text_option(after));
        }
        let response = self.execute(HttpMethod::Get, path, Vec::new())?;
        let ghost r = response;
        let page_result = order_page(response);
        proof {
            if page_result is Ok {
                lemma_page_snapshots_reported(r, page_result);
            }
        }
        page_result
    }

    /// Every currently open order, in bounded chronological pages.
    ///
    /// This is the startup-reconciliation inventory: it excludes closed history. Each page is
    /// read after the last order of the page before; paging stops at the first short page, and
    /// running out of pages is `Unavailable`.
    pub fn open_orders_for_reconciliation(&mut self) -> (res: Result<
        Vec<BrokerOrderSnapshot>,
        BrokerError,
    >)
        ensures
            old(self).config().max_reconciliation_pages == 0 ==> (res matches Err(e)
                && e is Unavailable) && *final(self) == *old(self),
            res matches Ok(ss) ==> forall|i: int|
                0 <= i < ss@.len() ==> reported_snapshot(#[trigger] ss@[i]) && ss@[i].executions@.len()
                    == 0,
            extends(old(self).sent(), final(self).sent()),
            extends(old(self).received(), final(self).received()),
            paged_outcome(
                old(self).config().reconciliation_page_size as nat,
                old(self).config().max_reconciliation_pages as nat,
                appended(old(self).sent(), final(self).sent()),
                appended(old(self).received(), final(self).received()),
                open_orders_request(
                    old(self).credentials(),
                    old(self).config().reconciliation_page_size as nat,
                ),
                order_page_answer(),
                items_of(res),
            ),
            final(self).config() == old(self).config(),
            final(self).credentials() == old(self).credentials(),
    {
        let mut orders: Vec<BrokerOrderSnapshot> = Vec::new();
        let mut after_order_id: Option<String> = None;
        let pages = self.config.max_reconciliation_pages;
        let page_size = self.config.reconciliation_page_size;
        let ghost request = open_orders_request(old(self).credentials(), page_size as nat);
        let ghost answer = order_page_answer();
        let ghost mut reads: Seq<PageRead<BrokerOrderSnapshot>> = Seq::empty();
        proof {
            lemma_appended_same(old(self).sent());
            lemma_appended_same(old(self).received());
        }
        let mut page: usize = 0;
        while page < pages
            invariant
                pages == old(self).config().max_reconciliation_pages,
                page_size == old(self).config().reconciliation_page_size,
                request == open_orders_request(old(self).credentials(), page_size as nat),
                answer == order_page_answer(),
                page <= pages,
                page == 0 ==> *self == *old(self),
                self.config() == old(self).config(),
                self.credentials() == old(self).credentials(),
                reads.len() == page,
                extends(old(self).sent(), self.sent()),
                extends(old(self).received(), self.received()),
                pages_read(
                    reads,
                    appended(old(self).sent(), self.sent()),
                    appended(old(self).received(), self.received()),
                    request,
                    answer,
                ),
                forall|k: int| 0 <= k < page ==> !page_ends(#[trigger] reads[k], page_size as nat),
                orders@ == page_items(reads),
                string_option(after_order_id) == page_cursor(reads, page as int),
                forall|i: int|
                    0 <= i < orders@.len() ==> reported_snapshot(#[trigger] orders@[i])
                        && orders@[i].executions@.len() == 0,
            decreases pages - page,
        {
            let ghost prior_sent = self.sent();
            let ghost prior_received = self.received();
            let page_result = self.next_order_page(page_size, after_order_id.as_ref());
            let ghost p = page_result;
            proof {
                lemma_pages_read_extend(
                    reads,
                    appended(old(self).sent(), prior_sent),
                    appended(old(self).received(), prior_received),
                    request,
                    answer,
                    p,
                    self.received().last(),
                );
                lemma_appended_push(old(self).sent(), prior_sent, self.sent().last());
                lemma_appended_push(old(self).received(), prior_received, self.received().last());
                reads = reads.push(p);
            }
            let (snapshots, count, last) = match page_result {
                Ok(found) => found,
                Err(e) => {
                    assert(paged_run(reads, page_size as nat, pages as nat));
                    return Err(e);
                },
            };
            let ghost before = orders@;
            let mut snapshots = snapshots;
            let ghost added = snapshots@;
            orders.append(&mut snapshots);
            assert forall|i: int| 0 <= i < orders@.len() implies reported_snapshot(
                #[trigger] orders@[i],
            ) && orders@[i].executions@.len() == 0 by {
                if i >= before.len() {
                    assert(orders@[i] == added[i - before.len()]);
                }
            }
            if count < page_size {
                assert(paged_run(reads, page_size as nat, pages as nat));
                return Ok(orders);
            }
            after_order_id = last;
            page = page + 1;
        }
        proof {
            if pages > 0 {
                assert(paged_run(reads, page_size as nat, pages as nat));
            }
        }
        Err(BrokerError::Unavailable)
    }

    /// The API order with a client identity, if Alpaca knows it. The identity is checked before
    /// anything is sent.
    pub fn fetch_api_order(&mut self, client_order_id: &str) -> (res: Result<
        Option<ApiOrder>,
        BrokerError,
    >)
        ensures
            !valid_client_order_id_bytes(client_order_id.spec_bytes()) ==> (res matches Err(e)
                && is_rejection(e, client_order_id_message())) && *final(self) == *old(self),
            valid_client_order_id_bytes(client_order_id.spec_bytes()) ==> final(self).sent() == old(
                self,
            ).sent().push(get_request(old(self).credentials(), lookup_path(client_order_id@)))
                && final(self).received() == old(self).received().push(
                final(self).received().last(),
            ) && lookup_answer(final(self).received().last(), res),
            final(self).config() == old(self).config(),
            final(self).credentials() == old(self).credentials(),
    {
        validate_client_order_id(client_order_id)?;
        let path = lookup_order_path(client_order_id);
        proof {
            lemma_lookup_path_valid(client_order_id@);
        }
        let response = self.execute(HttpMethod::Get, path, Vec::new())?;
        looked_up_order(response)
    }

    /// One page of fill activities, reduced to the executions of one order.
    fn next_fill_page(&mut self, order_id: &str, page_size: usize, token: Option<&String>) -> (res:
        Result<(Vec<BrokerExecution>, usize, Option<String>), BrokerError>)
        ensures
            res matches Ok((xs, _, _)) ==> forall|k: int|
                0 <= k < xs@.len() ==> execution_of(order_id@, #[trigger] xs@[k]),
            final(self).sent() == old(self).sent().push(
                fills_request(old(self).credentials(), page_size as nat)(text_option(token)),
            ),
            final(self).received() == old(self).received().push(final(self).received().last()),
            fill_page_answer(order_id@)(final(self).received().last(), res),
            final(self).config() == old(self).config(),
            final(self).credentials() == old(self).credentials(),
    {
        let path = fills_page_path(page_size, token);
        proof {
            lemma_fills_path_valid(page_size as nat, text_option(token));
        }
        let response = self.execute(HttpMethod::Get, path, Vec::new())?;
        let ghost r = response;
        let page_result = fill_page(response, order_id);
        proof {
            if page_result is Ok {
                lemma_page_executions(r, order_id@, page_result);
            }
        }
        page_result
    }

    /// The executions of one broker order, read from the fill activities in bounded pages:
    /// each page after the token of the page before, stopping at the first short page.
    pub fn fills_for_order(&mut self, order_id: &str) -> (res: Result<
        Vec<BrokerExecution>,
        BrokerError,
    >)
        ensures
            old(self).config().max_reconciliation_pages == 0 ==> (res matches Err(e)
                && e is Unavailable) && *final(self) == *old(self),
            res matches Ok(xs) ==> forall|k: int|
                0 <= k < xs@.len() ==> execution_of(order_id@, #[trigger] xs@[k]),
            extends(old(self).sent(), final(self).sent()),
            extends(old(self).received(), final(self).received()),
            paged_outcome(
                old(self).config().reconciliation_page_size as nat,
                old(self).config().max_reconciliation_pages as nat,
                appended(old(self).sent(), final(self).sent()),
                appended(old(self).received(), final(self).received()),
                fills_request(old(self).credentials(), old(self).config().reconciliation_page_size as nat),
                fill_page_answer(order_id@),
                items_of(res),
            ),
            final(self).config() == old(self).config(),
            final(self).credentials() == old(self).credentials(),
    {
        let mut executions: Vec<BrokerExecution> = Vec::new();
        let mut page_token: Option<String> = None;
        let pages = self.config.max_reconciliation_pages;
        let page_size = self.config.reconciliation_page_size;
        let ghost request = fills_request(old(self).credentials(), page_size as nat);
        let ghost answer = fill_page_answer(order_id@);
        let ghost mut reads: Seq<PageRead<BrokerExecution>> = Seq::empty();
        proof {
            lemma_appended_same(old(self).sent());
            lemma_appended_same(old(self).received());
        }
        let mut page: usize = 0;
        while page < pages
            invariant
                pages == old(self).config().max_reconciliation_pages,
                page_size == old(self).config().reconciliation_page_size,
                request == fills_request(old(self).credentials(), page_size as nat),
                answer == fill_page_answer(order_id@),
                page <= pages,
                page == 0 ==> *self == *old(self),
                self.config() == old(self).config(),
                self.credentials() == old(self).credentials(),
                reads.len() == page,
                extends(old(self).sent(), self.sent()),
                extends(old(self).received(), self.received()),
                pages_read(
                    reads,
                    appended(old(self).sent(), self.sent()),
                    appended(old(self).received(), self.received()),
                    request,
                    answer,
                ),
                forall|k: int| 0 <= k < page ==> !page_ends(#[trigger] reads[k], page_size as nat),
                executions@ == page_items(reads),
                string_option(page_token) == page_cursor(reads, page as int),
                forall|k: int|
                    0 <= k < executions@.len() ==> execution_of(order_id@, #[trigger] executions@[k]),
            decreases pages - page,
        {
            let ghost prior_sent = self.sent();
            let ghost prior_received = self.received();
            let page_result = self.next_fill_page(order_id, page_size, page_token.as_ref());
            let ghost p = page_result;
            proof {
                lemma_pages_read_extend(
                    reads,
                    appended(old(self).sent(), prior_sent),
                    appended(old(self).received(), prior_received),
                    request,
                    answer,
                    p,
                    self.received().last(),
                );
                lemma_appended_push(old(self).sent(), prior_sent, self.sent().last());
                lemma_appended_push(old(self).received(), prior_received, self.received().last());
                reads = reads.push(p);
            }
            let (found, count, last) = match page_result {
                Ok(found) => found,
                Err(e) => {
                    assert(paged_run(reads, page_size as nat, pages as nat));
                    return Err(e);
                },
            };
            let ghost before = executions@;
            let mut found = found;
            let ghost added = found@;
            executions.append(&mut found);
            assert forall|k: int| 0 <= k < executions@.len() implies execution_of(
                order_id@,
                #[trigger] executions@[k],
            ) by {
                if k >= before.len() {
                    assert(executions@[k] == added[k - before.len()]);
                }
            }
            if count < page_size {
                assert(paged_run(reads, page_size as nat, pages as nat));
                return Ok(executions);
            }
            page_token = last;
            page = page + 1;
        }
        proof {
            if pages > 0 {
                assert(paged_run(reads, page_size as nat, pages as nat));
            }
        }
        Err(BrokerError::Unavailable)
    }

    #[verifier::rlimit(60)]
    #[verifier::spinoff_prover]
    /// The order with a client identity and its executions, if Alpaca knows it. Fill
    /// activities are read only when the order reports a filled quantity.
    pub fn fetch_order_by_client_order_id(&mut self, client_order_id: &str) -> (res: Result<
        Option<BrokerOrderSnapshot>,
        BrokerError,
    >)
        ensures
            !valid_client_order_id_bytes(client_order_id.spec_bytes()) ==> (res matches Err(e)
                && is_rejection(e, client_order_id_message())) && *final(self) == *old(self),
            res matches Ok(Some(s)) ==> fetched_snapshot(s),
            valid_client_order_id_bytes(client_order_id.spec_bytes()) ==> extends(
                old(self).sent(),
                final(self).sent(),
            ) && extends(old(self).received(), final(self).received()) && fetch_outcome(
                old(self).credentials(),
                old(self).config().reconciliation_page_size as nat,
                old(self).config().max_reconciliation_pages as nat,
                client_order_id@,
                appended(old(self).sent(), final(self).sent()),
                appended(old(self).received(), final(self).received()),
                res,
            ),
            final(self).config() == old(self).config(),
            final(self).credentials() == old(self).credentials(),
    {
        let ghost c = old(self).credentials();
        let ghost ps = old(self).config().reconciliation_page_size as nat;
        let ghost pages = old(self).config().max_reconciliation_pages as nat;
        let ghost os = old(self).sent();
        let ghost orr = old(self).received();
        let found = self.fetch_api_order(client_order_id);
        let ghost f = found;
        let ghost s1 = self.sent();
        let ghost r1 = self.received();
        proof {
            if valid_client_order_id_bytes(client_order_id.spec_bytes()) {
                lemma_appended_push(os, os, s1.last());
                lemma_appended_push(orr, orr, r1.last());
                lemma_appended_same(os);
                lemma_appended_same(orr);
                assert(appended(os, s1) =~= seq![s1.last()]);
                assert(appended(orr, r1) =~= seq![r1.last()]);
                assert(lookup_answer(appended(orr, r1)[0], f));
            }
        }
        let order = match found {
            Ok(Some(order)) => order,
            Ok(None) => {
                return Ok(None);
            },
            Err(e) => {
                return Err(e);
            },
        };
        let filled_quantity = match crate::broker::broker_decimal(&order.filled_qty) {
            Ok(d) => d,
            Err(e) => {
                return Err(e);
            },
        };
        let fills = if filled_quantity.is_zero() {
            Vec::new()
        } else {
            let read = self.fills_for_order(order.id.as_str());
            proof {
                lemma_appended_chain(os, s1, self.sent());
                lemma_appended_chain(orr, r1, self.received());
                assert(appended(os, self.sent()).drop_first() =~= appended(s1, self.sent()));
                assert(appended(orr, self.received()).drop_first() =~= appended(r1, self.received()));
                assert(appended(os, self.sent())[0] == appended(os, s1)[0]);
                assert(appended(orr, self.received())[0] == appended(orr, r1)[0]);
                assert(paged_outcome(
                    ps,
                    pages,
                    appended(s1, self.sent()),
                    appended(r1, self.received()),
                    fills_request(c, ps),
                    fill_page_answer(order.id@),
                    items_of(read),
                ));
            }
            match read {
                Ok(v) => v,
                Err(e) => {
                    return Err(e);
                },
            }
        };
        let snapshot = match normalize_order(&order, fills) {
            Ok(s) => s,
            Err(e) => {
                return Err(e);
            },
        };
        Ok(Some(snapshot))
    }

    #[verifier::rlimit(60)]
    #[verifier::spinoff_prover]
    /// Cancels the order with a client identity and returns its state afterwards; a terminal
    /// order is returned as it is.
    pub fn cancel_by_client_order_id(&mut self, client_order_id: &str) -> (res: Result<
        BrokerOrderSnapshot,
        BrokerError,
    >)
        ensures
            !valid_client_order_id_bytes(client_order_id.spec_bytes()) ==> (res matches Err(e)
                && is_rejection(e, client_order_id_message())) && *final(self) == *old(self),
            res matches Ok(s) ==> fetched_snapshot(s),
            valid_client_order_id_bytes(client_order_id.spec_bytes()) ==> extends(
                old(self).sent(),
                final(self).sent(),
            ) && extends(old(self).received(), final(self).received()) && cancel_outcome(
                old(self).credentials(),
                old(self).config().reconciliation_page_size as nat,
                old(self).config().max_reconciliation_pages as nat,
                client_order_id@,
                appended(old(self).sent(), final(self).sent()),
                appended(old(self).received(), final(self).received()),
                res,
            ),
            final(self).config() == old(self).config(),
            final(self).credentials() == old(self).credentials(),
    {
        let ghost c = old(self).credentials();
        let ghost ps = old(self).config().reconciliation_page_size as nat;
        let ghost pages = old(self).config().max_reconciliation_pages as nat;
        let ghost id = client_order_id@;
        let ghost os = old(self).sent();
        let ghost orr = old(self).received();
        let fetched = self.fetch_order_by_client_order_id(client_order_id);
        let ghost first = fetched;
        let ghost s1 = self.sent();
        let ghost r1 = self.received();
        let ghost n = s1.len() - os.len();
        let ghost m = r1.len() - orr.len();
        proof {
            if valid_client_order_id_bytes(client_order_id.spec_bytes()) {
                lemma_appended_same(s1);
                lemma_appended_same(r1);
                lemma_appended_chain(os, s1, s1);
                lemma_appended_chain(orr, r1, r1);
                assert(fetch_outcome(
                    c,
                    ps,
                    pages,
                    id,
                    appended(os, s1).subrange(0, n),
                    appended(orr, r1).subrange(0, m),
                    first,
                ));
            }
        }
        let current = match fetched {
            Ok(Some(current)) => current,
            Ok(None) => {
                return Err(rejected("Alpaca order was not found"));
            },
            Err(e) => {
                return Err(e);
            },
        };
        if current.state.is_terminal() {
            return Ok(current);
        }
        let path = broker_order_path(current.acknowledgement.broker_order_id.as_str());
        let ghost b = current.acknowledgement.broker_order_id@;
        let response = match self.execute(HttpMethod::Delete, path, Vec::new()) {
            Ok(r) => r,
            Err(e) => {
                proof {
                    if self.sent() != s1 {
                        lemma_appended_push(os, s1, self.sent().last());
                        lemma_appended_push(orr, r1, self.received().last());
                        lemma_appended_chain(os, s1, self.sent());
                        lemma_appended_chain(orr, r1, self.received());
                        assert(fetch_outcome(
                            c,
                            ps,
                            pages,
                            id,
                            appended(os, self.sent()).subrange(0, n),
                            appended(orr, self.received()).subrange(0, m),
                            first,
                        ));
                    }
                }
                return Err(e);
            },
        };
        let ghost s2 = self.sent();
        let ghost r2 = self.received();
        proof {
            lemma_appended_push(os, s1, s2.last());
            lemma_appended_push(orr, r1, r2.last());
            lemma_appended_chain(os, s1, s2);
            lemma_appended_chain(orr, r1, r2);
            assert(fetch_outcome(
                c,
                ps,
                pages,
                id,
                appended(os, s2).subrange(0, n),
                appended(orr, r2).subrange(0, m),
                first,
            ));
        }
        match cancel_acknowledged(response) {
            Ok(()) => {},
            Err(e) => {
                return Err(e);
            },
        }
        let again = self.fetch_order_by_client_order_id(client_order_id);
        let ghost a = again;
        proof {
            lemma_appended_after_push(s1, s2.last(), self.sent());
            lemma_appended_after_push(r1, r2.last(), self.received());
            lemma_appended_chain(os, s1, self.sent());
            lemma_appended_chain(orr, r1, self.received());
            assert(fetch_outcome(
                c,
                ps,
                pages,
                id,
                appended(os, self.sent()).subrange(0, n),
                appended(orr, self.received()).subrange(0, m),
                first,
            ));
            assert(fetch_outcome(
                c,
                ps,
                pages,
                id,
                appended(s1, self.sent()).drop_first(),
                appended(r1, self.received()).drop_first(),
                a,
            ));
        }
        match again {
            Ok(Some(after)) => Ok(after),
            Ok(None) => Err(rejected("Alpaca order disappeared after cancel acknowledgement")),
            Err(e) => Err(e),
        }
    }

    /// Submits a risk-authorized intent as a day limit order.
    pub fn submit(&mut self, intent: &OrderIntent) -> (res: Result<
        BrokerAcknowledgement,
        BrokerError,
    >)
        ensures
            intent_error(old(self).config(), *intent) matches Some(m) ==> (res matches Err(e)
                && is_rejection(e, m)) && *final(self) == *old(self),
            intent_error(old(self).config(), *intent) is None ==> exists|
                request: AlpacaOrderRequest,
                placed: Result<BrokerOrderSnapshot, BrokerError>,
            |
                #[trigger] request_for_intent(*intent, old(self).config().extended_hours, request)
                    && #[trigger] placement_result(request, placed) && acknowledged(placed, res)
                    && placement_sent(old(self).credentials(), old(self).sent(), final(self).sent(), request)
                    && placement_answered(request, old(self).received(), final(self).received(), placed),
            final(self).config() == old(self).config(),
            final(self).credentials() == old(self).credentials(),
    {
        self.validate_intent(intent)?;
        let request = order_request_for(intent, self.config.extended_hours)?;
        let placed = self.submit_order(&request);
        let ghost p = placed;
        match placed {
            Ok(snapshot) => Ok(snapshot.acknowledgement),
            Err(e) => Err(e),
        }
    }

    /// The acknowledgement of the order with a client identity, if Alpaca knows it.
    pub fn lookup_by_client_order_id(&mut self, client_order_id: &str) -> (res: Result<
        Option<BrokerAcknowledgement>,
        BrokerError,
    >)
        ensures
            !valid_client_order_id_bytes(client_order_id.spec_bytes()) ==> (res matches Err(e)
                && is_rejection(e, client_order_id_message())) && *final(self) == *old(self),
            res matches Ok(Some(a)) ==> reported_acknowledgement(a),
            valid_client_order_id_bytes(client_order_id.spec_bytes()) ==> final(self).sent() == old(
                self,
            ).sent().push(get_request(old(self).credentials(), lookup_path(client_order_id@)))
                && final(self).received() == old(self).received().push(
                final(self).received().last(),
            ) && exists|found: Result<Option<ApiOrder>, BrokerError>|
                #[trigger] lookup_answer(final(self).received().last(), found) && match found {
                    Err(e) => res == Err::<Option<BrokerAcknowledgement>, BrokerError>(e),
                    Ok(None) => res == Ok::<Option<BrokerAcknowledgement>, BrokerError>(None),
                    Ok(Some(o)) => match order_error(o) {
                        Some(m) => res matches Err(e) && is_rejection(e, m),
                        None => res matches Ok(Some(a)) && acknowledges(o, a),
                    },
                },
            final(self).config() == old(self).config(),
            final(self).credentials() == old(self).credentials(),
    {
        let found = self.fetch_api_order(client_order_id);
        let ghost f = found;
        proof {
            if valid_client_order_id_bytes(client_order_id.spec_bytes()) {
                assert(lookup_answer(self.received().last(), f));
            }
        }
        let found = match found {
            Ok(x) => x,
            Err(e) => {
                return Err(e);
            },
        };
        let order = match found {
            None => {
                return Ok(None);
            },
            Some(order) => order,
        };
        let snapshot = match normalize_order(&order, Vec::new()) {
            Ok(s) => s,
            Err(e) => {
                return Err(e);
            },
        };
        assert(order_error(order) is None);
        assert(acknowledges(order, snapshot.acknowledgement));
        let ack = snapshot.acknowledgement;
        assert(reported_acknowledgement(ack));
        Ok(Some(ack))
    }
}


/// Each order side, type and time in force has its own Alpaca name.
pub proof fn law_order_wire_names(s: Side, t: AlpacaOrderType, f: AlpacaTimeInForce)
    ensures
        side_name(s) == "buy"@ <==> s is Buy,
        side_name(s) == "sell"@ <==> s is Sell,
        order_type_name(t) == "market"@ <==> t is Market,
        order_type_name(t) == "limit"@ <==> t is Limit,
        time_in_force_name(f) == "day"@ <==> f is Day,
        time_in_force_name(f) == "gtc"@ <==> f is GoodTilCanceled,
        time_in_force_name(f) == "ioc"@ <==> f is ImmediateOrCancel,
        time_in_force_name(f) == "fok"@ <==> f is FillOrKill,
{
    reveal_strlit("buy");
    reveal_strlit("sell");
    reveal_strlit("market");
    reveal_strlit("limit");
    reveal_strlit("day");
    reveal_strlit("gtc");
    reveal_strlit("ioc");
    reveal_strlit("fok");
    assert("buy"@.len() != "sell"@.len());
    assert("market"@.len() != "limit"@.len());
    assert("day"@[0] != "gtc"@[0] && "day"@[0] != "ioc"@[0] && "day"@[0] != "fok"@[0]
        && "gtc"@[0] != "ioc"@[0] && "gtc"@[0] != "fok"@[0] && "ioc"@[0] != "fok"@[0]);
}

} // verus!
