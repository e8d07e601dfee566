use std::collections::VecDeque;

use sha2::Digest;

use helio::adapter::{
    broker_order_path, lookup_order_path, open_orders_page_path, place_order_body, AlpacaBroker,
};
use helio::alpaca::{
    percent_encode, AlpacaConfig, AlpacaCredentials, AlpacaEnvironment, AlpacaOrderRequest,
    AlpacaOrderType, AlpacaTimeInForce, AlpacaTransport, ConfigurationError, HttpMethod,
    HttpRequest, HttpResponse, TransportError,
};
use helio::decimal::{
    broker_decimal_to_micros, micros_to_decimal, signed_decimal_to_micros, BrokerDecimal,
    MicrosConversionError, SignedDecimal,
};
use helio::execution::{
    BrokerError, BrokerOrderState, ExecutionMode, MoneyMicros, OrderIntent, OrderProposal,
    PriceMicros, QuantityMicros, Side,
};
use helio::identity::execution_identity;
use helio::responses::api_rejection;

#[derive(Default)]
struct FakeTransport {
    responses: VecDeque<Result<HttpResponse, TransportError>>,
    seen: Vec<HttpRequest>,
}

impl FakeTransport {
    fn with(responses: Vec<HttpResponse>) -> Self {
        FakeTransport { responses: responses.into_iter().map(Ok).collect(), seen: Vec::new() }
    }
}

impl AlpacaTransport for FakeTransport {
    fn execute(&mut self, request: HttpRequest) -> Result<HttpResponse, TransportError> {
        self.seen.push(request);
        self.responses.pop_front().unwrap_or(Err(TransportError::Unavailable))
    }
}

fn response(status: u16, body: &str) -> HttpResponse {
    HttpResponse { status, body: body.as_bytes().to_vec() }
}

fn order(status: &str, filled_qty: &str) -> String {
    let average = if filled_qty == "0" { "null".to_string() } else { "\"499.125\"".to_string() };
    format!(
        "{{\"id\":\"broker-order-1\",\"client_order_id\":\"client-order-1\",\"status\":\"{status}\",\"symbol\":\"SPY\",\"side\":\"buy\",\"qty\":\"2\",\"filled_qty\":\"{filled_qty}\",\"filled_avg_price\":{average},\"submitted_at\":\"2026-08-31T17:20:00.123456789Z\",\"updated_at\":\"2026-08-31T17:20:01.123456789Z\"}}"
    )
}

fn broker(transport: FakeTransport) -> AlpacaBroker<FakeTransport> {
    AlpacaBroker::try_new(
        AlpacaConfig::paper(),
        AlpacaCredentials::try_new("paper-key", "paper-secret").unwrap(),
        transport,
    )
    .unwrap()
}

fn intent() -> OrderIntent {
    OrderIntent {
        client_order_id: "client-order-1".into(),
        proposal: OrderProposal {
            proposal_id: "proposal-1".into(),
            strategy_id: "strategy-1".into(),
            symbol: "SPY".into(),
            venue: "ALPACA".into(),
            currency: "USD".into(),
            side: Side::Buy,
            quantity: QuantityMicros(2_000_000),
            limit_price: PriceMicros(499_125_000),
            mode: ExecutionMode::Paper,
            trading_day: 20260831,
        },
        authorized_notional: MoneyMicros(998_250_000),
        risk_policy_version: "paper-risk-v1".into(),
        authorized_at_ns: 1,
    }
}

fn rejection_text(error: BrokerError) -> String {
    match error {
        BrokerError::Rejected(message) => message,
        other => panic!("expected a rejection, got {other:?}"),
    }
}

#[test]
fn credentials_and_request_debug_are_redacted() {
    let credentials = AlpacaCredentials::try_new("very-secret-key", "more-secret").unwrap();
    let credentials_debug = credentials.debug_text();
    assert!(!credentials_debug.contains("very-secret-key"));
    assert!(!credentials_debug.contains("more-secret"));
    let mut headers = Vec::new();
    credentials.apply(&mut headers);
    let request = HttpRequest {
        method: HttpMethod::Post,
        path_and_query: "/v2/orders".into(),
        headers,
        body: br#"{"secret":"body"}"#.to_vec(),
    };
    let request_debug = request.debug_text();
    assert!(!request_debug.contains("very-secret-key"));
    assert!(!request_debug.contains("secret"));
}

#[test]
fn credentials_replace_headers_of_the_same_name() {
    let credentials = AlpacaCredentials::try_new("key-id", "secret").unwrap();
    let mut headers = vec![
        ("APCA-API-SECRET-KEY".to_string(), "stale".to_string()),
        ("Accept".to_string(), "text/plain".to_string()),
    ];
    credentials.apply(&mut headers);
    assert_eq!(
        headers,
        vec![
            ("APCA-API-SECRET-KEY".to_string(), "secret".to_string()),
            ("Accept".to_string(), "text/plain".to_string()),
            ("APCA-API-KEY-ID".to_string(), "key-id".to_string()),
        ]
    );
}

#[test]
fn broker_port_submits_exact_fixed_point_paper_limit_order() {
    let mut adapter = broker(FakeTransport::with(vec![response(200, &order("new", "0"))]));
    let acknowledgement = adapter.submit(&intent()).unwrap();
    assert_eq!(acknowledgement.client_order_id, "client-order-1");

    let transport = adapter.into_transport();
    assert_eq!(transport.seen.len(), 1);
    let request = &transport.seen[0];
    assert_eq!(request.method, HttpMethod::Post);
    assert_eq!(request.path_and_query, "/v2/orders");
    assert_eq!(request.header("APCA-API-KEY-ID").unwrap(), "paper-key");
    let expected: serde_json::Value = serde_json::from_str(
        r#"{"symbol":"SPY","qty":"2","side":"buy","type":"limit","time_in_force":"day","client_order_id":"client-order-1","extended_hours":false,"limit_price":"499.125"}"#,
    )
    .unwrap();
    assert_eq!(serde_json::from_slice::<serde_json::Value>(&request.body).unwrap(), expected);
}

#[test]
fn market_and_extended_hours_order_constraints_fail_closed() {
    let mut adapter = broker(FakeTransport::default());
    let base = AlpacaOrderRequest {
        client_order_id: "market-1".into(),
        symbol: "SPY".into(),
        side: Side::Buy,
        quantity: BrokerDecimal::try_new("1").unwrap(),
        order_type: AlpacaOrderType::Market,
        time_in_force: AlpacaTimeInForce::Day,
        limit_price: None,
        extended_hours: true,
    };
    assert!(matches!(adapter.submit_order(&base), Err(BrokerError::Rejected(_))));
    let mut malformed = base;
    malformed.extended_hours = false;
    malformed.limit_price = Some(BrokerDecimal::try_new("1").unwrap());
    assert!(matches!(adapter.submit_order(&malformed), Err(BrokerError::Rejected(_))));
}

#[test]
fn ambiguous_mutation_never_reports_a_rejection_or_success() {
    let transport = FakeTransport {
        responses: VecDeque::from([Err(TransportError::OutcomeUnknown)]),
        seen: Vec::new(),
    };
    let mut adapter = broker(transport);
    assert_eq!(adapter.submit(&intent()), Err(BrokerError::AmbiguousOutcome));
}

#[test]
fn reconciliation_attaches_exact_fill_activities() {
    let fills = r#"[{"id":"fill-9","activity_type":"FILL","transaction_time":"2026-08-31T17:20:01.5Z","type":"partial_fill","price":"499.125","qty":"0.5","side":"buy","symbol":"SPY","leaves_qty":"1.5","order_id":"broker-order-1","cum_qty":"0.5"}]"#;
    let mut adapter = broker(FakeTransport::with(vec![
        response(200, &order("partially_filled", "0.5")),
        response(200, fills),
    ]));
    let snapshot = adapter.fetch_order_by_client_order_id("client-order-1").unwrap().unwrap();
    assert_eq!(snapshot.state, BrokerOrderState::PartiallyFilled);
    assert_eq!(snapshot.executions.len(), 1);
    assert_eq!(snapshot.executions[0].execution_id, "fill-9");
    assert_eq!(snapshot.executions[0].quantity.as_str(), "0.5");
}

#[test]
fn cancel_is_async_and_returns_refetched_broker_truth() {
    let mut adapter = broker(FakeTransport::with(vec![
        response(200, &order("new", "0")),
        HttpResponse { status: 204, body: Vec::new() },
        response(200, &order("canceled", "0")),
    ]));
    let snapshot = adapter.cancel_by_client_order_id("client-order-1").unwrap();
    assert_eq!(snapshot.state, BrokerOrderState::Canceled);
    let transport = adapter.into_transport();
    assert_eq!(transport.seen[1].method, HttpMethod::Delete);
    assert_eq!(transport.seen[1].path_and_query, "/v2/orders/broker-order-1");
}

#[test]
fn positions_preserve_signed_exact_decimals() {
    let positions = r#"[{"asset_id":"asset-1","symbol":"SPY","exchange":"ARCA","asset_class":"us_equity","qty":"-2.5000","qty_available":"-2.5","side":"short","avg_entry_price":"500.00","market_value":"-1245.125","cost_basis":"-1250","unrealized_pl":"4.875","unrealized_plpc":"0.0039","current_price":"498.05","lastday_price":"497.90","change_today":"0.000301"}]"#;
    let mut adapter = broker(FakeTransport::with(vec![response(200, positions)]));
    let positions = adapter.positions().unwrap();
    assert_eq!(positions[0].quantity.as_str(), "-2.5");
    assert_eq!(positions[0].market_value.as_str(), "-1245.125");
}

#[test]
fn startup_inventory_is_bounded_and_queries_only_open_orders() {
    let page = format!("[{}]", order("new", "0"));
    let mut adapter = broker(FakeTransport::with(vec![response(200, &page)]));
    let orders = adapter.open_orders_for_reconciliation().unwrap();
    assert_eq!(orders.len(), 1);
    let transport = adapter.into_transport();
    assert_eq!(
        transport.seen[0].path_and_query,
        "/v2/orders?status=open&limit=100&direction=asc&nested=false"
    );
}

#[test]
fn signed_decimal_canonicalizes_and_rejects_exponents() {
    assert_eq!(SignedDecimal::try_new("-001.2300").unwrap().as_str(), "-1.23");
    assert_eq!(SignedDecimal::try_new("-0.000").unwrap().as_str(), "0");
    assert!(SignedDecimal::try_new("1e9").is_err());
}

#[test]
fn fixed_point_conversion_is_exact_and_never_rounds_silently() {
    assert_eq!(broker_decimal_to_micros(&BrokerDecimal::try_new("499.125").unwrap()), Ok(499_125_000));
    assert_eq!(signed_decimal_to_micros(&SignedDecimal::try_new("-2.5").unwrap()), Ok(-2_500_000));
    assert_eq!(
        broker_decimal_to_micros(&BrokerDecimal::try_new("0.0000001").unwrap()),
        Err(MicrosConversionError::PrecisionLoss)
    );
}

// ---------------------------------------------------------------------------------------------
// Further cases
// ---------------------------------------------------------------------------------------------

#[test]
fn configuration_bounds_are_checked() {
    let mut config = AlpacaConfig::paper();
    config.reconciliation_page_size = 0;
    let credentials = AlpacaCredentials::try_new("k", "s").unwrap();
    assert_eq!(
        AlpacaBroker::try_new(config, credentials, FakeTransport::default()).err(),
        Some(ConfigurationError::InvalidReconciliationBounds)
    );
    let mut config = AlpacaConfig::paper();
    config.venue = "  ".into();
    assert_eq!(config.validate(), Err(ConfigurationError::InvalidVenue));
    assert_eq!(AlpacaCredentials::try_new("", "s").err(), Some(ConfigurationError::InvalidCredentials));
    assert_eq!(
        AlpacaCredentials::try_new("key with space", "s").err(),
        Some(ConfigurationError::InvalidCredentials)
    );
}

#[test]
fn environment_origins_are_fixed() {
    assert_eq!(AlpacaEnvironment::Paper.api_origin(), "https://paper-api.alpaca.markets");
    assert_eq!(AlpacaEnvironment::Live.api_origin(), "https://api.alpaca.markets");
    assert_eq!(AlpacaEnvironment::Live.trading_stream_url(), "wss://api.alpaca.markets/stream");
}

#[test]
fn unexpected_status_carries_the_api_message_and_code() {
    let error = api_rejection(response(422, "{\"message\":\"qty\\u0007 too big\",\"code\":40010001}"));
    assert_eq!(rejection_text(error), "Alpaca HTTP 422: qty too big (code 40010001)");
    let error = api_rejection(response(403, "{\"message\":\"forbidden\",\"code\":\"x\"}"));
    assert_eq!(rejection_text(error), "Alpaca HTTP 403: forbidden (code \"x\")");
    let error = api_rejection(response(500, "not json"));
    assert_eq!(
        rejection_text(error),
        "Alpaca HTTP 500: request rejected without a valid error body"
    );
    let error = api_rejection(response(500, "{\"code\":1}"));
    assert_eq!(
        rejection_text(error),
        "Alpaca HTTP 500: request rejected without a valid error body"
    );
    let long = "a".repeat(300);
    let error = api_rejection(response(400, &format!("{{\"message\":\"{long}\"}}")));
    assert_eq!(rejection_text(error), format!("Alpaca HTTP 400: {}", "a".repeat(256)));
}

#[test]
fn placement_with_another_identity_is_refused() {
    let other = order("new", "0").replace("client-order-1", "client-order-2");
    let mut adapter = broker(FakeTransport::with(vec![response(201, &other)]));
    let error = adapter.submit(&intent()).unwrap_err();
    assert_eq!(rejection_text(error), "Alpaca returned a different client order identity");
}

#[test]
fn invalid_json_and_overfills_are_refused() {
    let mut adapter = broker(FakeTransport::with(vec![response(200, "{")]));
    assert_eq!(rejection_text(adapter.account().unwrap_err()), "Alpaca returned invalid JSON");
    let overfilled = order("filled", "3");
    let mut adapter = broker(FakeTransport::with(vec![response(200, &overfilled)]));
    assert_eq!(
        rejection_text(adapter.lookup_by_client_order_id("client-order-1").unwrap_err()),
        "Alpaca reported an overfilled order"
    );
}

#[test]
fn unknown_order_lookup_is_none() {
    let mut adapter = broker(FakeTransport::with(vec![response(404, "{}")]));
    assert_eq!(adapter.lookup_by_client_order_id("client-order-1"), Ok(None));
    let mut adapter = broker(FakeTransport::default());
    assert!(matches!(
        adapter.lookup_by_client_order_id("bad id"),
        Err(BrokerError::Rejected(_))
    ));
    assert!(adapter.into_transport().seen.is_empty());
}

#[test]
fn intent_mismatches_are_refused_before_sending() {
    let mut adapter = broker(FakeTransport::default());
    let mut wrong = intent();
    wrong.authorized_notional = MoneyMicros(1);
    assert_eq!(
        rejection_text(adapter.submit(&wrong).unwrap_err()),
        "authorized notional does not match price and quantity"
    );
    let mut live = intent();
    live.proposal.mode = ExecutionMode::Live;
    assert_eq!(
        rejection_text(adapter.submit(&live).unwrap_err()),
        "order execution mode does not match Alpaca environment"
    );
    assert!(adapter.into_transport().seen.is_empty());
}

#[test]
fn request_paths_are_framed_and_encoded() {
    assert_eq!(percent_encode("a b/c~"), "a%20b%2Fc~");
    assert_eq!(
        lookup_order_path("id 1"),
        "/v2/orders:by_client_order_id?client_order_id=id%201"
    );
    assert_eq!(broker_order_path("x-1"), "/v2/orders/x-1");
    let after = "o/1".to_string();
    assert_eq!(
        open_orders_page_path(50, Some(&after)),
        "/v2/orders?status=open&limit=50&direction=asc&nested=false&after_order_id=o%2F1"
    );
}

#[test]
fn order_body_carries_escaped_strings() {
    let request = AlpacaOrderRequest {
        client_order_id: "id\"1".into(),
        symbol: "SPY".into(),
        side: Side::Sell,
        quantity: BrokerDecimal::try_new("01.50").unwrap(),
        order_type: AlpacaOrderType::Market,
        time_in_force: AlpacaTimeInForce::GoodTilCanceled,
        limit_price: None,
        extended_hours: false,
    };
    assert_eq!(
        String::from_utf8(place_order_body(&request)).unwrap(),
        r#"{"symbol":"SPY","qty":"1.5","side":"sell","type":"market","time_in_force":"gtc","client_order_id":"id\"1","extended_hours":false}"#
    );
}

#[test]
fn micros_render_without_trailing_zeros() {
    assert_eq!(micros_to_decimal(499_125_000), "499.125");
    assert_eq!(micros_to_decimal(2_000_000), "2");
    assert_eq!(micros_to_decimal(1), "0.000001");
    assert_eq!(micros_to_decimal(0), "0");
}

#[test]
fn execution_identity_is_the_hex_digest_of_its_parts() {
    let expected = hex::encode(sha2::Sha256::digest(b"order\0exec\02026"));
    let identity = execution_identity("order", "exec", "2026");
    assert_eq!(identity, expected);
    assert_eq!(identity.len(), 64);
    assert_ne!(identity, execution_identity("order", "exec", "2027"));
}

#[test]
fn adapter_errors_carry_their_messages() {
    assert_eq!(
        ConfigurationError::InvalidCredentials.message(),
        "Alpaca API key and secret must be non-empty printable ASCII"
    );
    assert_eq!(
        ConfigurationError::InvalidReconciliationBounds.message(),
        "Alpaca reconciliation bounds are invalid"
    );
    assert_eq!(TransportError::OutcomeUnknown.message(), "Alpaca request outcome is unknown");
    assert_eq!(
        MicrosConversionError::PrecisionLoss.message(),
        "decimal has more than six non-zero fractional digits"
    );
    assert_eq!(
        SignedDecimal::try_new("1e3").unwrap_err().message(),
        "invalid signed base-10 decimal"
    );
}

#[test]
fn request_debug_escapes_the_path_and_sorts_header_names() {
    let request = HttpRequest {
        method: HttpMethod::Get,
        path_and_query: "/v2/a\"b\n\u{1b}\\".into(),
        headers: vec![
            ("B".to_string(), "1".to_string()),
            ("Accept".to_string(), "2".to_string()),
            ("B".to_string(), "3".to_string()),
        ],
        body: Vec::new(),
    };
    assert_eq!(
        request.debug_text(),
        r#"HttpRequest { method: Get, path_and_query: "/v2/a\"b\n\u{1b}\\", header_names: ["Accept", "B"], body_bytes: 0 }"#
    );
}

#[test]
fn api_bodies_may_use_the_positional_struct_form() {
    let positional = r#"["broker-order-1","client-order-1","new","SPY","buy","2","0",null,"2026-08-31T17:20:00.123456789Z","2026-08-31T17:20:01.123456789Z"]"#;
    let mut adapter = broker(FakeTransport::with(vec![response(200, positional)]));
    let found = adapter.lookup_by_client_order_id("client-order-1").unwrap().unwrap();
    assert_eq!(found.broker_order_id, "broker-order-1");

    let short = r#"["broker-order-1","client-order-1","new","SPY","buy","2","0",null,"2026-08-31T17:20:00.123456789Z"]"#;
    let mut adapter = broker(FakeTransport::with(vec![response(200, short)]));
    assert_eq!(
        rejection_text(adapter.lookup_by_client_order_id("client-order-1").unwrap_err()),
        "Alpaca returned invalid JSON"
    );
}
