use helio::alpaca::AlpacaCredentials;
use helio::json::JsonValue;
use helio::market_data::{
    parse_trading_frame, parse_u64_text, AlpacaMarketEvent, AlpacaMarketNormalizer,
    AlpacaTradingFrame, MarketDataError, SourceCheckpoint, TradingFrameError,
};
use helio::market_stream::{
    frame_step, market_data_subscribe_message, trading_stream_listen_message, AlpacaStockFeed,
    FrameStep, MarketStreamConfig, StreamError, StreamMessageKind,
};
use helio::native::{body_length_allowed, check_timeout, declared_length_allowed, send_failure, NativeTransportBuildError};
use helio::alpaca::{HttpMethod, TransportError};

#[test]
fn stream_urls_and_symbols_are_closed_over_known_origins() {
    let config = MarketStreamConfig::stocks(AlpacaStockFeed::Iex, vec!["SPY".into()]).unwrap();
    assert_eq!(config.url(), "wss://stream.data.alpaca.markets/v2/iex");
    assert_eq!(
        MarketStreamConfig::stocks(AlpacaStockFeed::Iex, vec!["../SPY".into()]),
        Err(StreamError::InvalidSymbol)
    );
}

#[test]
fn market_frames_are_causal_bounded_and_restartable() {
    let mut normalizer = AlpacaMarketNormalizer::new("v2/iex");
    let records = normalizer
        .normalize_frame(
            br#"[
                {"T":"t","S":"SPY","i":91,"x":"V","p":499.125,"s":2,"c":["@"],"t":"2026-08-31T17:20:00.123456789Z","z":"C"},
                {"T":"q","S":"SPY","bx":"V","bp":499.12,"bs":10,"ax":"V","ap":499.13,"as":12,"c":["R"],"t":"2026-08-31T17:20:00.223456789Z","z":"C"}
            ]"#,
            1_788_196_801_000_000_000,
        )
        .unwrap();
    assert_eq!(records.len(), 2);
    assert_eq!(records[0].offset.sequence, 1);
    assert_eq!(records[1].offset.sequence, 2);
    assert_eq!(records[0].available_at, records[0].observed_at);

    let checkpoint = normalizer.checkpoint();
    let mut resumed = AlpacaMarketNormalizer::resume("v2/iex", checkpoint).unwrap();
    let next = resumed
        .normalize_frame(
            br#"[{"T":"b","S":"SPY","o":499,"h":500,"l":498,"c":499.5,"v":1000,"n":44,"vw":499.25,"t":"2026-08-31T17:21:00Z"}]"#,
            1_788_196_861_000_000_000,
        )
        .unwrap();
    assert_eq!(next[0].offset.sequence, 3);
}

#[test]
fn invalid_market_frame_is_transactional() {
    let mut normalizer = AlpacaMarketNormalizer::new("v2/iex");
    let before = normalizer.checkpoint();
    assert!(normalizer
        .normalize_frame(br#"[{"T":"t","S":"SPY","i":1}]"#, 1_788_196_801_000_000_000)
        .is_err());
    assert_eq!(normalizer.checkpoint(), before);
}

#[test]
fn binary_trade_update_payload_preserves_execution_identity_and_decimal_text() {
    let frame = parse_trading_frame(
        br#"{
            "stream":"trade_updates",
            "data":{
                "event":"partial_fill",
                "execution_id":"exec-7",
                "timestamp":"2026-08-31T17:20:01.5Z",
                "price":"499.1250",
                "qty":"0.5000",
                "order":{
                    "id":"broker-order-1",
                    "client_order_id":"client-order-1",
                    "symbol":"SPY",
                    "side":"buy",
                    "status":"partially_filled",
                    "qty":"2.0",
                    "filled_qty":"0.5",
                    "filled_avg_price":"499.125"
                }
            }
        }"#,
    )
    .unwrap();
    let update = match frame {
        AlpacaTradingFrame::TradeUpdate { update } => update,
        _ => panic!("expected trade update"),
    };
    assert_eq!(update.execution_id.as_deref(), Some("exec-7"));
    assert_eq!(update.execution_quantity.unwrap().as_str(), "0.5");
    assert_eq!(update.execution_price.unwrap().as_str(), "499.125");
}

// ---------------------------------------------------------------------------------------------
// Further cases
// ---------------------------------------------------------------------------------------------

#[test]
fn partitions_are_sequenced_independently() {
    let mut normalizer = AlpacaMarketNormalizer::new("v2/sip");
    let records = normalizer
        .normalize_frame(
            br#"[{"T":"t","S":"SPY","i":"1","x":"V","p":"1","s":"1"},{"T":"t","S":"QQQ","i":"2","x":"V","p":"1","s":"1"},{"T":"t","S":"SPY","i":"3","x":"V","p":"1","s":"1"},{"T":"success","msg":"connected"}]"#,
            10,
        )
        .unwrap();
    let sequences: Vec<(String, u64)> =
        records.iter().map(|r| (r.offset.partition.clone(), r.offset.sequence)).collect();
    assert_eq!(
        sequences,
        vec![
            ("SPY".to_string(), 1),
            ("QQQ".to_string(), 1),
            ("SPY".to_string(), 2),
            ("$control".to_string(), 1)
        ]
    );
    assert_eq!(records[0].event_time, 10);
    assert_eq!(
        records[3].payload,
        AlpacaMarketEvent::Control {
            event_type: "success".into(),
            code: None,
            message: Some("connected".into())
        }
    );
    assert_eq!(normalizer.checkpoint().source, "alpaca-market-data:v2/sip");
}

#[test]
fn observation_time_may_not_go_back() {
    let mut normalizer = AlpacaMarketNormalizer::new("v2/iex");
    normalizer
        .normalize_frame(br#"{"T":"s","S":"SPY","sc":"H"}"#, 100)
        .unwrap();
    assert_eq!(
        normalizer.normalize_frame(br#"{"T":"s","S":"SPY","sc":"T"}"#, 99),
        Err(MarketDataError::ObservationTimeRegression("SPY".into()))
    );
    assert_eq!(
        normalizer.normalize_frame(br#"{"T":"zz","S":"SPY"}"#, 100),
        Err(MarketDataError::UnsupportedEvent("zz".into()))
    );
    assert_eq!(normalizer.normalize_frame(b"42", 100), Err(MarketDataError::InvalidJson));
    assert_eq!(
        normalizer.normalize_frame(br#"[{"T":"t","S":"SPY","i":1,"x":"V","p":"1e3","s":1}]"#, 100),
        Err(MarketDataError::InvalidField("p"))
    );
    assert_eq!(
        normalizer.normalize_frame(br#"{"T":"t","t":"yesterday"}"#, 100),
        Err(MarketDataError::InvalidField("t"))
    );
    let other = AlpacaMarketNormalizer::new("v2/sip").checkpoint();
    assert_eq!(
        AlpacaMarketNormalizer::resume("v2/iex", other).err(),
        Some(MarketDataError::ForeignCheckpoint)
    );
}

#[test]
fn counts_are_read_like_u64_from_str() {
    assert_eq!(parse_u64_text("+44"), Some(44));
    assert_eq!(parse_u64_text("18446744073709551615"), Some(u64::MAX));
    assert_eq!(parse_u64_text("18446744073709551616"), None);
    assert_eq!(parse_u64_text(""), None);
    assert_eq!(parse_u64_text("+"), None);
    assert_eq!(parse_u64_text("-1"), None);
    let mut normalizer = AlpacaMarketNormalizer::new("v2/iex");
    let records = normalizer
        .normalize_frame(
            br#"{"T":"d","S":"SPY","o":1,"h":1,"l":1,"c":1,"v":1,"n":"7","vw":null}"#,
            1,
        )
        .unwrap();
    match &records[0].payload {
        AlpacaMarketEvent::Bar { interval, trade_count, vwap, .. } => {
            assert_eq!(interval, "daily");
            assert_eq!(*trade_count, Some(7));
            assert!(vwap.is_none());
        },
        other => panic!("unexpected {other:?}"),
    }
}

#[test]
fn trading_frames_name_their_stream() {
    assert_eq!(
        parse_trading_frame(br#"{"stream":"authorization","data":{"status":"authorized"}}"#),
        Ok(AlpacaTradingFrame::Authorization { status: "authorized".into() })
    );
    assert_eq!(
        parse_trading_frame(br#"{"stream":"listening","data":{"streams":["trade_updates"]}}"#),
        Ok(AlpacaTradingFrame::Listening { streams: vec!["trade_updates".into()] })
    );
    assert_eq!(
        parse_trading_frame(br#"{"stream":"other","data":{}}"#),
        Err(TradingFrameError::UnsupportedStream("other".into()))
    );
    assert_eq!(
        parse_trading_frame(br#"{"stream":"trade_updates","data":{"event":"fill"}}"#),
        Err(TradingFrameError::InvalidFrame)
    );
    assert_eq!(parse_trading_frame(b"[]"), Err(TradingFrameError::InvalidFrame));
}

#[test]
fn stream_configuration_is_validated() {
    let empty = MarketStreamConfig {
        feed: AlpacaStockFeed::Sip,
        trades: vec![],
        quotes: vec![],
        bars: vec![],
        updated_bars: vec![],
        statuses: vec![],
    };
    assert_eq!(empty.validate(), Err(StreamError::EmptySubscription));
    let too_many: Vec<String> = (0..1001).map(|i| format!("S{i}")).collect();
    assert_eq!(
        MarketStreamConfig::stocks(AlpacaStockFeed::Sip, too_many),
        Err(StreamError::InvalidSymbol)
    );
    let config = MarketStreamConfig::stocks(AlpacaStockFeed::DelayedSip, vec!["BRK-B".into()]).unwrap();
    assert_eq!(config.validate(), Ok(()));
    assert_eq!(config.url(), "wss://stream.data.alpaca.markets/v2/delayed_sip");
}

fn to_serde(value: &JsonValue) -> serde_json::Value {
    match value {
        JsonValue::Null => serde_json::Value::Null,
        JsonValue::Bool(b) => serde_json::Value::Bool(*b),
        JsonValue::Number(n) => serde_json::Value::Number(n.number.clone()),
        JsonValue::String(s) => serde_json::Value::String(s.clone()),
        JsonValue::Array(items) => serde_json::Value::Array(items.iter().map(to_serde).collect()),
        JsonValue::Object(members) => serde_json::Value::Object(
            members.iter().map(|(k, v)| (k.clone(), to_serde(v))).collect(),
        ),
    }
}

fn json_display(value: &JsonValue) -> String {
    serde_json::to_string(&to_serde(value)).unwrap()
}

#[test]
fn control_messages_have_their_wire_shape() {
    let credentials = AlpacaCredentials::try_new("key", "secret").unwrap();
    assert_eq!(
        json_display(&credentials.websocket_auth_message()),
        r#"{"action":"auth","key":"key","secret":"secret"}"#
    );
    let trades = vec!["SPY".to_string()];
    let none: Vec<String> = vec![];
    assert_eq!(
        json_display(&market_data_subscribe_message(&trades, &none, &none, &none, &trades)),
        r#"{"action":"subscribe","bars":[],"quotes":[],"statuses":["SPY"],"trades":["SPY"],"updatedBars":[]}"#
    );
    assert_eq!(
        json_display(&trading_stream_listen_message()),
        r#"{"action":"listen","data":{"streams":["trade_updates"]}}"#
    );
}

#[test]
fn received_messages_are_routed() {
    assert_eq!(frame_step(StreamMessageKind::Text), FrameStep::Deliver);
    assert_eq!(frame_step(StreamMessageKind::Binary), FrameStep::Deliver);
    assert_eq!(frame_step(StreamMessageKind::Ping), FrameStep::Pong);
    assert_eq!(frame_step(StreamMessageKind::Close), FrameStep::Closed);
    assert_eq!(frame_step(StreamMessageKind::Frame), FrameStep::Skip);
}

#[test]
fn native_transport_rules() {
    assert_eq!(check_timeout(0, 0), Err(NativeTransportBuildError::ZeroTimeout));
    assert_eq!(check_timeout(0, 1), Ok(()));
    assert_eq!(send_failure(HttpMethod::Delete), TransportError::OutcomeUnknown);
    assert_eq!(send_failure(HttpMethod::Get), TransportError::Unavailable);
    assert!(declared_length_allowed(Some(4 * 1024 * 1024)));
    assert!(!declared_length_allowed(Some(4 * 1024 * 1024 + 1)));
    assert!(!body_length_allowed(4 * 1024 * 1024 + 1));
}

#[test]
fn stream_and_frame_errors_carry_their_messages() {
    assert_eq!(
        StreamError::InvalidSymbol.message(),
        "Alpaca stream contains an invalid symbol or too many symbols"
    );
    assert_eq!(
        NativeTransportBuildError::ZeroTimeout.message(),
        "Alpaca HTTP timeout must be positive"
    );
    assert_eq!(
        MarketDataError::InvalidField("S").message(),
        "Alpaca market-data event is missing or has an invalid S field"
    );
    assert_eq!(
        MarketDataError::UnsupportedEvent("x".into()).message(),
        "Alpaca market-data event type x is unsupported"
    );
    assert_eq!(
        MarketDataError::ObservationTimeRegression("trade:SPY".into()).message(),
        "Alpaca market-data observation time regressed for partition trade:SPY"
    );
    assert_eq!(
        TradingFrameError::UnsupportedStream("other".into()).message(),
        "Alpaca trading frame used an unsupported stream other"
    );
}

#[test]
fn checkpoints_compare_by_content() {
    let spy = r#"{"T":"t","S":"SPY","i":1,"x":"V","p":1,"s":1,"c":[],"t":"2026-08-31T17:20:00Z","z":"C"}"#;
    let aapl = r#"{"T":"t","S":"AAPL","i":2,"x":"V","p":1,"s":1,"c":[],"t":"2026-08-31T17:20:00Z","z":"C"}"#;
    let mut first = AlpacaMarketNormalizer::new("v2/iex");
    first
        .normalize_frame(format!("[{spy},{aapl}]").as_bytes(), 1_788_196_801_000_000_000)
        .unwrap();
    let mut second = AlpacaMarketNormalizer::new("v2/iex");
    second
        .normalize_frame(format!("[{aapl},{spy}]").as_bytes(), 1_788_196_801_000_000_000)
        .unwrap();
    assert_eq!(first.checkpoint(), second.checkpoint());
    assert_eq!(
        first.checkpoint().positions,
        vec![("AAPL".to_string(), 1), ("SPY".to_string(), 1)]
    );

    let resumed = AlpacaMarketNormalizer::resume(
        "v2/iex",
        SourceCheckpoint {
            source: "alpaca-market-data:v2/iex".to_string(),
            positions: vec![("SPY".to_string(), 5), ("AAPL".to_string(), 2), ("SPY".to_string(), 9)],
            available_at: vec![("SPY".to_string(), 7)],
        },
    )
    .unwrap();
    assert_eq!(
        resumed.checkpoint().positions,
        vec![("AAPL".to_string(), 2), ("SPY".to_string(), 5)]
    );
}
