# helio

The Helios Alpaca integration and agent payloads as a Verus library: the logic is in
`src/` and proved against its contracts; `app/` holds the native edges (blocking HTTP,
WebSocket streams, serde forms) that call it.

## Layout

- `src/text.rs`, `src/decimal.rs`: byte-level text helpers; canonical unsigned and signed
  decimals and their fixed-point (micros) conversions.
- `src/json.rs`: the JSON value model and the `serde_json` calls behind it.
- `src/alpaca.rs`, `src/broker.rs`, `src/responses.rs`, `src/adapter.rs`: configuration and
  credentials, request framing and validation, response decoding and normalization, and the
  broker adapter over a user-supplied transport. The adapter keeps ghost logs of every
  request it hands to the transport and every answer it gets back; each operation states the
  requests it sends and its result as a function of those answers, page by page for the
  paged reads.
- `src/market_stream.rs`, `src/market_data.rs`, `src/native.rs`: stream configuration and
  control messages, the transactional market-data normalizer with its checkpoint, trading
  frames, and the checks of the native transport.
- `src/identity.rs`: execution identities (SHA-256, hex).
- `src/execution.rs`, `src/hypothesis.rs`, `src/projection_cursor.rs`, `src/oms.rs`,
  `src/risk.rs`, `src/bridge.rs`: the execution types, the event-shock hypothesis model, the
  projection cursor, and the OMS and risk agent payloads.

Public proof functions whose names start with `law_` state the properties that hold across
calls (idempotence, round trips, cursor contiguity, probability bounds, normalizer sequencing).

## Checking

`tests/` runs the library against concrete values with the real outside crates linked.
