//! The typed boundary of the durable OMS account agent: its inputs and outputs, their
//! conversion into execution values, and the agent's own checks and errors.

use vstd::prelude::*;
use vstd::utf8::*;
use crate::text::{nat_digits, push_number, push_str, str_eq, text_bytes, utf8_string};
use crate::execution::{ExecutionMode, MoneyMicros, OrderIntent, OrderProposal, PriceMicros, QuantityMicros, Side};

verus! {

broadcast use vstd::utf8::group_utf8_lib;

/// The version of the OMS agent's snapshot format.
pub const OMS_SNAPSHOT_FORMAT_VERSION: u32 = 1;

/// At most this many events are returned by one `events_after` call.
pub const MAX_EVENT_BATCH_SIZE: u32 = 1024;

#[derive(Debug, Clone, Copy, PartialEq, Eq, Structural)]
pub enum SideInput {
    Buy,
    Sell,
}

#[derive(Debug, Clone, Copy, PartialEq, Eq, Structural)]
pub enum ExecutionModeInput {
    Paper,
    Live,
}

#[derive(Debug, Clone, Copy, PartialEq, Eq, Structural)]
pub enum TimeInForceInput {
    Day,
    GoodTillCanceled,
    ImmediateOrCancel,
    FillOrKill,
}

#[derive(Debug, Clone, Copy, PartialEq, Eq, Structural)]
pub enum ReconciledStateInput {
    Working,
    Canceled,
    Rejected,
    Expired,
}

#[derive(Debug, Clone, Copy, PartialEq, Eq, Structural)]
pub enum OrderStateOutput {
    PendingSubmit,
    Working,
    PartiallyFilled,
    PendingCancel,
    PendingReplace,
    Filled,
    Canceled,
    Rejected,
    Expired,
    Unknown,
}

#[derive(Debug, Clone, PartialEq, Eq)]
pub struct OrderIntentInput {
    pub client_order_id: String,
    pub proposal_id: String,
    pub strategy_id: String,
    pub symbol: String,
    pub venue: String,
    pub currency: String,
    pub side: SideInput,
    pub quantity_micros: u64,
    pub limit_price_micros: u64,
    pub execution_mode: ExecutionModeInput,
    pub trading_day: i32,
    pub authorized_notional_micros: u64,
    pub risk_policy_version: String,
    pub authorized_at_ns: u64,
}

#[derive(Debug, Clone, PartialEq, Eq)]
pub struct SubmitOrderInput {
    pub command_id: String,
    pub intent: OrderIntentInput,
    pub time_in_force: TimeInForceInput,
    pub at_ns: u64,
}

#[derive(Debug, Clone, PartialEq, Eq)]
pub struct VenueAcknowledgementInput {
    pub command_id: String,
    pub client_order_id: String,
    pub broker_order_id: String,
    pub at_ns: u64,
}

#[derive(Debug, Clone, PartialEq, Eq)]
pub struct FillInput {
    pub command_id: String,
    pub client_order_id: String,
    pub broker_order_id: Option<String>,
    pub execution_id: String,
    pub venue_occurred_at: Option<String>,
    pub quantity_micros: u64,
    pub price_micros: u64,
    pub at_ns: u64,
}

#[derive(Debug, Clone, PartialEq, Eq)]
pub struct OrderActionInput {
    pub command_id: String,
    pub client_order_id: String,
    pub at_ns: u64,
}

#[derive(Debug, Clone, PartialEq, Eq)]
pub struct OrderReasonInput {
    pub command_id: String,
    pub client_order_id: String,
    pub reason: String,
    pub at_ns: u64,
}

#[derive(Debug, Clone, PartialEq, Eq)]
pub struct ReplaceOrderInput {
    pub command_id: String,
    pub client_order_id: String,
    pub new_quantity_micros: u64,
    pub new_limit_price_micros: u64,
    pub at_ns: u64,
}

#[derive(Debug, Clone, PartialEq, Eq)]
pub struct ConfirmReplaceInput {
    pub command_id: String,
    pub client_order_id: String,
    pub broker_order_id: String,
    pub at_ns: u64,
}

#[derive(Debug, Clone, PartialEq, Eq)]
pub struct RejectPendingActionInput {
    pub command_id: String,
    pub client_order_id: String,
    pub reason: String,
    pub at_ns: u64,
}

#[derive(Debug, Clone, PartialEq, Eq)]
pub struct ReconcileUnknownInput {
    pub command_id: String,
    pub client_order_id: String,
    pub broker_order_id: Option<String>,
    pub state: ReconciledStateInput,
    pub at_ns: u64,
}

#[derive(Debug, Clone, PartialEq, Eq)]
pub struct CommandReceiptOutput {
    pub command_id: String,
    pub client_order_id: String,
    pub version: u64,
    pub replayed: bool,
    pub event_count: u32,
}

#[derive(Debug, Clone, PartialEq, Eq)]
pub struct OrderView {
    pub client_order_id: String,
    pub broker_order_id: Option<String>,
    pub state: OrderStateOutput,
    pub symbol: String,
    pub venue: String,
    pub side: SideInput,
    pub time_in_force: TimeInForceInput,
    pub working_quantity_micros: u64,
    pub working_limit_price_micros: u64,
    pub filled_quantity_micros: u64,
    pub average_fill_price_micros: Option<u64>,
    pub filled_notional_micros: u64,
    pub version: u64,
    pub last_update_at_ns: u64,
    pub uncertainty_reason: Option<String>,
}

#[derive(Debug, Clone, PartialEq, Eq)]
pub struct EventBatchOutput {
    pub next_cursor: u64,
    /// Canonical event-envelope JSON; schema versioning lives inside each envelope.
    pub events_json: Vec<String>,
}

#[derive(Debug, Clone, PartialEq, Eq)]
pub enum OmsAgentError {
    NotInitialized { detail: String },
    CommandRejected { detail: String },
    SerializationFailed { detail: String },
    EventBatchCapacityExceeded { found: u32, capacity: u32 },
}

// ---------------------------------------------------------------------------------------------
// Conversions
// ---------------------------------------------------------------------------------------------

pub open spec fn side_of(side: SideInput) -> Side {
    match side {
        SideInput::Buy => Side::Buy,
        SideInput::Sell => Side::Sell,
    }
}

pub open spec fn side_input_of(side: Side) -> SideInput {
    match side {
        Side::Buy => SideInput::Buy,
        Side::Sell => SideInput::Sell,
    }
}

pub open spec fn mode_of(mode: ExecutionModeInput) -> ExecutionMode {
    match mode {
        ExecutionModeInput::Paper => ExecutionMode::Paper,
        ExecutionModeInput::Live => ExecutionMode::Live,
    }
}

/// The order intent an input describes, field for field.
pub open spec fn intent_of(input: OrderIntentInput) -> OrderIntent {
    OrderIntent {
        client_order_id: input.client_order_id,
        proposal: OrderProposal {
            proposal_id: input.proposal_id,
            strategy_id: input.strategy_id,
            symbol: input.symbol,
            venue: input.venue,
            currency: input.currency,
            side: side_of(input.side),
            quantity: QuantityMicros(input.quantity_micros),
            limit_price: PriceMicros(input.limit_price_micros),
            mode: mode_of(input.execution_mode),
            trading_day: input.trading_day,
        },
        authorized_notional: MoneyMicros(input.authorized_notional_micros),
        risk_policy_version: input.risk_policy_version,
        authorized_at_ns: input.authorized_at_ns,
    }
}

impl From<SideInput> for Side {
    fn from(side: SideInput) -> (res: Side) {
        match side {
            SideInput::Buy => Side::Buy,
            SideInput::Sell => Side::Sell,
        }
    }
}

impl vstd::std_specs::convert::FromSpecImpl<SideInput> for Side {
    open spec fn obeys_from_spec() -> bool {
        true
    }

    open spec fn from_spec(side: SideInput) -> Side {
        side_of(side)
    }
}

impl From<Side> for SideInput {
    fn from(side: Side) -> (res: SideInput) {
        match side {
            Side::Buy => SideInput::Buy,
            Side::Sell => SideInput::Sell,
        }
    }
}

impl vstd::std_specs::convert::FromSpecImpl<Side> for SideInput {
    open spec fn obeys_from_spec() -> bool {
        true
    }

    open spec fn from_spec(side: Side) -> SideInput {
        side_input_of(side)
    }
}

impl From<ExecutionModeInput> for ExecutionMode {
    fn from(mode: ExecutionModeInput) -> (res: ExecutionMode) {
        match mode {
            ExecutionModeInput::Paper => ExecutionMode::Paper,
            ExecutionModeInput::Live => ExecutionMode::Live,
        }
    }
}

impl vstd::std_specs::convert::FromSpecImpl<ExecutionModeInput> for ExecutionMode {
    open spec fn obeys_from_spec() -> bool {
        true
    }

    open spec fn from_spec(mode: ExecutionModeInput) -> ExecutionMode {
        mode_of(mode)
    }
}

impl From<OrderIntentInput> for OrderIntent {
    fn from(input: OrderIntentInput) -> (res: OrderIntent) {
        OrderIntent {
            client_order_id: input.client_order_id,
            proposal: OrderProposal {
                proposal_id: input.proposal_id,
                strategy_id: input.strategy_id,
                symbol: input.symbol,
                venue: input.venue,
                currency: input.currency,
                side: Side::from(input.side),
                quantity: QuantityMicros(input.quantity_micros),
                limit_price: PriceMicros(input.limit_price_micros),
                mode: ExecutionMode::from(input.execution_mode),
                trading_day: input.trading_day,
            },
            authorized_notional: MoneyMicros(input.authorized_notional_micros),
            risk_policy_version: input.risk_policy_version,
            authorized_at_ns: input.authorized_at_ns,
        }
    }
}

impl vstd::std_specs::convert::FromSpecImpl<OrderIntentInput> for OrderIntent {
    open spec fn obeys_from_spec() -> bool {
        true
    }

    open spec fn from_spec(input: OrderIntentInput) -> OrderIntent {
        intent_of(input)
    }
}

// ---------------------------------------------------------------------------------------------
// The agent's own checks
// ---------------------------------------------------------------------------------------------

pub open spec fn unavailable_detail() -> Seq<char> {
    "durable OMS state is unavailable"@
}

/// The error of an agent whose OMS state is unavailable: the initialization error when there
/// was one.
pub fn not_initialized(initialization_error: &Option<String>) -> (res: OmsAgentError)
    ensures
        res matches OmsAgentError::NotInitialized { detail } && detail@ == match initialization_error {
            Some(e) => e@,
            None => unavailable_detail(),
        },
{
    let detail = match initialization_error {
        Some(e) => e.clone(),
        None => "durable OMS state is unavailable".to_owned(),
    };
    OmsAgentError::NotInitialized { detail }
}

/// An OMS refusal of a command.
pub fn agent_error(detail: &str) -> (res: OmsAgentError)
    ensures
        res matches OmsAgentError::CommandRejected { detail: d } && d@ == detail@,
{
    OmsAgentError::CommandRejected { detail: detail.to_owned() }
}

/// A batch may hold at most 1024 events.
pub fn check_event_batch_limit(limit: u32) -> (res: Result<(), OmsAgentError>)
    ensures
        limit <= MAX_EVENT_BATCH_SIZE ==> res is Ok,
        limit > MAX_EVENT_BATCH_SIZE ==> res == Err::<(), OmsAgentError>(
            OmsAgentError::EventBatchCapacityExceeded { found: limit, capacity: MAX_EVENT_BATCH_SIZE },
        ),
{
    if limit > MAX_EVENT_BATCH_SIZE {
        return Err(
            OmsAgentError::EventBatchCapacityExceeded { found: limit, capacity: MAX_EVENT_BATCH_SIZE },
        );
    }
    Ok(())
}

/// The cursor to resume from after a batch: that of its last event, or the requested one when
/// the batch is empty.
pub open spec fn next_cursor_of(cursor: u64, event_cursors: Seq<u64>) -> u64 {
    if event_cursors.len() == 0 {
        cursor
    } else {
        event_cursors.last()
    }
}

/// The batch returned for events after `cursor`, from each event's cursor and JSON.
pub fn event_batch(cursor: u64, events: Vec<(u64, String)>) -> (res: EventBatchOutput)
    ensures
        res.next_cursor == next_cursor_of(cursor, events@.map_values(|e: (u64, String)| e.0)),
        res.events_json@.len() == events@.len(),
        forall|i: int| 0 <= i < events@.len() ==> #[trigger] res.events_json@[i] == events@[i].1,
{
    let next_cursor = if events.len() == 0 {
        cursor
    } else {
        events[events.len() - 1].0
    };
    let mut events_json: Vec<String> = Vec::new();
    let mut i: usize = 0;
    while i < events.len()
        invariant
            i <= events.len(),
            events_json@.len() == i,
            forall|j: int| 0 <= j < i ==> #[trigger] events_json@[j] == events@[j].1,
        decreases events.len() - i,
    {
        events_json.push(events[i].1.clone());
        i = i + 1;
    }
    EventBatchOutput { next_cursor, events_json }
}

/// A snapshot restores the agent only in the current format and for the same account.
pub fn check_oms_snapshot(format_version: u32, snapshot_account: &str, account_id: &str) -> (res:
    Result<(), String>)
    ensures
        format_version != OMS_SNAPSHOT_FORMAT_VERSION ==> (res matches Err(m) && text_bytes(m@)
            == text_bytes("unsupported OMS snapshot version "@) + nat_digits(format_version as nat)
            + text_bytes("; expected 1"@)),
        format_version == OMS_SNAPSHOT_FORMAT_VERSION && snapshot_account@ != account_id@ ==> (
        res matches Err(m) && m@ == "OMS snapshot account does not match the agent identity"@),
        format_version == OMS_SNAPSHOT_FORMAT_VERSION && snapshot_account@ == account_id@ ==> res is Ok,
{
    if format_version != OMS_SNAPSHOT_FORMAT_VERSION {
        let mut out: Vec<u8> = Vec::new();
        assert(out@ =~= encode_utf8(Seq::<char>::empty()));
        push_str(&mut out, "unsupported OMS snapshot version ");
        push_number(&mut out, format_version as u64);
        push_str(&mut out, "; expected 1");
        return Err(utf8_string(out));
    }
    if !str_eq(snapshot_account, account_id) {
        return Err("OMS snapshot account does not match the agent identity".to_owned());
    }
    Ok(())
}


/// Sides and modes cross the agent boundary unchanged: a buy stays a buy and a sell a sell,
/// both ways round, and a paper request runs on paper.
pub proof fn law_sides_and_modes_cross_unchanged(input: SideInput, side: Side, mode: ExecutionModeInput)
    ensures
        side_input_of(side_of(input)) == input,
        side_of(side_input_of(side)) == side,
        side_of(input) is Buy <==> input is Buy,
        side_input_of(side) is Buy <==> side is Buy,
        mode_of(mode) is Paper <==> mode is Paper,
{
}

/// An order intent keeps each value of its input under the matching name.
pub proof fn law_intent_keeps_each_field(input: OrderIntentInput)
    ensures
        intent_of(input).client_order_id == input.client_order_id,
        intent_of(input).proposal.proposal_id == input.proposal_id,
        intent_of(input).proposal.strategy_id == input.strategy_id,
        intent_of(input).proposal.symbol == input.symbol,
        intent_of(input).proposal.venue == input.venue,
        intent_of(input).proposal.currency == input.currency,
        intent_of(input).proposal.side is Buy <==> input.side is Buy,
        intent_of(input).proposal.quantity.0 == input.quantity_micros,
        intent_of(input).proposal.limit_price.0 == input.limit_price_micros,
        intent_of(input).proposal.mode is Paper <==> input.execution_mode is Paper,
        intent_of(input).proposal.trading_day == input.trading_day,
        intent_of(input).authorized_notional.0 == input.authorized_notional_micros,
        intent_of(input).risk_policy_version == input.risk_policy_version,
        intent_of(input).authorized_at_ns == input.authorized_at_ns,
{
}

} // verus!
