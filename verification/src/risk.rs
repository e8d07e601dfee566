//! The typed boundary of the durable risk account agent: its inputs and outputs, the
//! validation of a portfolio snapshot, the one-time configuration rule, the codes of risk
//! rejections, and the agent's errors.

use vstd::prelude::*;
use vstd::string::StringSliceAdditionalSpecFns;
use vstd::utf8::*;
use crate::execution::{ExecutionMode, MoneyMicros, OrderIntent, OrderProposal, PriceMicros, QuantityMicros};
use crate::oms::{mode_of, side_input_of, side_of, ExecutionModeInput, OrderIntentInput, SideInput};
use crate::text::{is_blank, is_blank_text, nat_digits, push_number, push_str, str_eq, text_bytes, utf8_string};

verus! {

broadcast use {vstd::seq_lib::group_seq_properties, vstd::utf8::group_utf8_lib};

/// The version of the risk agent's snapshot format.
pub const RISK_SNAPSHOT_FORMAT_VERSION: u32 = 1;

#[derive(Debug, Clone, PartialEq, Eq)]
pub struct NamedExposureInput {
    pub name: String,
    pub amount_micros: u64,
}

#[derive(Debug, Clone, PartialEq, Eq)]
pub struct SymbolPositionInput {
    pub symbol: String,
    pub quantity_micros: i64,
}

#[derive(Debug, Clone, PartialEq, Eq)]
pub struct PortfolioRiskInput {
    pub as_of_ns: u64,
    pub trading_day: i32,
    pub gross_exposure_micros: u64,
    pub strategy_exposure: Vec<NamedExposureInput>,
    pub symbol_positions: Vec<SymbolPositionInput>,
    pub daily_order_count: u32,
}

#[derive(Debug, Clone, PartialEq, Eq)]
pub struct ConfigureRiskInput {
    pub risk_policy_json: String,
    pub venue_schedule_json: String,
    pub initial_portfolio: PortfolioRiskInput,
}

#[derive(Debug, Clone, PartialEq, Eq)]
pub struct RiskProposalInput {
    pub proposal_id: String,
    pub strategy_id: String,
    pub symbol: String,
    pub venue: String,
    pub currency: String,
    pub side: SideInput,
    pub quantity_micros: u64,
    pub limit_price_micros: u64,
    pub execution_mode: ExecutionModeInput,
    pub trading_day: i32,
}

#[derive(Debug, Clone, Copy, PartialEq, Eq, Structural)]
pub struct RiskContextInput {
    pub now_ns: u64,
    pub market_data_at_ns: u64,
    pub venue_time_utc_sec: i64,
}

#[derive(Debug, Clone, PartialEq, Eq)]
pub struct AuthorizeRiskInput {
    pub proposal: RiskProposalInput,
    pub context: RiskContextInput,
    pub portfolio: PortfolioRiskInput,
}

#[derive(Debug, Clone, PartialEq, Eq)]
pub struct RefreshPortfolioInput {
    pub portfolio: PortfolioRiskInput,
    pub covered_client_order_ids: Vec<String>,
}

#[derive(Debug, Clone, PartialEq, Eq)]
pub enum RiskDecisionOutput {
    Approved { intent: OrderIntentInput },
    Rejected { reason: String },
}

#[derive(Debug, Clone, PartialEq, Eq)]
pub struct RiskStatusOutput {
    pub account_id: String,
    pub configuration_fingerprint: String,
    pub policy_version: String,
    pub portfolio_as_of_ns: u64,
    pub trading_day: i32,
    pub gross_exposure_micros: u64,
    pub reserved_gross_micros: u64,
    pub reserved_order_count: u32,
    pub outstanding_reservations: u64,
    pub kill_switch_active: bool,
}

#[derive(Debug, Clone, PartialEq, Eq)]
pub enum RiskAgentError {
    NotConfigured { detail: String },
    InvalidConfiguration { detail: String },
    ConfigurationConflict { existing_fingerprint: String, proposed_fingerprint: String },
    InvalidPortfolio { detail: String },
    AuthorityRejected { detail: String },
}

/// The market context a risk decision is taken in.
#[derive(Debug, Clone, Copy, PartialEq, Eq, Structural)]
pub struct RiskContext {
    pub now_ns: u64,
    pub market_data_at_ns: u64,
    pub venue_time_utc_sec: i64,
}

/// Why the risk authority refused a proposal.
#[derive(Debug, Clone, Copy, PartialEq, Eq, Structural)]
pub enum RiskRejection {
    KillSwitchActive,
    LiveExecutionDisabled,
    VenueNotAllowed,
    VenueSessionClosed,
    VenueCalendarUnavailable,
    StaleMarketData,
    StalePortfolio,
    TradingDayMismatch,
    OrderNotionalLimit,
    GrossExposureLimit,
    StrategyExposureLimit,
    SymbolPositionLimit,
    DailyOrderLimit,
    ZeroOrderValue,
    InvalidProposal,
    ArithmeticOverflow,
}

/// A risk decision: an authorized intent or the reason of a refusal.
#[derive(Debug, Clone, PartialEq, Eq)]
pub enum RiskDecision {
    Approved(OrderIntent),
    Rejected(RiskRejection),
}

// ---------------------------------------------------------------------------------------------
// Errors
// ---------------------------------------------------------------------------------------------

pub fn not_configured() -> (res: RiskAgentError)
    ensures
        res matches RiskAgentError::NotConfigured { detail } && detail@
            == "durable risk authority has not been configured"@,
{
    RiskAgentError::NotConfigured { detail: "durable risk authority has not been configured".to_owned() }
}

pub fn invalid_configuration(detail: &str) -> (res: RiskAgentError)
    ensures
        res matches RiskAgentError::InvalidConfiguration { detail: d } && d@ == detail@,
{
    RiskAgentError::InvalidConfiguration { detail: detail.to_owned() }
}

pub fn invalid_portfolio(detail: &str) -> (res: RiskAgentError)
    ensures
        res matches RiskAgentError::InvalidPortfolio { detail: d } && d@ == detail@,
{
    RiskAgentError::InvalidPortfolio { detail: detail.to_owned() }
}

/// A refusal by the risk authority, with its message.
pub fn authority_error(detail: &str) -> (res: RiskAgentError)
    ensures
        res matches RiskAgentError::AuthorityRejected { detail: d } && d@ == detail@,
{
    RiskAgentError::AuthorityRejected { detail: detail.to_owned() }
}

// ---------------------------------------------------------------------------------------------
// Portfolio
// ---------------------------------------------------------------------------------------------

/// A validated portfolio snapshot. Exposure names and position symbols are non-blank and
/// unique; each list keeps the order of the input.
#[derive(Debug, Clone, PartialEq, Eq)]
pub struct PortfolioRiskSnapshot {
    pub as_of_ns: u64,
    pub trading_day: i32,
    pub gross_exposure: MoneyMicros,
    pub strategy_exposure: Vec<(String, MoneyMicros)>,
    pub symbol_positions_micros: Vec<(String, i128)>,
    pub daily_order_count: u32,
}

/// Every name is non-blank and no name occurs twice.
pub open spec fn names_valid(names: Seq<Seq<char>>) -> bool {
    &&& forall|i: int| 0 <= i < names.len() ==> !is_blank_text(#[trigger] names[i])
    &&& forall|i: int, j: int| 0 <= i < j < names.len() ==> names[i] != names[j]
}

pub open spec fn exposure_names(entries: Seq<NamedExposureInput>) -> Seq<Seq<char>> {
    entries.map_values(|e: NamedExposureInput| e.name@)
}

pub open spec fn position_symbols(entries: Seq<SymbolPositionInput>) -> Seq<Seq<char>> {
    entries.map_values(|e: SymbolPositionInput| e.symbol@)
}

pub open spec fn strategy_names_message() -> Seq<char> {
    "strategy exposure names must be non-empty and unique"@
}

pub open spec fn symbol_names_message() -> Seq<char> {
    "symbol position names must be non-empty and unique"@
}

/// The snapshot holds the input's values, entry for entry.
pub open spec fn snapshot_of(input: PortfolioRiskInput, s: PortfolioRiskSnapshot) -> bool {
    &&& s.as_of_ns == input.as_of_ns
    &&& s.trading_day == input.trading_day
    &&& s.gross_exposure == MoneyMicros(input.gross_exposure_micros)
    &&& s.daily_order_count == input.daily_order_count
    &&& s.strategy_exposure@.len() == input.strategy_exposure@.len()
    &&& forall|i: int|
        0 <= i < input.strategy_exposure@.len() ==> (#[trigger] s.strategy_exposure@[i]).0
            == input.strategy_exposure@[i].name && s.strategy_exposure@[i].1 == MoneyMicros(
            input.strategy_exposure@[i].amount_micros,
        )
    &&& s.symbol_positions_micros@.len() == input.symbol_positions@.len()
    &&& forall|i: int|
        0 <= i < input.symbol_positions@.len() ==> (#[trigger] s.symbol_positions_micros@[i]).0
            == input.symbol_positions@[i].symbol && s.symbol_positions_micros@[i].1
            == input.symbol_positions@[i].quantity_micros as i128
}

/// Whether `name` equals one of the first `n` names.
fn name_taken(names: &Vec<(String, MoneyMicros)>, name: &str) -> (res: bool)
    ensures
        res == exists|i: int| 0 <= i < names@.len() && (#[trigger] names@[i]).0@ == name@,
{
    let mut i: usize = 0;
    while i < names.len()
        invariant
            i <= names.len(),
            forall|j: int| 0 <= j < i ==> (#[trigger] names@[j]).0@ != name@,
        decreases names.len() - i,
    {
        if str_eq(names[i].0.as_str(), name) {
            return true;
        }
        i = i + 1;
    }
    false
}

fn symbol_taken(symbols: &Vec<(String, i128)>, symbol: &str) -> (res: bool)
    ensures
        res == exists|i: int| 0 <= i < symbols@.len() && (#[trigger] symbols@[i]).0@ == symbol@,
{
    let mut i: usize = 0;
    while i < symbols.len()
        invariant
            i <= symbols.len(),
            forall|j: int| 0 <= j < i ==> (#[trigger] symbols@[j]).0@ != symbol@,
        decreases symbols.len() - i,
    {
        if str_eq(symbols[i].0.as_str(), symbol) {
            return true;
        }
        i = i + 1;
    }
    false
}

/// Validates a portfolio: exposure names, then position symbols, must be non-blank and unique.
pub fn portfolio(input: &PortfolioRiskInput) -> (res: Result<PortfolioRiskSnapshot, RiskAgentError>)
    ensures
        !names_valid(exposure_names(input.strategy_exposure@)) ==> (res matches Err(
            RiskAgentError::InvalidPortfolio { detail },
        ) && detail@ == strategy_names_message()),
        names_valid(exposure_names(input.strategy_exposure@)) && !names_valid(
            position_symbols(input.symbol_positions@),
        ) ==> (res matches Err(RiskAgentError::InvalidPortfolio { detail }) && detail@
            == symbol_names_message()),
        names_valid(exposure_names(input.strategy_exposure@)) && names_valid(
            position_symbols(input.symbol_positions@),
        ) ==> (res matches Ok(s) && snapshot_of(*input, s)),
{
    let ghost names = exposure_names(input.strategy_exposure@);
    let mut strategy_exposure: Vec<(String, MoneyMicros)> = Vec::new();
    let mut i: usize = 0;
    while i < input.strategy_exposure.len()
        invariant
            i <= input.strategy_exposure.len(),
            names == exposure_names(input.strategy_exposure@),
            strategy_exposure@.len() == i,
            forall|j: int|
                0 <= j < i ==> (#[trigger] strategy_exposure@[j]).0 == input.strategy_exposure@[j].name
                    && strategy_exposure@[j].1 == MoneyMicros(
                    input.strategy_exposure@[j].amount_micros,
                ),
            names_valid(names.take(i as int)),
        decreases input.strategy_exposure.len() - i,
    {
        let entry = &input.strategy_exposure[i];
        assert(names[i as int] == entry.name@);
        if is_blank(entry.name.as_str()) || name_taken(&strategy_exposure, entry.name.as_str()) {
            proof {
                if !is_blank_text(entry.name@) {
                    let k = choose|k: int|
                        0 <= k < strategy_exposure@.len() && (#[trigger] strategy_exposure@[k]).0@
                            == entry.name@;
                    assert(names[k] == names[i as int]);
                }
            }
            return Err(invalid_portfolio("strategy exposure names must be non-empty and unique"));
        }
        let ghost prev = strategy_exposure@;
        strategy_exposure.push((entry.name.clone(), MoneyMicros(entry.amount_micros)));
        proof {
            let t = names.take(i + 1);
            assert(t =~= names.take(i as int).push(names[i as int]));
            assert forall|a: int, b: int| 0 <= a < b < t.len() implies t[a] != t[b] by {
                if b == i {
                    assert(prev[a].0@ != entry.name@);
                    assert(prev[a].0 == input.strategy_exposure@[a].name);
                }
            }
        }
        i = i + 1;
    }
    assert(names.take(names.len() as int) =~= names);
    let ghost symbols = position_symbols(input.symbol_positions@);
    let mut symbol_positions_micros: Vec<(String, i128)> = Vec::new();
    let mut i: usize = 0;
    while i < input.symbol_positions.len()
        invariant
            i <= input.symbol_positions.len(),
            symbols == position_symbols(input.symbol_positions@),
            names_valid(names),
            names == exposure_names(input.strategy_exposure@),
            symbol_positions_micros@.len() == i,
            forall|j: int|
                0 <= j < i ==> (#[trigger] symbol_positions_micros@[j]).0
                    == input.symbol_positions@[j].symbol && symbol_positions_micros@[j].1
                    == input.symbol_positions@[j].quantity_micros as i128,
            names_valid(symbols.take(i as int)),
        decreases input.symbol_positions.len() - i,
    {
        let entry = &input.symbol_positions[i];
        assert(symbols[i as int] == entry.symbol@);
        if is_blank(entry.symbol.as_str()) || symbol_taken(
            &symbol_positions_micros,
            entry.symbol.as_str(),
        ) {
            proof {
                if !is_blank_text(entry.symbol@) {
                    let k = choose|k: int|
                        0 <= k < symbol_positions_micros@.len() && (
                        #[trigger] symbol_positions_micros@[k]).0@ == entry.symbol@;
                    assert(symbols[k] == symbols[i as int]);
                }
            }
            return Err(invalid_portfolio("symbol position names must be non-empty and unique"));
        }
        let ghost prev = symbol_positions_micros@;
        symbol_positions_micros.push((entry.symbol.clone(), entry.quantity_micros as i128));
        proof {
            let t = symbols.take(i + 1);
            assert(t =~= symbols.take(i as int).push(symbols[i as int]));
            assert forall|a: int, b: int| 0 <= a < b < t.len() implies t[a] != t[b] by {
                if b == i {
                    assert(prev[a].0@ != entry.symbol@);
                    assert(prev[a].0 == input.symbol_positions@[a].symbol);
                }
            }
        }
        i = i + 1;
    }
    assert(symbols.take(symbols.len() as int) =~= symbols);
    Ok(
        PortfolioRiskSnapshot {
            as_of_ns: input.as_of_ns,
            trading_day: input.trading_day,
            gross_exposure: MoneyMicros(input.gross_exposure_micros),
            strategy_exposure,
            symbol_positions_micros,
            daily_order_count: input.daily_order_count,
        },
    )
}

// ---------------------------------------------------------------------------------------------
// Configuration
// ---------------------------------------------------------------------------------------------

/// The agent's account identity must not be blank.
pub fn check_account_identity(account_id: &str) -> (res: Result<(), RiskAgentError>)
    ensures
        !is_blank_text(account_id@) ==> res is Ok,
        is_blank_text(account_id@) ==> (res matches Err(RiskAgentError::InvalidConfiguration { detail })
            && detail@ == "account identity must not be empty"@),
{
    if is_blank(account_id) {
        return Err(invalid_configuration("account identity must not be empty"));
    }
    Ok(())
}

/// What a configuration request does to the agent.
#[derive(Debug, Clone, Copy, PartialEq, Eq, Structural)]
pub enum ConfigurationStep {
    /// Nothing is configured yet: install the authority.
    Install,
    /// The same configuration is already installed: answer with the status.
    Replay,
}

/// Configuration is one-time and replay-safe: the first one is installed, the same one again
/// is a replay, and any other one is a conflict naming both fingerprints.
pub fn configuration_step(existing: &Option<String>, proposed: &str) -> (res: Result<
    ConfigurationStep,
    RiskAgentError,
>)
    ensures
        existing is None ==> res == Ok::<ConfigurationStep, RiskAgentError>(
            ConfigurationStep::Install,
        ),
        existing matches Some(e) && e@ == proposed@ ==> res == Ok::<
            ConfigurationStep,
            RiskAgentError,
        >(ConfigurationStep::Replay),
        existing matches Some(e) && e@ != proposed@ ==> (res matches Err(
            RiskAgentError::ConfigurationConflict { existing_fingerprint, proposed_fingerprint },
        ) && existing == Some(existing_fingerprint) && proposed_fingerprint@ == proposed@),
{
    match existing {
        None => Ok(ConfigurationStep::Install),
        Some(e) => {
            if str_eq(e.as_str(), proposed) {
                Ok(ConfigurationStep::Replay)
            } else {
                Err(
                    RiskAgentError::ConfigurationConflict {
                        existing_fingerprint: e.clone(),
                        proposed_fingerprint: proposed.to_owned(),
                    },
                )
            }
        },
    }
}

/// The fingerprint of a canonical configuration: its SHA-256 digest in lowercase hex.
pub fn configuration_fingerprint(canonical: &[u8]) -> (res: String)
    ensures
        text_bytes(res@) == crate::identity::lower_hex(crate::identity::sha256_of(canonical@)),
{
    crate::identity::hex_digest(canonical)
}

/// A snapshot restores the agent only in the current format, for the same account, and with a
/// fingerprint exactly when it has an authority.
pub fn check_risk_snapshot(
    format_version: u32,
    snapshot_account: &str,
    account_id: &str,
    has_fingerprint: bool,
    has_authority: bool,
) -> (res: Result<(), String>)
    ensures
        format_version != RISK_SNAPSHOT_FORMAT_VERSION ==> (res matches Err(m) && text_bytes(m@)
            == text_bytes("unsupported risk snapshot version "@) + nat_digits(
            format_version as nat,
        ) + text_bytes("; expected 1"@)),
        format_version == RISK_SNAPSHOT_FORMAT_VERSION && snapshot_account@ != account_id@ ==> (
        res matches Err(m) && m@ == "risk snapshot account does not match agent identity"@),
        format_version == RISK_SNAPSHOT_FORMAT_VERSION && snapshot_account@ == account_id@
            && has_fingerprint != has_authority ==> (res matches Err(m) && m@
            == "risk snapshot configuration and authority are inconsistent"@),
        format_version == RISK_SNAPSHOT_FORMAT_VERSION && snapshot_account@ == account_id@
            && has_fingerprint == has_authority ==> res is Ok,
{
    if format_version != RISK_SNAPSHOT_FORMAT_VERSION {
        let mut out: Vec<u8> = Vec::new();
        assert(out@ =~= encode_utf8(Seq::<char>::empty()));
        push_str(&mut out, "unsupported risk snapshot version ");
        push_number(&mut out, format_version as u64);
        push_str(&mut out, "; expected 1");
        return Err(utf8_string(out));
    }
    if !str_eq(snapshot_account, account_id) {
        return Err("risk snapshot account does not match agent identity".to_owned());
    }
    if has_fingerprint != has_authority {
        return Err("risk snapshot configuration and authority are inconsistent".to_owned());
    }
    Ok(())
}

// ---------------------------------------------------------------------------------------------
// Decisions
// ---------------------------------------------------------------------------------------------

pub open spec fn rejection_code(reason: RiskRejection) -> Seq<char> {
    match reason {
        RiskRejection::KillSwitchActive => "kill_switch_active"@,
        RiskRejection::LiveExecutionDisabled => "live_execution_disabled"@,
        RiskRejection::VenueNotAllowed => "venue_not_allowed"@,
        RiskRejection::VenueSessionClosed => "venue_session_closed"@,
        RiskRejection::VenueCalendarUnavailable => "venue_calendar_unavailable"@,
        RiskRejection::StaleMarketData => "stale_market_data"@,
        RiskRejection::StalePortfolio => "stale_portfolio"@,
        RiskRejection::TradingDayMismatch => "trading_day_mismatch"@,
        RiskRejection::OrderNotionalLimit => "order_notional_limit"@,
        RiskRejection::GrossExposureLimit => "gross_exposure_limit"@,
        RiskRejection::StrategyExposureLimit => "strategy_exposure_limit"@,
        RiskRejection::SymbolPositionLimit => "symbol_position_limit"@,
        RiskRejection::DailyOrderLimit => "daily_order_limit"@,
        RiskRejection::ZeroOrderValue => "zero_order_value"@,
        RiskRejection::InvalidProposal => "invalid_proposal"@,
        RiskRejection::ArithmeticOverflow => "arithmetic_overflow"@,
    }
}

/// The stable snake-case code of a rejection.
pub fn risk_rejection_code(reason: RiskRejection) -> (res: &'static str)
    ensures
        res@ == rejection_code(reason),
{
    match reason {
        RiskRejection::KillSwitchActive => "kill_switch_active",
        RiskRejection::LiveExecutionDisabled => "live_execution_disabled",
        RiskRejection::VenueNotAllowed => "venue_not_allowed",
        RiskRejection::VenueSessionClosed => "venue_session_closed",
        RiskRejection::VenueCalendarUnavailable => "venue_calendar_unavailable",
        RiskRejection::StaleMarketData => "stale_market_data",
        RiskRejection::StalePortfolio => "stale_portfolio",
        RiskRejection::TradingDayMismatch => "trading_day_mismatch",
        RiskRejection::OrderNotionalLimit => "order_notional_limit",
        RiskRejection::GrossExposureLimit => "gross_exposure_limit",
        RiskRejection::StrategyExposureLimit => "strategy_exposure_limit",
        RiskRejection::SymbolPositionLimit => "symbol_position_limit",
        RiskRejection::DailyOrderLimit => "daily_order_limit",
        RiskRejection::ZeroOrderValue => "zero_order_value",
        RiskRejection::InvalidProposal => "invalid_proposal",
        RiskRejection::ArithmeticOverflow => "arithmetic_overflow",
    }
}

/// The input form of an authorized intent, field for field.
pub open spec fn intent_input_of(intent: OrderIntent) -> OrderIntentInput {
    OrderIntentInput {
        client_order_id: intent.client_order_id,
        proposal_id: intent.proposal.proposal_id,
        strategy_id: intent.proposal.strategy_id,
        symbol: intent.proposal.symbol,
        venue: intent.proposal.venue,
        currency: intent.proposal.currency,
        side: side_input_of(intent.proposal.side),
        quantity_micros: intent.proposal.quantity.0,
        limit_price_micros: intent.proposal.limit_price.0,
        execution_mode: match intent.proposal.mode {
            ExecutionMode::Paper => ExecutionModeInput::Paper,
            ExecutionMode::Live => ExecutionModeInput::Live,
        },
        trading_day: intent.proposal.trading_day,
        authorized_notional_micros: intent.authorized_notional.0,
        risk_policy_version: intent.risk_policy_version,
        authorized_at_ns: intent.authorized_at_ns,
    }
}

/// The output form of a risk decision.
pub open spec fn decision_output_of(decision: RiskDecision, out: RiskDecisionOutput) -> bool {
    match decision {
        RiskDecision::Approved(intent) => out == RiskDecisionOutput::Approved {
            intent: intent_input_of(intent),
        },
        RiskDecision::Rejected(reason) => out matches RiskDecisionOutput::Rejected { reason: r }
            && r@ == rejection_code(reason),
    }
}

pub fn decision_output(decision: RiskDecision) -> (res: RiskDecisionOutput)
    ensures
        decision_output_of(decision, res),
{
    match decision {
        RiskDecision::Approved(intent) => {
            let execution_mode = match intent.proposal.mode {
                ExecutionMode::Paper => ExecutionModeInput::Paper,
                ExecutionMode::Live => ExecutionModeInput::Live,
            };
            RiskDecisionOutput::Approved {
                intent: OrderIntentInput {
                    client_order_id: intent.client_order_id,
                    proposal_id: intent.proposal.proposal_id,
                    strategy_id: intent.proposal.strategy_id,
                    symbol: intent.proposal.symbol,
                    venue: intent.proposal.venue,
                    currency: intent.proposal.currency,
                    side: SideInput::from(intent.proposal.side),
                    quantity_micros: intent.proposal.quantity.0,
                    limit_price_micros: intent.proposal.limit_price.0,
                    execution_mode,
                    trading_day: intent.proposal.trading_day,
                    authorized_notional_micros: intent.authorized_notional.0,
                    risk_policy_version: intent.risk_policy_version,
                    authorized_at_ns: intent.authorized_at_ns,
                },
            }
        },
        RiskDecision::Rejected(reason) => RiskDecisionOutput::Rejected {
            reason: risk_rejection_code(reason).to_owned(),
        },
    }
}

/// The proposal an input describes, field for field.
pub open spec fn proposal_of(input: RiskProposalInput) -> OrderProposal {
    OrderProposal {
        proposal_id: input.proposal_id,
        strategy_id: input.strategy_id,
        symbol: input.symbol,
        venue: input.venue,
        currency: input.currency,
        side: side_of(input.side),
        quantity: QuantityMicros(input.quantity_micros),
        limit_price: PriceMicros(input.limit_price_micros),
        mode: mode_of(input.execution_mode),
        trading_day: input.trading_day,
    }
}

impl From<RiskProposalInput> for OrderProposal {
    fn from(input: RiskProposalInput) -> (res: OrderProposal) {
        OrderProposal {
            proposal_id: input.proposal_id,
            strategy_id: input.strategy_id,
            symbol: input.symbol,
            venue: input.venue,
            currency: input.currency,
            side: crate::execution::Side::from(input.side),
            quantity: QuantityMicros(input.quantity_micros),
            limit_price: PriceMicros(input.limit_price_micros),
            mode: ExecutionMode::from(input.execution_mode),
            trading_day: input.trading_day,
        }
    }
}

impl vstd::std_specs::convert::FromSpecImpl<RiskProposalInput> for OrderProposal {
    open spec fn obeys_from_spec() -> bool {
        true
    }

    open spec fn from_spec(input: RiskProposalInput) -> OrderProposal {
        proposal_of(input)
    }
}

impl From<RiskContextInput> for RiskContext {
    fn from(input: RiskContextInput) -> (res: RiskContext) {
        RiskContext {
            now_ns: input.now_ns,
            market_data_at_ns: input.market_data_at_ns,
            venue_time_utc_sec: input.venue_time_utc_sec,
        }
    }
}

impl vstd::std_specs::convert::FromSpecImpl<RiskContextInput> for RiskContext {
    open spec fn obeys_from_spec() -> bool {
        true
    }

    open spec fn from_spec(input: RiskContextInput) -> RiskContext {
        RiskContext {
            now_ns: input.now_ns,
            market_data_at_ns: input.market_data_at_ns,
            venue_time_utc_sec: input.venue_time_utc_sec,
        }
    }
}

/// The count of outstanding reservations as reported: it must fit `u64`.
pub fn reservation_count(count: usize) -> (res: Result<u64, RiskAgentError>)
    ensures
        count <= u64::MAX ==> res == Ok::<u64, RiskAgentError>(count as u64),
        count > u64::MAX ==> (res matches Err(RiskAgentError::InvalidPortfolio { detail })
            && detail@ == "reservation count exceeded u64"@),
{
    if count as u128 > 0xffff_ffff_ffff_ffffu128 {
        return Err(invalid_portfolio("reservation count exceeded u64"));
    }
    Ok(count as u64)
}


/// A risk proposal keeps each value of its input under the matching name.
pub proof fn law_proposal_keeps_each_field(input: RiskProposalInput)
    ensures
        proposal_of(input).proposal_id == input.proposal_id,
        proposal_of(input).strategy_id == input.strategy_id,
        proposal_of(input).symbol == input.symbol,
        proposal_of(input).venue == input.venue,
        proposal_of(input).currency == input.currency,
        proposal_of(input).side is Buy <==> input.side is Buy,
        proposal_of(input).quantity.0 == input.quantity_micros,
        proposal_of(input).limit_price.0 == input.limit_price_micros,
        proposal_of(input).mode is Paper <==> input.execution_mode is Paper,
        proposal_of(input).trading_day == input.trading_day,
{
}

} // verus!
