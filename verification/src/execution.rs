//! Execution domain values exchanged with a broker: sides, modes, intents, acknowledgements,
//! executions, order snapshots and broker errors.

use vstd::prelude::*;
use crate::decimal::BrokerDecimal;

verus! {

#[derive(Debug, Clone, Copy, PartialEq, Eq, Structural)]
pub enum Side {
    Buy,
    Sell,
}

#[derive(Debug, Clone, Copy, PartialEq, Eq, Structural)]
pub enum ExecutionMode {
    Paper,
    Live,
}

/// Order quantity in millionths of a share.
#[derive(Debug, Clone, Copy, PartialEq, Eq, Structural)]
pub struct QuantityMicros(pub u64);

/// Limit price in millionths of the currency unit.
#[derive(Debug, Clone, Copy, PartialEq, Eq, Structural)]
pub struct PriceMicros(pub u64);

/// Money in millionths of the currency unit.
#[derive(Debug, Clone, Copy, PartialEq, Eq, Structural)]
pub struct MoneyMicros(pub u64);

#[derive(Debug, Clone, PartialEq, Eq)]
pub struct OrderProposal {
    pub proposal_id: String,
    pub strategy_id: String,
    pub symbol: String,
    pub venue: String,
    pub currency: String,
    pub side: Side,
    pub quantity: QuantityMicros,
    pub limit_price: PriceMicros,
    pub mode: ExecutionMode,
    pub trading_day: i32,
}

#[derive(Debug, Clone, PartialEq, Eq)]
pub struct OrderIntent {
    pub client_order_id: String,
    pub proposal: OrderProposal,
    pub authorized_notional: MoneyMicros,
    pub risk_policy_version: String,
    pub authorized_at_ns: u64,
}

/// Why a broker did not carry out a request.
#[derive(Debug, Clone, PartialEq, Eq)]
pub enum BrokerError {
    /// The broker refused the request; nothing happened.
    Rejected(String),
    /// The broker could not be reached; nothing happened.
    Unavailable,
    /// A mutation may or may not have taken effect.
    AmbiguousOutcome,
}

#[derive(Debug, Clone, Copy, PartialEq, Eq, Structural)]
pub enum BrokerOrderState {
    Pending,
    Open,
    PartiallyFilled,
    Filled,
    Canceled,
    Failed,
}

impl BrokerOrderState {
    pub open spec fn spec_is_terminal(self) -> bool {
        self is Filled || self is Canceled || self is Failed
    }

    /// Whether the order can no longer change.
    #[verifier::when_used_as_spec(spec_is_terminal)]
    pub fn is_terminal(self) -> (res: bool)
        ensures
            res == self.spec_is_terminal(),
    {
        match self {
            BrokerOrderState::Filled | BrokerOrderState::Canceled | BrokerOrderState::Failed => true,
            _ => false,
        }
    }
}

#[derive(Debug, Clone, PartialEq, Eq)]
pub struct BrokerAcknowledgement {
    pub broker_order_id: String,
    pub client_order_id: String,
    pub accepted_at_ns: u64,
}

#[derive(Debug, Clone, PartialEq, Eq)]
pub struct BrokerExecution {
    pub execution_id: String,
    pub effective_price: BrokerDecimal,
    pub quantity: BrokerDecimal,
    pub occurred_at: String,
}

#[derive(Debug, Clone, PartialEq, Eq)]
pub struct BrokerOrderSnapshot {
    pub acknowledgement: BrokerAcknowledgement,
    pub state: BrokerOrderState,
    pub executions: Vec<BrokerExecution>,
    pub filled_quantity: BrokerDecimal,
    pub average_price: Option<BrokerDecimal>,
    pub updated_at: String,
}


/// The notional of `quantity` at `price`, both in micros: `price * quantity / 10^6`, rounded
/// down; `None` when it does not fit `u64`.
pub open spec fn notional_of(price: nat, quantity: nat) -> Option<nat> {
    let v = price * quantity / 1_000_000;
    if v <= u64::MAX {
        Some(v)
    } else {
        None
    }
}

pub fn checked_notional(price: PriceMicros, quantity: QuantityMicros) -> (res: Option<MoneyMicros>)
    ensures
        match notional_of(price.0 as nat, quantity.0 as nat) {
            Some(v) => res matches Some(m) && m.0 == v,
            None => res is None,
        },
{
    assert(price.0 as u128 * quantity.0 as u128 <= 0xffff_ffff_ffff_fffe_0000_0000_0000_0001)
        by (nonlinear_arith)
        requires
            price.0 <= 0xffff_ffff_ffff_ffff,
            quantity.0 <= 0xffff_ffff_ffff_ffff,
    ;
    let product = price.0 as u128 * quantity.0 as u128;
    let v = product / 1_000_000;
    if v <= 0xffff_ffff_ffff_ffff {
        Some(MoneyMicros(v as u64))
    } else {
        None
    }
}

} // verus!
