//! The shapes in which remote callers receive the agents' results: every error variant and
//! decision carries its fields in a record of its own. Conversions from the agents' own values
//! keep every field.

use vstd::prelude::*;
use crate::oms::OrderIntentInput;

verus! {

#[derive(Debug, Clone, PartialEq, Eq)]
pub struct InvalidIdentity {
    pub detail: String,
}

#[derive(Debug, Clone, Copy, PartialEq, Eq, Structural)]
pub struct NonContiguousAdvance {
    pub expected: u64,
    pub proposed: u64,
}

#[derive(Debug, Clone, Copy, PartialEq, Eq, Structural)]
pub struct CursorConflict {
    pub expected: u64,
    pub actual: u64,
}

#[derive(Debug, Clone, PartialEq, Eq)]
pub struct ReplayIdentityConflict {
    pub cursor: u64,
    pub existing_event_id: String,
    pub proposed_event_id: String,
}

#[derive(Debug, Clone, PartialEq, Eq)]
pub enum ProjectionCursorError {
    InvalidIdentity(InvalidIdentity),
    EmptyEventIdentity,
    NonContiguousAdvance(NonContiguousAdvance),
    CursorConflict(CursorConflict),
    ReplayIdentityConflict(ReplayIdentityConflict),
}

#[derive(Debug, Clone, PartialEq, Eq)]
pub struct NotInitialized {
    pub detail: String,
}

#[derive(Debug, Clone, PartialEq, Eq)]
pub struct CommandRejected {
    pub detail: String,
}

#[derive(Debug, Clone, PartialEq, Eq)]
pub struct SerializationFailed {
    pub detail: String,
}

#[derive(Debug, Clone, Copy, PartialEq, Eq, Structural)]
pub struct EventBatchCapacityExceeded {
    pub found: u32,
    pub capacity: u32,
}

#[derive(Debug, Clone, Copy, PartialEq, Eq, Structural)]
pub struct OrderBatchCapacityExceeded {
    pub found: u32,
    pub capacity: u32,
}

#[derive(Debug, Clone, PartialEq, Eq)]
pub enum OmsAgentError {
    NotInitialized(NotInitialized),
    CommandRejected(CommandRejected),
    SerializationFailed(SerializationFailed),
    EventBatchCapacityExceeded(EventBatchCapacityExceeded),
    OrderBatchCapacityExceeded(OrderBatchCapacityExceeded),
}

#[derive(Debug, Clone, PartialEq, Eq)]
pub struct NotConfigured {
    pub detail: String,
}

#[derive(Debug, Clone, PartialEq, Eq)]
pub struct InvalidConfiguration {
    pub detail: String,
}

#[derive(Debug, Clone, PartialEq, Eq)]
pub struct ConfigurationConflict {
    pub existing_fingerprint: String,
    pub proposed_fingerprint: String,
}

#[derive(Debug, Clone, PartialEq, Eq)]
pub struct InvalidPortfolio {
    pub detail: String,
}

#[derive(Debug, Clone, PartialEq, Eq)]
pub struct AuthorityRejected {
    pub detail: String,
}

#[derive(Debug, Clone, PartialEq, Eq)]
pub enum RiskAgentError {
    NotConfigured(NotConfigured),
    InvalidConfiguration(InvalidConfiguration),
    ConfigurationConflict(ConfigurationConflict),
    InvalidPortfolio(InvalidPortfolio),
    AuthorityRejected(AuthorityRejected),
}

#[derive(Debug, Clone, PartialEq, Eq)]
pub struct Approved {
    pub intent: OrderIntentInput,
}

#[derive(Debug, Clone, PartialEq, Eq)]
pub struct Rejected {
    pub reason: String,
}

#[derive(Debug, Clone, PartialEq, Eq)]
pub enum RiskDecisionOutput {
    Approved(Approved),
    Rejected(Rejected),
}

/// The remote form of a projection-cursor error.
pub open spec fn cursor_error_form(e: crate::projection_cursor::ProjectionCursorError) -> ProjectionCursorError {
    match e {
        crate::projection_cursor::ProjectionCursorError::InvalidIdentity { detail } =>
            ProjectionCursorError::InvalidIdentity(InvalidIdentity { detail }),
        crate::projection_cursor::ProjectionCursorError::EmptyEventIdentity =>
            ProjectionCursorError::EmptyEventIdentity,
        crate::projection_cursor::ProjectionCursorError::NonContiguousAdvance {
            expected,
            proposed,
        } => ProjectionCursorError::NonContiguousAdvance(NonContiguousAdvance { expected, proposed }),
        crate::projection_cursor::ProjectionCursorError::CursorConflict { expected, actual } =>
            ProjectionCursorError::CursorConflict(CursorConflict { expected, actual }),
        crate::projection_cursor::ProjectionCursorError::ReplayIdentityConflict {
            cursor,
            existing_event_id,
            proposed_event_id,
        } => ProjectionCursorError::ReplayIdentityConflict(
            ReplayIdentityConflict { cursor, existing_event_id, proposed_event_id },
        ),
    }
}

impl From<crate::projection_cursor::ProjectionCursorError> for ProjectionCursorError {
    fn from(e: crate::projection_cursor::ProjectionCursorError) -> (res: ProjectionCursorError) {
        match e {
            crate::projection_cursor::ProjectionCursorError::InvalidIdentity { detail } =>
                ProjectionCursorError::InvalidIdentity(InvalidIdentity { detail }),
            crate::projection_cursor::ProjectionCursorError::EmptyEventIdentity =>
                ProjectionCursorError::EmptyEventIdentity,
            crate::projection_cursor::ProjectionCursorError::NonContiguousAdvance {
                expected,
                proposed,
            } => ProjectionCursorError::NonContiguousAdvance(
                NonContiguousAdvance { expected, proposed },
            ),
            crate::projection_cursor::ProjectionCursorError::CursorConflict { expected, actual } =>
                ProjectionCursorError::CursorConflict(CursorConflict { expected, actual }),
            crate::projection_cursor::ProjectionCursorError::ReplayIdentityConflict {
                cursor,
                existing_event_id,
                proposed_event_id,
            } => ProjectionCursorError::ReplayIdentityConflict(
                ReplayIdentityConflict { cursor, existing_event_id, proposed_event_id },
            ),
        }
    }
}

impl vstd::std_specs::convert::FromSpecImpl<crate::projection_cursor::ProjectionCursorError> for ProjectionCursorError {
    open spec fn obeys_from_spec() -> bool {
        true
    }

    open spec fn from_spec(e: crate::projection_cursor::ProjectionCursorError) -> ProjectionCursorError {
        cursor_error_form(e)
    }
}

/// The remote form of an OMS agent error.
pub open spec fn oms_error_form(e: crate::oms::OmsAgentError) -> OmsAgentError {
    match e {
        crate::oms::OmsAgentError::NotInitialized { detail } => OmsAgentError::NotInitialized(
            NotInitialized { detail },
        ),
        crate::oms::OmsAgentError::CommandRejected { detail } => OmsAgentError::CommandRejected(
            CommandRejected { detail },
        ),
        crate::oms::OmsAgentError::SerializationFailed { detail } =>
            OmsAgentError::SerializationFailed(SerializationFailed { detail }),
        crate::oms::OmsAgentError::EventBatchCapacityExceeded { found, capacity } =>
            OmsAgentError::EventBatchCapacityExceeded(EventBatchCapacityExceeded { found, capacity }),
    }
}

impl From<crate::oms::OmsAgentError> for OmsAgentError {
    fn from(e: crate::oms::OmsAgentError) -> (res: OmsAgentError) {
        match e {
            crate::oms::OmsAgentError::NotInitialized { detail } => OmsAgentError::NotInitialized(
                NotInitialized { detail },
            ),
            crate::oms::OmsAgentError::CommandRejected { detail } =>
                OmsAgentError::CommandRejected(CommandRejected { detail }),
            crate::oms::OmsAgentError::SerializationFailed { detail } =>
                OmsAgentError::SerializationFailed(SerializationFailed { detail }),
            crate::oms::OmsAgentError::EventBatchCapacityExceeded { found, capacity } =>
                OmsAgentError::EventBatchCapacityExceeded(
                    EventBatchCapacityExceeded { found, capacity },
                ),
        }
    }
}

impl vstd::std_specs::convert::FromSpecImpl<crate::oms::OmsAgentError> for OmsAgentError {
    open spec fn obeys_from_spec() -> bool {
        true
    }

    open spec fn from_spec(e: crate::oms::OmsAgentError) -> OmsAgentError {
        oms_error_form(e)
    }
}

/// The remote form of a risk agent error.
pub open spec fn risk_error_form(e: crate::risk::RiskAgentError) -> RiskAgentError {
    match e {
        crate::risk::RiskAgentError::NotConfigured { detail } => RiskAgentError::NotConfigured(
            NotConfigured { detail },
        ),
        crate::risk::RiskAgentError::InvalidConfiguration { detail } =>
            RiskAgentError::InvalidConfiguration(InvalidConfiguration { detail }),
        crate::risk::RiskAgentError::ConfigurationConflict {
            existing_fingerprint,
            proposed_fingerprint,
        } => RiskAgentError::ConfigurationConflict(
            ConfigurationConflict { existing_fingerprint, proposed_fingerprint },
        ),
        crate::risk::RiskAgentError::InvalidPortfolio { detail } =>
            RiskAgentError::InvalidPortfolio(InvalidPortfolio { detail }),
        crate::risk::RiskAgentError::AuthorityRejected { detail } =>
            RiskAgentError::AuthorityRejected(AuthorityRejected { detail }),
    }
}

impl From<crate::risk::RiskAgentError> for RiskAgentError {
    fn from(e: crate::risk::RiskAgentError) -> (res: RiskAgentError) {
        match e {
            crate::risk::RiskAgentError::NotConfigured { detail } => RiskAgentError::NotConfigured(
                NotConfigured { detail },
            ),
            crate::risk::RiskAgentError::InvalidConfiguration { detail } =>
                RiskAgentError::InvalidConfiguration(InvalidConfiguration { detail }),
            crate::risk::RiskAgentError::ConfigurationConflict {
                existing_fingerprint,
                proposed_fingerprint,
            } => RiskAgentError::ConfigurationConflict(
                ConfigurationConflict { existing_fingerprint, proposed_fingerprint },
            ),
            crate::risk::RiskAgentError::InvalidPortfolio { detail } =>
                RiskAgentError::InvalidPortfolio(InvalidPortfolio { detail }),
            crate::risk::RiskAgentError::AuthorityRejected { detail } =>
                RiskAgentError::AuthorityRejected(AuthorityRejected { detail }),
        }
    }
}

impl vstd::std_specs::convert::FromSpecImpl<crate::risk::RiskAgentError> for RiskAgentError {
    open spec fn obeys_from_spec() -> bool {
        true
    }

    open spec fn from_spec(e: crate::risk::RiskAgentError) -> RiskAgentError {
        risk_error_form(e)
    }
}

/// The remote form of a risk decision.
pub open spec fn decision_form(d: crate::risk::RiskDecisionOutput) -> RiskDecisionOutput {
    match d {
        crate::risk::RiskDecisionOutput::Approved { intent } => RiskDecisionOutput::Approved(
            Approved { intent },
        ),
        crate::risk::RiskDecisionOutput::Rejected { reason } => RiskDecisionOutput::Rejected(
            Rejected { reason },
        ),
    }
}

impl From<crate::risk::RiskDecisionOutput> for RiskDecisionOutput {
    fn from(d: crate::risk::RiskDecisionOutput) -> (res: RiskDecisionOutput) {
        match d {
            crate::risk::RiskDecisionOutput::Approved { intent } => RiskDecisionOutput::Approved(
                Approved { intent },
            ),
            crate::risk::RiskDecisionOutput::Rejected { reason } => RiskDecisionOutput::Rejected(
                Rejected { reason },
            ),
        }
    }
}

impl vstd::std_specs::convert::FromSpecImpl<crate::risk::RiskDecisionOutput> for RiskDecisionOutput {
    open spec fn obeys_from_spec() -> bool {
        true
    }

    open spec fn from_spec(d: crate::risk::RiskDecisionOutput) -> RiskDecisionOutput {
        decision_form(d)
    }
}

} // verus!
