//! Event-shock hypothesis model: a Bayesian chain from trigger to likelihood assessment to
//! market assessment, in integer parts per million so that replay is bit-exact.

use vstd::prelude::*;
use vstd::string::StringSliceAdditionalSpecFns;
use vstd::utf8::*;
use crate::text::{nat_digits, push_number, push_str, text_bytes, utf8_string};

verus! {

pub const MAX_BATCH_SIZE: u32 = 256;
pub const SNAPSHOT_FORMAT_VERSION: u32 = 1;
pub const PROBABILITY_SCALE: u32 = 1_000_000;
/// The single timer a hypothesis uses: its evidence deadline.
pub const DEADLINE_TIMER: u64 = 1;

/// Wire-level evidence for a general event-shock hypothesis.
#[derive(Debug, Clone, PartialEq, Eq)]
pub enum EventShockEvidence {
    Trigger { prior_ppm: u32, deadline_available_at: i64 },
    LikelihoodAssessment {
        observation_positive: bool,
        sensitivity_ppm: u32,
        false_positive_ppm: u32,
        deadline_available_at: i64,
    },
    MarketAssessment { expected_edge_bps: i32, confidence_ppm: u32 },
}

#[derive(Debug, Clone, PartialEq, Eq)]
pub struct EvidenceEnvelope {
    pub sequence: u64,
    pub effective_at: i64,
    pub available_at: i64,
    pub payload: EventShockEvidence,
}

#[derive(Debug, Clone, PartialEq, Eq)]
pub enum SourceMutation {
    Open { key: String, evidence: EvidenceEnvelope },
    Evidence { key: String, evidence: EvidenceEnvelope },
    Advance { to_available_at: i64 },
    Close { key: String, sequence: u64, available_at: i64, reason: String },
    Retract { key: String, sequence: u64, available_at: i64, reason: String },
    Supersede {
        key: String,
        by: String,
        sequence: u64,
        evidence: EvidenceEnvelope,
        reason: String,
    },
}

#[derive(Debug, Clone, PartialEq, Eq)]
pub struct SourceRecord {
    pub offset: u64,
    pub mutation: SourceMutation,
}

#[derive(Debug, Clone, PartialEq, Eq)]
pub struct SourceBatch {
    pub records: Vec<SourceRecord>,
}

#[derive(Debug, Clone, PartialEq, Eq)]
pub enum EventShockOutput {
    RequestLikelihoodAssessment { request_id: String },
    RequestMarketAssessment { request_id: String, posterior_ppm: u32 },
    Candidate {
        signal_id: String,
        posterior_ppm: u32,
        expected_edge_bps: i32,
        confidence_ppm: u32,
        conviction_ppm: u32,
    },
    Expired { posterior_ppm: u32 },
}

/// Complete typed audit stream emitted by the hypothesis runtime.
#[derive(Debug, Clone, PartialEq, Eq)]
pub enum AuditEvent {
    Opened { key: String, sequence: u64, effective_at: i64, available_at: i64, revision: u64 },
    EvidenceAccepted {
        key: String,
        sequence: u64,
        effective_at: i64,
        available_at: i64,
        revision: u64,
    },
    ModelOutput { key: String, revision: u64, output: EventShockOutput },
    TimerScheduled {
        key: String,
        revision: u64,
        timer_id: u64,
        at: i64,
        replaced_at: Option<i64>,
    },
    TimerCancelled { key: String, revision: u64, timer_id: u64, scheduled_at: i64 },
    TimerFired { key: String, revision: u64, timer_id: u64, at: i64 },
    Completed { key: String, revision: u64, available_at: i64 },
    Closed { key: String, revision: u64, available_at: i64, reason: String },
    Retracted { key: String, revision: u64, available_at: i64, reason: String },
    Superseded { key: String, by: String, revision: u64, available_at: i64, reason: String },
    TerminalEvicted { key: String },
    FrontierAdvanced { previous: Option<i64>, current: i64, timers_fired: u64 },
    /// Defensive wire representation of a runtime rejection.
    RuntimeRejected { key: Option<String>, detail: String },
}

#[derive(Debug, Clone, PartialEq, Eq)]
pub struct ProcessReceipt {
    pub invocation_key: String,
    pub first_offset: u64,
    pub last_offset: u64,
    pub next_offset: u64,
    pub events: Vec<AuditEvent>,
}

#[derive(Debug, Clone, PartialEq, Eq)]
pub struct ShardStatus {
    pub strategy_fingerprint: String,
    pub source_id: String,
    pub source_partition: u64,
    pub logical_shard: u64,
    pub next_offset: u64,
    pub frontier_available_at: Option<i64>,
    pub next_deadline_available_at: Option<i64>,
    pub active_hypotheses: u64,
    pub terminal_hypotheses: u64,
}

#[derive(Debug, Clone, PartialEq, Eq)]
pub enum AgentError {
    NotInitialized { detail: String },
    EmptyBatch,
    BatchCapacityExceeded { found: u64, capacity: u32 },
    OffsetOverlap { expected: u64, found: u64 },
    OffsetGap { expected: u64, found: u64 },
    OffsetExhausted { offset: u64 },
    TransitionRejected { offset: u64, detail: String },
}

/// The durable hypothesis shard agent interface.
pub trait HypothesisShardAgent {
    fn process_batch(&mut self, batch: SourceBatch) -> Result<ProcessReceipt, AgentError>;

    fn status(&self) -> Result<ShardStatus, AgentError>;

    /// The caller should pass this exact value as the invocation idempotency key.
    fn invocation_key(&self, first_offset: u64, last_offset: u64) -> Result<String, AgentError>;
}

#[derive(Debug, Clone, Copy, PartialEq, Eq, Structural)]
pub enum EventShockStage {
    Triggered,
    LikelihoodAssessed,
}

#[derive(Debug, Clone, Copy, PartialEq, Eq, Structural)]
pub struct EventShockState {
    pub stage: EventShockStage,
    pub posterior_ppm: u32,
}

#[derive(Debug, Clone, Copy, PartialEq, Eq, Structural)]
pub enum ModelError {
    UnexpectedEvidence,
    ProbabilityOutOfRange,
    DegenerateLikelihood,
    DeadlineNotAfterEvidence,
}

/// What a model step does to one hypothesis: its next state, what it emits, which deadline
/// timer it (re)schedules, and whether the hypothesis completes.
#[derive(Debug, Clone, PartialEq, Eq)]
pub struct ShockTransition {
    pub state: EventShockState,
    pub outputs: Vec<EventShockOutput>,
    pub schedule: Option<(u64, i64)>,
    pub complete: bool,
}

pub open spec fn valid_probability(value: u32) -> bool {
    value <= PROBABILITY_SCALE
}

pub fn validate_probability(value: u32) -> (res: Result<(), ModelError>)
    ensures
        res == if valid_probability(value) {
            Ok::<(), ModelError>(())
        } else {
            Err(ModelError::ProbabilityOutOfRange)
        },
{
    if value <= PROBABILITY_SCALE {
        Ok(())
    } else {
        Err(ModelError::ProbabilityOutOfRange)
    }
}

pub fn validate_deadline(available_at: i64, deadline: i64) -> (res: Result<(), ModelError>)
    ensures
        res == if deadline > available_at {
            Ok::<(), ModelError>(())
        } else {
            Err(ModelError::DeadlineNotAfterEvidence)
        },
{
    if deadline > available_at {
        Ok(())
    } else {
        Err(ModelError::DeadlineNotAfterEvidence)
    }
}

/// Bayes' rule in parts per million, rounded half up; `None` when the observation has zero
/// probability under both hypotheses.
pub open spec fn bayes_posterior(
    prior: int,
    positive: bool,
    sensitivity: int,
    false_positive: int,
) -> Option<int> {
    let scale = 1_000_000int;
    let hit = if positive {
        sensitivity
    } else {
        scale - sensitivity
    };
    let false_alarm = if positive {
        false_positive
    } else {
        scale - false_positive
    };
    let supported = prior * hit;
    let alternative = (scale - prior) * false_alarm;
    let denominator = supported + alternative;
    if denominator == 0 {
        None
    } else {
        Some((supported * scale + denominator / 2) / denominator)
    }
}

pub fn bayesian_update(
    prior_ppm: u32,
    observation_positive: bool,
    sensitivity_ppm: u32,
    false_positive_ppm: u32,
) -> (res: Result<u32, ModelError>)
    requires
        prior_ppm <= 1_000_000,
        !observation_positive ==> sensitivity_ppm <= 1_000_000 && false_positive_ppm
            <= 1_000_000,
    ensures
        match bayes_posterior(
            prior_ppm as int,
            observation_positive,
            sensitivity_ppm as int,
            false_positive_ppm as int,
        ) {
            Some(p) => res == Ok::<u32, ModelError>(p as u32) && p <= 1_000_000,
            None => res == Err::<u32, ModelError>(ModelError::DegenerateLikelihood),
        },
{
    let scale: u128 = 1_000_000;
    let prior = prior_ppm as u128;
    let (hit, false_alarm) = if observation_positive {
        (sensitivity_ppm as u128, false_positive_ppm as u128)
    } else {
        (scale - sensitivity_ppm as u128, scale - false_positive_ppm as u128)
    };
    assert(prior * hit <= 1_000_000 * 0xffff_ffff) by (nonlinear_arith)
        requires
            prior <= 1_000_000,
            hit <= 0xffff_ffff,
    ;
    assert((scale - prior) * false_alarm <= 1_000_000 * 0xffff_ffff) by (nonlinear_arith)
        requires
            scale - prior <= 1_000_000,
            false_alarm <= 0xffff_ffff,
    ;
    let supported = prior * hit;
    let alternative = (scale - prior) * false_alarm;
    let denominator = supported + alternative;
    if denominator == 0 {
        return Err(ModelError::DegenerateLikelihood);
    }
    assert(supported * scale <= 1_000_000 * 0xffff_ffff * 1_000_000) by (nonlinear_arith)
        requires
            supported <= 1_000_000 * 0xffff_ffff,
            scale == 1_000_000,
    ;
    let rounded = (supported * scale + denominator / 2) / denominator;
    proof {
        lemma_posterior_bounded(supported as int, denominator as int);
    }
    Ok(rounded as u32)
}

/// A rounded-half-up ratio of a part to a whole never exceeds the scale.
proof fn lemma_posterior_bounded(supported: int, denominator: int)
    requires
        0 <= supported <= denominator,
        denominator > 0,
    ensures
        (supported * 1_000_000 + denominator / 2) / denominator <= 1_000_000,
{
    assert(supported * 1_000_000 + denominator / 2 < (1_000_000 + 1) * denominator) by (
    nonlinear_arith)
        requires
            0 <= supported <= denominator,
            denominator > 0,
    ;
    assert((supported * 1_000_000 + denominator / 2) / denominator < 1_000_001) by (
    nonlinear_arith)
        requires
            supported * 1_000_000 + denominator / 2 < 1_000_001 * denominator,
            denominator > 0,
            supported >= 0,
    ;
}

/// `left * right` in parts per million, rounded half up.
pub fn multiply_ppm(left: u32, right: u32) -> (res: u32)
    ensures
        res == ((left * right + 500_000) / 1_000_000) as u32,
{
    let scale: u64 = PROBABILITY_SCALE as u64;
    assert(left as u64 * right as u64 <= 0xffff_fffe_0000_0001) by (nonlinear_arith)
        requires
            left <= 0xffff_ffff,
            right <= 0xffff_ffff,
    ;
    let product = left as u64 * right as u64;
    ((product + scale / 2) / scale) as u32
}

/// Multiplying two probabilities gives a probability no larger than either.
pub proof fn law_multiply_ppm_is_probability(left: u32, right: u32)
    requires
        left <= 1_000_000,
        right <= 1_000_000,
    ensures
        (left * right + 500_000) / 1_000_000 <= left,
        (left * right + 500_000) / 1_000_000 <= right,
{
    assert(left * right + 500_000 < (left + 1) * 1_000_000) by (nonlinear_arith)
        requires
            right <= 1_000_000,
    ;
    assert(left * right + 500_000 < (right + 1) * 1_000_000) by (nonlinear_arith)
        requires
            left <= 1_000_000,
    ;
}

/// The deterministic identity of a model request: `v1/<key byte length>:<key>/<kind>/<seq>`.
pub open spec fn request_id_text(key: Seq<u8>, kind: Seq<u8>, sequence: nat) -> Seq<u8> {
    text_bytes("v1/"@) + nat_digits(key.len()) + text_bytes(":"@) + key + text_bytes("/"@) + kind
        + text_bytes("/"@) + nat_digits(sequence)
}

pub fn request_id(key: &str, kind: &str, sequence: u64) -> (res: String)
    ensures
        text_bytes(res@) == request_id_text(key.spec_bytes(), kind.spec_bytes(), sequence as nat),
{
    let mut out: Vec<u8> = Vec::new();
    assert(vstd::utf8::valid_utf8(out@)) by {
        assert(out@ =~= vstd::utf8::encode_utf8(Seq::<char>::empty()));
        vstd::utf8::encode_utf8_valid_utf8(Seq::<char>::empty());
    }
    push_str(&mut out, "v1/");
    push_number(&mut out, key.as_bytes().len() as u64);
    push_str(&mut out, ":");
    push_str(&mut out, key);
    push_str(&mut out, "/");
    push_str(&mut out, kind);
    push_str(&mut out, "/");
    push_number(&mut out, sequence);
    utf8_string(out)
}

/// The event-shock hypothesis model.
#[derive(Debug, Clone, Copy)]
pub struct EventShockModel;

impl EventShockModel {
    /// Opens a hypothesis from its trigger evidence.
    pub fn open(&self, key: &str, evidence: &EvidenceEnvelope) -> (res: Result<
        ShockTransition,
        ModelError,
    >)
        ensures
            match evidence.payload {
                EventShockEvidence::Trigger { prior_ppm, deadline_available_at } => {
                    if !valid_probability(prior_ppm) {
                        res == Err::<ShockTransition, ModelError>(
                            ModelError::ProbabilityOutOfRange,
                        )
                    } else if deadline_available_at <= evidence.available_at {
                        res == Err::<ShockTransition, ModelError>(
                            ModelError::DeadlineNotAfterEvidence,
                        )
                    } else {
                        res matches Ok(t) && t.state == EventShockState {
                            stage: EventShockStage::Triggered,
                            posterior_ppm: prior_ppm,
                        } && t.schedule == Some((DEADLINE_TIMER, deadline_available_at))
                            && !t.complete && t.outputs.len() == 1 && (
                        t.outputs[0] matches EventShockOutput::RequestLikelihoodAssessment {
                            request_id,
                        } && text_bytes(request_id@) == request_id_text(
                            key.spec_bytes(),
                            text_bytes("likelihood"@),
                            evidence.sequence as nat,
                        ))
                    }
                },
                _ => res == Err::<ShockTransition, ModelError>(ModelError::UnexpectedEvidence),
            },
    {
        match &evidence.payload {
            EventShockEvidence::Trigger { prior_ppm, deadline_available_at } => {
                validate_probability(*prior_ppm)?;
                validate_deadline(evidence.available_at, *deadline_available_at)?;
                let mut outputs: Vec<EventShockOutput> = Vec::new();
                outputs.push(
                    EventShockOutput::RequestLikelihoodAssessment {
                        request_id: request_id(key, "likelihood", evidence.sequence),
                    },
                );
                Ok(
                    ShockTransition {
                        state: EventShockState {
                            stage: EventShockStage::Triggered,
                            posterior_ppm: *prior_ppm,
                        },
                        outputs,
                        schedule: Some((DEADLINE_TIMER, *deadline_available_at)),
                        complete: false,
                    },
                )
            },
            _ => Err(ModelError::UnexpectedEvidence),
        }
    }

    /// Folds further evidence into an open hypothesis.
    pub fn update(&self, key: &str, state: &EventShockState, evidence: &EvidenceEnvelope) -> (res:
        Result<ShockTransition, ModelError>)
        requires
            valid_probability(state.posterior_ppm),
        ensures
            match (state.stage, evidence.payload) {
                (
                    EventShockStage::Triggered,
                    EventShockEvidence::LikelihoodAssessment {
                        observation_positive,
                        sensitivity_ppm,
                        false_positive_ppm,
                        deadline_available_at,
                    },
                ) => {
                    if !valid_probability(sensitivity_ppm) || !valid_probability(
                        false_positive_ppm,
                    ) {
                        res == Err::<ShockTransition, ModelError>(
                            ModelError::ProbabilityOutOfRange,
                        )
                    } else if deadline_available_at <= evidence.available_at {
                        res == Err::<ShockTransition, ModelError>(
                            ModelError::DeadlineNotAfterEvidence,
                        )
                    } else {
                        match bayes_posterior(
                            state.posterior_ppm as int,
                            observation_positive,
                            sensitivity_ppm as int,
                            false_positive_ppm as int,
                        ) {
                            None => res == Err::<ShockTransition, ModelError>(
                                ModelError::DegenerateLikelihood,
                            ),
                            Some(p) => res matches Ok(t) && t.state == EventShockState {
                                stage: EventShockStage::LikelihoodAssessed,
                                posterior_ppm: p as u32,
                            } && t.schedule == Some((DEADLINE_TIMER, deadline_available_at))
                                && !t.complete && t.outputs.len() == 1 && (
                            t.outputs[0] matches EventShockOutput::RequestMarketAssessment {
                                request_id,
                                posterior_ppm,
                            } && posterior_ppm == p && text_bytes(request_id@)
                                == request_id_text(
                                key.spec_bytes(),
                                text_bytes("market"@),
                                evidence.sequence as nat,
                            )),
                        }
                    }
                },
                (
                    EventShockStage::LikelihoodAssessed,
                    EventShockEvidence::MarketAssessment { expected_edge_bps, confidence_ppm },
                ) => {
                    if !valid_probability(confidence_ppm) {
                        res == Err::<ShockTransition, ModelError>(
                            ModelError::ProbabilityOutOfRange,
                        )
                    } else {
                        res matches Ok(t) && t.state == *state && t.schedule is None
                            && t.complete && t.outputs.len() == 1 && (
                        t.outputs[0] matches EventShockOutput::Candidate {
                            signal_id,
                            posterior_ppm,
                            expected_edge_bps: edge,
                            confidence_ppm: confidence,
                            conviction_ppm,
                        } && posterior_ppm == state.posterior_ppm && edge == expected_edge_bps
                            && confidence == confidence_ppm && conviction_ppm == ((
                        state.posterior_ppm * confidence_ppm + 500_000) / 1_000_000) as u32
                            && text_bytes(signal_id@) == request_id_text(
                            key.spec_bytes(),
                            text_bytes("candidate"@),
                            evidence.sequence as nat,
                        ))
                    }
                },
                _ => res == Err::<ShockTransition, ModelError>(ModelError::UnexpectedEvidence),
            },
    {
        match (state.stage, &evidence.payload) {
            (
                EventShockStage::Triggered,
                EventShockEvidence::LikelihoodAssessment {
                    observation_positive,
                    sensitivity_ppm,
                    false_positive_ppm,
                    deadline_available_at,
                },
            ) => {
                validate_probability(*sensitivity_ppm)?;
                validate_probability(*false_positive_ppm)?;
                validate_deadline(evidence.available_at, *deadline_available_at)?;
                let posterior_ppm = bayesian_update(
                    state.posterior_ppm,
                    *observation_positive,
                    *sensitivity_ppm,
                    *false_positive_ppm,
                )?;
                let mut outputs: Vec<EventShockOutput> = Vec::new();
                outputs.push(
                    EventShockOutput::RequestMarketAssessment {
                        request_id: request_id(key, "market", evidence.sequence),
                        posterior_ppm,
                    },
                );
                Ok(
                    ShockTransition {
                        state: EventShockState {
                            stage: EventShockStage::LikelihoodAssessed,
                            posterior_ppm,
                        },
                        outputs,
                        schedule: Some((DEADLINE_TIMER, *deadline_available_at)),
                        complete: false,
                    },
                )
            },
            (
                EventShockStage::LikelihoodAssessed,
                EventShockEvidence::MarketAssessment { expected_edge_bps, confidence_ppm },
            ) => {
                validate_probability(*confidence_ppm)?;
                let conviction_ppm = multiply_ppm(state.posterior_ppm, *confidence_ppm);
                let mut outputs: Vec<EventShockOutput> = Vec::new();
                outputs.push(
                    EventShockOutput::Candidate {
                        signal_id: request_id(key, "candidate", evidence.sequence),
                        posterior_ppm: state.posterior_ppm,
                        expected_edge_bps: *expected_edge_bps,
                        confidence_ppm: *confidence_ppm,
                        conviction_ppm,
                    },
                );
                Ok(ShockTransition { state: *state, outputs, schedule: None, complete: true })
            },
            _ => Err(ModelError::UnexpectedEvidence),
        }
    }

    /// The evidence deadline passed: the hypothesis expires with its current posterior.
    pub fn on_timer(&self, state: &EventShockState, timer_id: u64) -> (res: Result<
        ShockTransition,
        ModelError,
    >)
        ensures
            timer_id != DEADLINE_TIMER ==> res == Err::<ShockTransition, ModelError>(
                ModelError::UnexpectedEvidence,
            ),
            timer_id == DEADLINE_TIMER ==> (res matches Ok(t) && t.state == *state && t.schedule
                is None && t.complete && t.outputs@ == seq![
                EventShockOutput::Expired { posterior_ppm: state.posterior_ppm },
            ]),
    {
        if timer_id != DEADLINE_TIMER {
            return Err(ModelError::UnexpectedEvidence);
        }
        let mut outputs: Vec<EventShockOutput> = Vec::new();
        outputs.push(EventShockOutput::Expired { posterior_ppm: state.posterior_ppm });
        assert(outputs@ =~= seq![EventShockOutput::Expired { posterior_ppm: state.posterior_ppm }]);
        Ok(ShockTransition { state: *state, outputs, schedule: None, complete: true })
    }

    /// A state is valid when its posterior is a probability.
    pub fn validate(&self, state: &EventShockState) -> (res: Result<(), ModelError>)
        ensures
            res is Ok <==> valid_probability(state.posterior_ppm),
            res is Err ==> res == Err::<(), ModelError>(ModelError::ProbabilityOutOfRange),
    {
        validate_probability(state.posterior_ppm)
    }
}

/// Every state the model produces from valid inputs holds a probability, so the model's own
/// validation accepts it.
pub proof fn law_posterior_stays_probability(
    prior: u32,
    positive: bool,
    sensitivity: u32,
    false_positive: u32,
)
    requires
        prior <= 1_000_000,
        sensitivity <= 1_000_000,
        false_positive <= 1_000_000,
    ensures
        bayes_posterior(prior as int, positive, sensitivity as int, false_positive as int) matches Some(
            p,
        ) ==> 0 <= p <= 1_000_000,
{
    let scale = 1_000_000int;
    let hit = if positive {
        sensitivity as int
    } else {
        scale - sensitivity
    };
    let false_alarm = if positive {
        false_positive as int
    } else {
        scale - false_positive
    };
    let supported = prior * hit;
    let alternative = (scale - prior) * false_alarm;
    assert(supported >= 0 && alternative >= 0) by (nonlinear_arith)
        requires
            0 <= prior <= scale,
            0 <= hit <= scale,
            0 <= false_alarm <= scale,
            supported == prior * hit,
            alternative == (scale - prior) * false_alarm,
    ;
    if supported + alternative != 0 {
        lemma_posterior_bounded(supported, supported + alternative);
        assert((supported * scale + (supported + alternative) / 2) / (supported + alternative)
            >= 0) by (nonlinear_arith)
            requires
                supported >= 0,
                alternative >= 0,
                supported + alternative > 0,
                scale == 1_000_000,
        ;
    }
}


/// A rounded-half-up ratio compared with a whole number `k`.
proof fn lemma_rounded_ratio_against(n: int, d: int, k: int)
    requires
        d > 0,
        n >= 0,
        k >= 0,
    ensures
        n >= k * d ==> (n + d / 2) / d >= k,
        n <= k * d ==> (n + d / 2) / d <= k,
{
    let q = (n + d / 2) / d;
    let r = (n + d / 2) % d;
    vstd::arithmetic::div_mod::lemma_fundamental_div_mod(n + d / 2, d);
    assert(0 <= r < d);
    assert(0 <= d / 2 < d);
    if n >= k * d {
        assert(q * d + r >= k * d);
        assert(q >= k) by (nonlinear_arith)
            requires
                q * d + r >= k * d,
                r < d,
                d > 0,
        ;
    }
    if n <= k * d {
        assert(q * d + r <= k * d + d / 2);
        assert(q <= k) by (nonlinear_arith)
            requires
                q * d + r <= k * d + d / 2,
                r >= 0,
                d / 2 < d,
                d > 0,
        ;
    }
}

/// Evidence that is likelier under the hypothesis than under its alternative never lowers the
/// posterior, and evidence that is less likely never raises it. A negative observation weighs
/// the complements, so its direction is the reverse.
pub proof fn law_posterior_moves_with_the_evidence(
    prior: u32,
    positive: bool,
    sensitivity: u32,
    false_positive: u32,
)
    requires
        prior <= 1_000_000,
        sensitivity <= 1_000_000,
        false_positive <= 1_000_000,
    ensures
        bayes_posterior(prior as int, positive, sensitivity as int, false_positive as int) matches Some(
            p,
        ) ==> (positive ==> (sensitivity >= false_positive ==> p >= prior) && (sensitivity
            <= false_positive ==> p <= prior)) && (!positive ==> (sensitivity >= false_positive
            ==> p <= prior) && (sensitivity <= false_positive ==> p >= prior)),
{
    let scale = 1_000_000int;
    let pr = prior as int;
    let hit = if positive {
        sensitivity as int
    } else {
        scale - sensitivity
    };
    let false_alarm = if positive {
        false_positive as int
    } else {
        scale - false_positive
    };
    let supported = pr * hit;
    let alternative = (scale - pr) * false_alarm;
    let d = supported + alternative;
    let n = supported * scale;
    assert(supported >= 0 && alternative >= 0) by (nonlinear_arith)
        requires
            0 <= pr <= scale,
            0 <= hit <= scale,
            0 <= false_alarm <= scale,
            supported == pr * hit,
            alternative == (scale - pr) * false_alarm,
    ;
    assert(n - pr * d == pr * (scale - pr) * (hit - false_alarm)) by (nonlinear_arith)
        requires
            supported == pr * hit,
            alternative == (scale - pr) * false_alarm,
            d == supported + alternative,
            n == supported * scale,
    ;
    assert(hit >= false_alarm ==> n >= pr * d) by (nonlinear_arith)
        requires
            n - pr * d == pr * (scale - pr) * (hit - false_alarm),
            0 <= pr <= scale,
    ;
    assert(hit <= false_alarm ==> n <= pr * d) by (nonlinear_arith)
        requires
            n - pr * d == pr * (scale - pr) * (hit - false_alarm),
            0 <= pr <= scale,
    ;
    if d != 0 {
        assert(n >= 0) by (nonlinear_arith)
            requires
                supported >= 0,
                n == supported * scale,
                scale == 1_000_000,
        ;
        lemma_rounded_ratio_against(n, d, pr);
    }
}

// ---------------------------------------------------------------------------------------------
// Runtime events and errors
// ---------------------------------------------------------------------------------------------

/// An event of the hypothesis runtime, with times and timer identities as plain integers. A
/// rejection carries the runtime's own rendering of its error.
#[derive(Debug, Clone, PartialEq, Eq)]
pub enum HypothesisEvent {
    Opened { key: String, sequence: u64, effective_at: i64, available_at: i64, revision: u64 },
    EvidenceAccepted {
        key: String,
        sequence: u64,
        effective_at: i64,
        available_at: i64,
        revision: u64,
    },
    ModelOutput { key: String, revision: u64, output: EventShockOutput },
    TimerScheduled { key: String, revision: u64, timer_id: u64, at: i64, replaced: Option<i64> },
    TimerCancelled { key: String, revision: u64, timer_id: u64, scheduled_at: i64 },
    TimerFired { key: String, revision: u64, timer_id: u64, at: i64 },
    Completed { key: String, revision: u64, available_at: i64 },
    Closed { key: String, revision: u64, available_at: i64, reason: String },
    Retracted { key: String, revision: u64, available_at: i64, reason: String },
    Superseded { key: String, by: String, revision: u64, available_at: i64, reason: String },
    TerminalEvicted { key: String },
    FrontierAdvanced { previous: Option<i64>, current: i64, timers_fired: usize },
    Rejected { key: Option<String>, error_detail: String },
}

/// The audit record of a runtime event: the same fields, renamed where the wire differs.
pub open spec fn audit_of(e: HypothesisEvent) -> AuditEvent {
    match e {
        HypothesisEvent::Opened { key, sequence, effective_at, available_at, revision } =>
            AuditEvent::Opened { key, sequence, effective_at, available_at, revision },
        HypothesisEvent::EvidenceAccepted {
            key,
            sequence,
            effective_at,
            available_at,
            revision,
        } => AuditEvent::EvidenceAccepted { key, sequence, effective_at, available_at, revision },
        HypothesisEvent::ModelOutput { key, revision, output } => AuditEvent::ModelOutput {
            key,
            revision,
            output,
        },
        HypothesisEvent::TimerScheduled { key, revision, timer_id, at, replaced } =>
            AuditEvent::TimerScheduled { key, revision, timer_id, at, replaced_at: replaced },
        HypothesisEvent::TimerCancelled { key, revision, timer_id, scheduled_at } =>
            AuditEvent::TimerCancelled { key, revision, timer_id, scheduled_at },
        HypothesisEvent::TimerFired { key, revision, timer_id, at } => AuditEvent::TimerFired {
            key,
            revision,
            timer_id,
            at,
        },
        HypothesisEvent::Completed { key, revision, available_at } => AuditEvent::Completed {
            key,
            revision,
            available_at,
        },
        HypothesisEvent::Closed { key, revision, available_at, reason } => AuditEvent::Closed {
            key,
            revision,
            available_at,
            reason,
        },
        HypothesisEvent::Retracted { key, revision, available_at, reason } =>
            AuditEvent::Retracted { key, revision, available_at, reason },
        HypothesisEvent::Superseded { key, by, revision, available_at, reason } =>
            AuditEvent::Superseded { key, by, revision, available_at, reason },
        HypothesisEvent::TerminalEvicted { key } => AuditEvent::TerminalEvicted { key },
        HypothesisEvent::FrontierAdvanced { previous, current, timers_fired } =>
            AuditEvent::FrontierAdvanced { previous, current, timers_fired: timers_fired as u64 },
        HypothesisEvent::Rejected { key, error_detail } => AuditEvent::RuntimeRejected {
            key,
            detail: error_detail,
        },
    }
}

impl From<HypothesisEvent> for AuditEvent {
    fn from(e: HypothesisEvent) -> (res: AuditEvent) {
        match e {
            HypothesisEvent::Opened { key, sequence, effective_at, available_at, revision } =>
                AuditEvent::Opened { key, sequence, effective_at, available_at, revision },
            HypothesisEvent::EvidenceAccepted {
                key,
                sequence,
                effective_at,
                available_at,
                revision,
            } => AuditEvent::EvidenceAccepted {
                key,
                sequence,
                effective_at,
                available_at,
                revision,
            },
            HypothesisEvent::ModelOutput { key, revision, output } => AuditEvent::ModelOutput {
                key,
                revision,
                output,
            },
            HypothesisEvent::TimerScheduled { key, revision, timer_id, at, replaced } =>
                AuditEvent::TimerScheduled { key, revision, timer_id, at, replaced_at: replaced },
            HypothesisEvent::TimerCancelled { key, revision, timer_id, scheduled_at } =>
                AuditEvent::TimerCancelled { key, revision, timer_id, scheduled_at },
            HypothesisEvent::TimerFired { key, revision, timer_id, at } => AuditEvent::TimerFired {
                key,
                revision,
                timer_id,
                at,
            },
            HypothesisEvent::Completed { key, revision, available_at } => AuditEvent::Completed {
                key,
                revision,
                available_at,
            },
            HypothesisEvent::Closed { key, revision, available_at, reason } => AuditEvent::Closed {
                key,
                revision,
                available_at,
                reason,
            },
            HypothesisEvent::Retracted { key, revision, available_at, reason } =>
                AuditEvent::Retracted { key, revision, available_at, reason },
            HypothesisEvent::Superseded { key, by, revision, available_at, reason } =>
                AuditEvent::Superseded { key, by, revision, available_at, reason },
            HypothesisEvent::TerminalEvicted { key } => AuditEvent::TerminalEvicted { key },
            HypothesisEvent::FrontierAdvanced { previous, current, timers_fired } =>
                AuditEvent::FrontierAdvanced {
                    previous,
                    current,
                    timers_fired: timers_fired as u64,
                },
            HypothesisEvent::Rejected { key, error_detail } => AuditEvent::RuntimeRejected {
                key,
                detail: error_detail,
            },
        }
    }
}

impl vstd::std_specs::convert::FromSpecImpl<HypothesisEvent> for AuditEvent {
    open spec fn obeys_from_spec() -> bool {
        true
    }

    open spec fn from_spec(e: HypothesisEvent) -> AuditEvent {
        audit_of(e)
    }
}

/// Why the durable shard refused a batch, with the rejection rendered as text.
#[derive(Debug, Clone, PartialEq, Eq)]
pub enum ShardProcessError {
    EmptyBatch,
    BatchCapacityExceeded { found: usize, capacity: u32 },
    OffsetOverlap { expected: u64, found: u64 },
    OffsetGap { expected: u64, found: u64 },
    OffsetExhausted { offset: u64 },
    TransitionRejected { offset: u64, rejection_detail: String },
}

/// The agent error of a shard refusal, field for field.
pub open spec fn agent_error_of(e: ShardProcessError) -> AgentError {
    match e {
        ShardProcessError::EmptyBatch => AgentError::EmptyBatch,
        ShardProcessError::BatchCapacityExceeded { found, capacity } =>
            AgentError::BatchCapacityExceeded { found: found as u64, capacity },
        ShardProcessError::OffsetOverlap { expected, found } => AgentError::OffsetOverlap {
            expected,
            found,
        },
        ShardProcessError::OffsetGap { expected, found } => AgentError::OffsetGap {
            expected,
            found,
        },
        ShardProcessError::OffsetExhausted { offset } => AgentError::OffsetExhausted { offset },
        ShardProcessError::TransitionRejected { offset, rejection_detail } =>
            AgentError::TransitionRejected { offset, detail: rejection_detail },
    }
}

pub fn process_error(error: ShardProcessError) -> (res: AgentError)
    ensures
        res == agent_error_of(error),
{
    match error {
        ShardProcessError::EmptyBatch => AgentError::EmptyBatch,
        ShardProcessError::BatchCapacityExceeded { found, capacity } =>
            AgentError::BatchCapacityExceeded { found: found as u64, capacity },
        ShardProcessError::OffsetOverlap { expected, found } => AgentError::OffsetOverlap {
            expected,
            found,
        },
        ShardProcessError::OffsetGap { expected, found } => AgentError::OffsetGap {
            expected,
            found,
        },
        ShardProcessError::OffsetExhausted { offset } => AgentError::OffsetExhausted { offset },
        ShardProcessError::TransitionRejected { offset, rejection_detail } =>
            AgentError::TransitionRejected { offset, detail: rejection_detail },
    }
}

/// Evidence as the hypothesis runtime takes it: its sequence, when it became effective and
/// available, and its payload.
#[derive(Debug, Clone, PartialEq, Eq)]
pub struct CausalEvidence {
    pub sequence: u64,
    pub effective_at: i64,
    pub available_at: i64,
    pub payload: EventShockEvidence,
}

/// An input of the hypothesis runtime.
#[derive(Debug, Clone, PartialEq, Eq)]
pub enum HypothesisInput {
    Open { key: String, evidence: CausalEvidence },
    Evidence { key: String, evidence: CausalEvidence },
    Advance { to: i64 },
    Close { key: String, sequence: u64, available_at: i64, reason: String },
    Retract { key: String, sequence: u64, available_at: i64, reason: String },
    Supersede { key: String, by: String, sequence: u64, evidence: CausalEvidence, reason: String },
}

pub open spec fn causal_of(e: EvidenceEnvelope) -> CausalEvidence {
    CausalEvidence {
        sequence: e.sequence,
        effective_at: e.effective_at,
        available_at: e.available_at,
        payload: e.payload,
    }
}

impl From<EvidenceEnvelope> for CausalEvidence {
    fn from(e: EvidenceEnvelope) -> (res: CausalEvidence) {
        CausalEvidence {
            sequence: e.sequence,
            effective_at: e.effective_at,
            available_at: e.available_at,
            payload: e.payload,
        }
    }
}

impl vstd::std_specs::convert::FromSpecImpl<EvidenceEnvelope> for CausalEvidence {
    open spec fn obeys_from_spec() -> bool {
        true
    }

    open spec fn from_spec(e: EvidenceEnvelope) -> CausalEvidence {
        causal_of(e)
    }
}

/// The runtime input of a source mutation, field for field.
pub open spec fn input_of(m: SourceMutation) -> HypothesisInput {
    match m {
        SourceMutation::Open { key, evidence } => HypothesisInput::Open {
            key,
            evidence: causal_of(evidence),
        },
        SourceMutation::Evidence { key, evidence } => HypothesisInput::Evidence {
            key,
            evidence: causal_of(evidence),
        },
        SourceMutation::Advance { to_available_at } => HypothesisInput::Advance {
            to: to_available_at,
        },
        SourceMutation::Close { key, sequence, available_at, reason } => HypothesisInput::Close {
            key,
            sequence,
            available_at,
            reason,
        },
        SourceMutation::Retract { key, sequence, available_at, reason } =>
            HypothesisInput::Retract { key, sequence, available_at, reason },
        SourceMutation::Supersede { key, by, sequence, evidence, reason } =>
            HypothesisInput::Supersede { key, by, sequence, evidence: causal_of(evidence), reason },
    }
}

impl From<SourceMutation> for HypothesisInput {
    fn from(m: SourceMutation) -> (res: HypothesisInput) {
        match m {
            SourceMutation::Open { key, evidence } => HypothesisInput::Open {
                key,
                evidence: CausalEvidence::from(evidence),
            },
            SourceMutation::Evidence { key, evidence } => HypothesisInput::Evidence {
                key,
                evidence: CausalEvidence::from(evidence),
            },
            SourceMutation::Advance { to_available_at } => HypothesisInput::Advance {
                to: to_available_at,
            },
            SourceMutation::Close { key, sequence, available_at, reason } =>
                HypothesisInput::Close { key, sequence, available_at, reason },
            SourceMutation::Retract { key, sequence, available_at, reason } =>
                HypothesisInput::Retract { key, sequence, available_at, reason },
            SourceMutation::Supersede { key, by, sequence, evidence, reason } =>
                HypothesisInput::Supersede {
                    key,
                    by,
                    sequence,
                    evidence: CausalEvidence::from(evidence),
                    reason,
                },
        }
    }
}

impl vstd::std_specs::convert::FromSpecImpl<SourceMutation> for HypothesisInput {
    open spec fn obeys_from_spec() -> bool {
        true
    }

    open spec fn from_spec(m: SourceMutation) -> HypothesisInput {
        input_of(m)
    }
}

/// The error of an agent whose shard is unavailable: the initialization error when there was
/// one.
pub fn shard_unavailable(initialization_error: &Option<String>) -> (res: AgentError)
    ensures
        res matches AgentError::NotInitialized { detail } && detail@ == match initialization_error {
            Some(e) => e@,
            None => "durable shard state is unavailable"@,
        },
{
    let detail = match initialization_error {
        Some(e) => e.clone(),
        None => "durable shard state is unavailable".to_owned(),
    };
    AgentError::NotInitialized { detail }
}

/// A snapshot restores the agent only in the current format and from the same initial offset.
pub fn check_shard_snapshot(format_version: u32, snapshot_initial_offset: u64, initial_offset: u64) -> (res:
    Result<(), String>)
    ensures
        format_version != SNAPSHOT_FORMAT_VERSION ==> (res matches Err(m) && text_bytes(m@)
            == text_bytes("unsupported hypothesis shard snapshot version "@) + nat_digits(
            format_version as nat,
        ) + text_bytes("; expected 1"@)),
        format_version == SNAPSHOT_FORMAT_VERSION && snapshot_initial_offset != initial_offset ==> (
        res matches Err(m) && text_bytes(m@) == text_bytes("snapshot initial offset "@) + nat_digits(
            snapshot_initial_offset as nat,
        ) + text_bytes(" does not match agent constructor "@) + nat_digits(initial_offset as nat)),
        format_version == SNAPSHOT_FORMAT_VERSION && snapshot_initial_offset == initial_offset ==> res is Ok,
{
    if format_version != SNAPSHOT_FORMAT_VERSION {
        let mut out: Vec<u8> = Vec::new();
        assert(out@ =~= encode_utf8(Seq::<char>::empty()));
        push_str(&mut out, "unsupported hypothesis shard snapshot version ");
        push_number(&mut out, format_version as u64);
        push_str(&mut out, "; expected 1");
        return Err(utf8_string(out));
    }
    if snapshot_initial_offset != initial_offset {
        let mut out: Vec<u8> = Vec::new();
        assert(out@ =~= encode_utf8(Seq::<char>::empty()));
        push_str(&mut out, "snapshot initial offset ");
        push_number(&mut out, snapshot_initial_offset);
        push_str(&mut out, " does not match agent constructor ");
        push_number(&mut out, initial_offset);
        return Err(utf8_string(out));
    }
    Ok(())
}


// ---------------------------------------------------------------------------------------------
// What an audit record keeps of a runtime event
// ---------------------------------------------------------------------------------------------

/// The kind of a runtime event.
pub open spec fn event_kind(e: HypothesisEvent) -> Seq<char> {
    match e {
        HypothesisEvent::Opened { .. } => "opened"@,
        HypothesisEvent::EvidenceAccepted { .. } => "evidence accepted"@,
        HypothesisEvent::ModelOutput { .. } => "model output"@,
        HypothesisEvent::TimerScheduled { .. } => "timer scheduled"@,
        HypothesisEvent::TimerCancelled { .. } => "timer cancelled"@,
        HypothesisEvent::TimerFired { .. } => "timer fired"@,
        HypothesisEvent::Completed { .. } => "completed"@,
        HypothesisEvent::Closed { .. } => "closed"@,
        HypothesisEvent::Retracted { .. } => "retracted"@,
        HypothesisEvent::Superseded { .. } => "superseded"@,
        HypothesisEvent::TerminalEvicted { .. } => "terminal evicted"@,
        HypothesisEvent::FrontierAdvanced { .. } => "frontier advanced"@,
        HypothesisEvent::Rejected { .. } => "rejected"@,
    }
}

/// The kind of an audit record.
pub open spec fn audit_kind(a: AuditEvent) -> Seq<char> {
    match a {
        AuditEvent::Opened { .. } => "opened"@,
        AuditEvent::EvidenceAccepted { .. } => "evidence accepted"@,
        AuditEvent::ModelOutput { .. } => "model output"@,
        AuditEvent::TimerScheduled { .. } => "timer scheduled"@,
        AuditEvent::TimerCancelled { .. } => "timer cancelled"@,
        AuditEvent::TimerFired { .. } => "timer fired"@,
        AuditEvent::Completed { .. } => "completed"@,
        AuditEvent::Closed { .. } => "closed"@,
        AuditEvent::Retracted { .. } => "retracted"@,
        AuditEvent::Superseded { .. } => "superseded"@,
        AuditEvent::TerminalEvicted { .. } => "terminal evicted"@,
        AuditEvent::FrontierAdvanced { .. } => "frontier advanced"@,
        AuditEvent::RuntimeRejected { .. } => "rejected"@,
    }
}

/// The hypothesis key a runtime event concerns, if any.
pub open spec fn event_key(e: HypothesisEvent) -> Option<Seq<char>> {
    match e {
        HypothesisEvent::Opened { key, .. } => Some(key@),
        HypothesisEvent::EvidenceAccepted { key, .. } => Some(key@),
        HypothesisEvent::ModelOutput { key, .. } => Some(key@),
        HypothesisEvent::TimerScheduled { key, .. } => Some(key@),
        HypothesisEvent::TimerCancelled { key, .. } => Some(key@),
        HypothesisEvent::TimerFired { key, .. } => Some(key@),
        HypothesisEvent::Completed { key, .. } => Some(key@),
        HypothesisEvent::Closed { key, .. } => Some(key@),
        HypothesisEvent::Retracted { key, .. } => Some(key@),
        HypothesisEvent::Superseded { key, .. } => Some(key@),
        HypothesisEvent::TerminalEvicted { key } => Some(key@),
        HypothesisEvent::FrontierAdvanced { .. } => None,
        HypothesisEvent::Rejected { key, .. } => match key {
            Some(k) => Some(k@),
            None => None,
        },
    }
}

/// The hypothesis key an audit record concerns, if any.
pub open spec fn audit_key(a: AuditEvent) -> Option<Seq<char>> {
    match a {
        AuditEvent::Opened { key, .. } => Some(key@),
        AuditEvent::EvidenceAccepted { key, .. } => Some(key@),
        AuditEvent::ModelOutput { key, .. } => Some(key@),
        AuditEvent::TimerScheduled { key, .. } => Some(key@),
        AuditEvent::TimerCancelled { key, .. } => Some(key@),
        AuditEvent::TimerFired { key, .. } => Some(key@),
        AuditEvent::Completed { key, .. } => Some(key@),
        AuditEvent::Closed { key, .. } => Some(key@),
        AuditEvent::Retracted { key, .. } => Some(key@),
        AuditEvent::Superseded { key, .. } => Some(key@),
        AuditEvent::TerminalEvicted { key } => Some(key@),
        AuditEvent::FrontierAdvanced { .. } => None,
        AuditEvent::RuntimeRejected { key, .. } => match key {
            Some(k) => Some(k@),
            None => None,
        },
    }
}

/// The instants a runtime event carries, in the order its kind declares them: effective then
/// available time; a timer's time; a completion's availability; the new frontier; and, after
/// them, a replaced or previous instant when there is one.
pub open spec fn event_times(e: HypothesisEvent) -> Seq<i64> {
    match e {
        HypothesisEvent::Opened { effective_at, available_at, .. } => seq![effective_at, available_at],
        HypothesisEvent::EvidenceAccepted { effective_at, available_at, .. } => seq![
            effective_at,
            available_at,
        ],
        HypothesisEvent::ModelOutput { .. } => Seq::empty(),
        HypothesisEvent::TimerScheduled { at, replaced, .. } => match replaced {
            Some(r) => seq![at, r],
            None => seq![at],
        },
        HypothesisEvent::TimerCancelled { scheduled_at, .. } => seq![scheduled_at],
        HypothesisEvent::TimerFired { at, .. } => seq![at],
        HypothesisEvent::Completed { available_at, .. } => seq![available_at],
        HypothesisEvent::Closed { available_at, .. } => seq![available_at],
        HypothesisEvent::Retracted { available_at, .. } => seq![available_at],
        HypothesisEvent::Superseded { available_at, .. } => seq![available_at],
        HypothesisEvent::TerminalEvicted { .. } => Seq::empty(),
        HypothesisEvent::FrontierAdvanced { previous, current, .. } => match previous {
            Some(p) => seq![current, p],
            None => seq![current],
        },
        HypothesisEvent::Rejected { .. } => Seq::empty(),
    }
}

/// The instants an audit record carries, in the same order as `event_times`.
pub open spec fn audit_times(a: AuditEvent) -> Seq<i64> {
    match a {
        AuditEvent::Opened { effective_at, available_at, .. } => seq![effective_at, available_at],
        AuditEvent::EvidenceAccepted { effective_at, available_at, .. } => seq![
            effective_at,
            available_at,
        ],
        AuditEvent::ModelOutput { .. } => Seq::empty(),
        AuditEvent::TimerScheduled { at, replaced_at, .. } => match replaced_at {
            Some(r) => seq![at, r],
            None => seq![at],
        },
        AuditEvent::TimerCancelled { scheduled_at, .. } => seq![scheduled_at],
        AuditEvent::TimerFired { at, .. } => seq![at],
        AuditEvent::Completed { available_at, .. } => seq![available_at],
        AuditEvent::Closed { available_at, .. } => seq![available_at],
        AuditEvent::Retracted { available_at, .. } => seq![available_at],
        AuditEvent::Superseded { available_at, .. } => seq![available_at],
        AuditEvent::TerminalEvicted { .. } => Seq::empty(),
        AuditEvent::FrontierAdvanced { previous, current, .. } => match previous {
            Some(p) => seq![current, p],
            None => seq![current],
        },
        AuditEvent::RuntimeRejected { .. } => Seq::empty(),
    }
}

/// The counters a runtime event carries: its sequence number, its revision, its timer identity,
/// and the number of timers fired, those of them it has, in that order.
pub open spec fn event_counters(e: HypothesisEvent) -> Seq<int> {
    match e {
        HypothesisEvent::Opened { sequence, revision, .. } => seq![sequence as int, revision as int],
        HypothesisEvent::EvidenceAccepted { sequence, revision, .. } => seq![
            sequence as int,
            revision as int,
        ],
        HypothesisEvent::ModelOutput { revision, .. } => seq![revision as int],
        HypothesisEvent::TimerScheduled { revision, timer_id, .. } => seq![
            revision as int,
            timer_id as int,
        ],
        HypothesisEvent::TimerCancelled { revision, timer_id, .. } => seq![
            revision as int,
            timer_id as int,
        ],
        HypothesisEvent::TimerFired { revision, timer_id, .. } => seq![
            revision as int,
            timer_id as int,
        ],
        HypothesisEvent::Completed { revision, .. } => seq![revision as int],
        HypothesisEvent::Closed { revision, .. } => seq![revision as int],
        HypothesisEvent::Retracted { revision, .. } => seq![revision as int],
        HypothesisEvent::Superseded { revision, .. } => seq![revision as int],
        HypothesisEvent::TerminalEvicted { .. } => Seq::empty(),
        HypothesisEvent::FrontierAdvanced { timers_fired, .. } => seq![timers_fired as int],
        HypothesisEvent::Rejected { .. } => Seq::empty(),
    }
}

/// The counters an audit record carries, in the same order as `event_counters`.
pub open spec fn audit_counters(a: AuditEvent) -> Seq<int> {
    match a {
        AuditEvent::Opened { sequence, revision, .. } => seq![sequence as int, revision as int],
        AuditEvent::EvidenceAccepted { sequence, revision, .. } => seq![
            sequence as int,
            revision as int,
        ],
        AuditEvent::ModelOutput { revision, .. } => seq![revision as int],
        AuditEvent::TimerScheduled { revision, timer_id, .. } => seq![
            revision as int,
            timer_id as int,
        ],
        AuditEvent::TimerCancelled { revision, timer_id, .. } => seq![
            revision as int,
            timer_id as int,
        ],
        AuditEvent::TimerFired { revision, timer_id, .. } => seq![revision as int, timer_id as int],
        AuditEvent::Completed { revision, .. } => seq![revision as int],
        AuditEvent::Closed { revision, .. } => seq![revision as int],
        AuditEvent::Retracted { revision, .. } => seq![revision as int],
        AuditEvent::Superseded { revision, .. } => seq![revision as int],
        AuditEvent::TerminalEvicted { .. } => Seq::empty(),
        AuditEvent::FrontierAdvanced { timers_fired, .. } => seq![timers_fired as int],
        AuditEvent::RuntimeRejected { .. } => Seq::empty(),
    }
}

/// The texts a runtime event carries besides its key: the superseding key, the reason, the
/// rejection detail.
pub open spec fn event_texts(e: HypothesisEvent) -> Seq<Seq<char>> {
    match e {
        HypothesisEvent::Closed { reason, .. } => seq![reason@],
        HypothesisEvent::Retracted { reason, .. } => seq![reason@],
        HypothesisEvent::Superseded { by, reason, .. } => seq![by@, reason@],
        HypothesisEvent::Rejected { error_detail, .. } => seq![error_detail@],
        _ => Seq::empty(),
    }
}

/// The texts an audit record carries besides its key, in the same order as `event_texts`.
pub open spec fn audit_texts(a: AuditEvent) -> Seq<Seq<char>> {
    match a {
        AuditEvent::Closed { reason, .. } => seq![reason@],
        AuditEvent::Retracted { reason, .. } => seq![reason@],
        AuditEvent::Superseded { by, reason, .. } => seq![by@, reason@],
        AuditEvent::RuntimeRejected { detail, .. } => seq![detail@],
        _ => Seq::empty(),
    }
}

/// An audit record keeps everything its runtime event says, each value in its own place: the
/// same kind, key, instants (an opening's effective time stays its effective time, its
/// availability its availability), counters, texts and model output.
pub proof fn law_audit_keeps_the_event(e: HypothesisEvent)
    ensures
        audit_kind(audit_of(e)) == event_kind(e),
        audit_key(audit_of(e)) == event_key(e),
        audit_times(audit_of(e)) == event_times(e),
        audit_counters(audit_of(e)) == event_counters(e),
        audit_texts(audit_of(e)) == event_texts(e),
        e matches HypothesisEvent::ModelOutput { output, .. } ==> audit_of(e) matches AuditEvent::ModelOutput {
            output: o,
            ..
        } && o == output,
{
}

} // verus!
