use helio::bridge;
use helio::execution::{ExecutionMode, MoneyMicros, OrderIntent, OrderProposal, PriceMicros, QuantityMicros, Side};
use helio::hypothesis::{
    EventShockEvidence, EventShockModel, EventShockOutput, EventShockStage, EvidenceEnvelope,
    bayesian_update, check_shard_snapshot, multiply_ppm, process_error, request_id, AgentError,
    AuditEvent, HypothesisEvent, ModelError, ShardProcessError,
};
use helio::oms::{
    check_event_batch_limit, check_oms_snapshot, event_batch, not_initialized, ExecutionModeInput,
    OmsAgentError, OrderIntentInput, SideInput,
};
use helio::projection_cursor::{
    AdvanceProjectionCursorInput, ProjectionCursorAgentImpl, ProjectionCursorError,
};
use helio::risk::{
    check_account_identity, check_risk_snapshot, configuration_fingerprint, configuration_step,
    decision_output, portfolio, risk_rejection_code, ConfigurationStep, NamedExposureInput,
    PortfolioRiskInput, RiskAgentError, RiskDecision, RiskDecisionOutput, RiskRejection,
    SymbolPositionInput,
};

#[test]
fn negative_observation_uses_the_complement_likelihood() {
    assert_eq!(bayesian_update(100_000, false, 900_000, 200_000), Ok(13_699));
}

#[test]
fn cursor_advance_is_contiguous_compare_and_set_and_replay_safe() {
    let mut cursor = ProjectionCursorAgentImpl::new("paper-account".into(), "nats".into());
    let input = AdvanceProjectionCursorInput {
        expected_cursor: 0,
        next_cursor: 1,
        event_id: "event-1".into(),
    };
    assert!(!cursor.advance(input.clone()).unwrap().replayed);
    assert!(cursor.advance(input).unwrap().replayed);
    assert!(matches!(
        cursor.advance(AdvanceProjectionCursorInput {
            expected_cursor: 0,
            next_cursor: 2,
            event_id: "event-2".into(),
        }),
        Err(ProjectionCursorError::CursorConflict { .. })
    ));
    assert_eq!(cursor.status().unwrap().cursor, 1);
}

// ---------------------------------------------------------------------------------------------
// Further cases
// ---------------------------------------------------------------------------------------------

#[test]
fn bayes_rule_in_parts_per_million() {
    assert_eq!(bayesian_update(1_000, true, 950_000, 1_000), Ok(487_429));
    assert_eq!(bayesian_update(0, true, 0, 0), Err(ModelError::DegenerateLikelihood));
    assert_eq!(multiply_ppm(487_429, 800_000), 389_943);
    assert_eq!(request_id("solar-flare", "likelihood", 0), "v1/11:solar-flare/likelihood/0");
}

#[test]
fn runtime_events_become_audit_records() {
    let audit = AuditEvent::from(HypothesisEvent::TimerScheduled {
        key: "k".into(),
        revision: 2,
        timer_id: 1,
        at: 100,
        replaced: Some(90),
    });
    assert_eq!(
        audit,
        AuditEvent::TimerScheduled { key: "k".into(), revision: 2, timer_id: 1, at: 100, replaced_at: Some(90) }
    );
    assert_eq!(
        AuditEvent::from(HypothesisEvent::FrontierAdvanced { previous: None, current: 5, timers_fired: 3 }),
        AuditEvent::FrontierAdvanced { previous: None, current: 5, timers_fired: 3 }
    );
    assert_eq!(
        process_error(ShardProcessError::BatchCapacityExceeded { found: 300, capacity: 256 }),
        AgentError::BatchCapacityExceeded { found: 300, capacity: 256 }
    );
    assert_eq!(
        check_shard_snapshot(2, 0, 0),
        Err("unsupported hypothesis shard snapshot version 2; expected 1".to_string())
    );
    assert_eq!(
        check_shard_snapshot(1, 7, 40),
        Err("snapshot initial offset 7 does not match agent constructor 40".to_string())
    );
    assert_eq!(check_shard_snapshot(1, 40, 40), Ok(()));
}

fn exposure(name: &str) -> NamedExposureInput {
    NamedExposureInput { name: name.into(), amount_micros: 1 }
}

fn position(symbol: &str) -> SymbolPositionInput {
    SymbolPositionInput { symbol: symbol.into(), quantity_micros: -5 }
}

fn portfolio_input(
    strategy_exposure: Vec<NamedExposureInput>,
    symbol_positions: Vec<SymbolPositionInput>,
) -> PortfolioRiskInput {
    PortfolioRiskInput {
        as_of_ns: 1,
        trading_day: 2,
        gross_exposure_micros: 3,
        strategy_exposure,
        symbol_positions,
        daily_order_count: 4,
    }
}

#[test]
fn portfolio_names_are_non_blank_and_unique() {
    let ok = portfolio(&portfolio_input(vec![exposure("a"), exposure("b")], vec![position("SPY")])).unwrap();
    assert_eq!(ok.strategy_exposure, vec![("a".to_string(), MoneyMicros(1)), ("b".to_string(), MoneyMicros(1))]);
    assert_eq!(ok.symbol_positions_micros, vec![("SPY".to_string(), -5i128)]);
    assert_eq!(
        portfolio(&portfolio_input(vec![exposure("a"), exposure("a")], vec![])),
        Err(RiskAgentError::InvalidPortfolio {
            detail: "strategy exposure names must be non-empty and unique".into()
        })
    );
    assert_eq!(
        portfolio(&portfolio_input(vec![], vec![position(" ")])),
        Err(RiskAgentError::InvalidPortfolio {
            detail: "symbol position names must be non-empty and unique".into()
        })
    );
}

#[test]
fn configuration_is_one_time_and_replay_safe() {
    assert_eq!(configuration_step(&None, "f1"), Ok(ConfigurationStep::Install));
    assert_eq!(configuration_step(&Some("f1".into()), "f1"), Ok(ConfigurationStep::Replay));
    assert_eq!(
        configuration_step(&Some("f1".into()), "f2"),
        Err(RiskAgentError::ConfigurationConflict {
            existing_fingerprint: "f1".into(),
            proposed_fingerprint: "f2".into()
        })
    );
    assert_eq!(
        configuration_fingerprint(b""),
        "e3b0c44298fc1c149afbf4c8996fb92427ae41e4649b934ca495991b7852b855"
    );
    assert!(matches!(check_account_identity(" "), Err(RiskAgentError::InvalidConfiguration { .. })));
    assert_eq!(
        check_risk_snapshot(1, "a", "a", true, false),
        Err("risk snapshot configuration and authority are inconsistent".to_string())
    );
}

fn authorized_intent() -> OrderIntent {
    OrderIntent {
        client_order_id: "c".into(),
        proposal: OrderProposal {
            proposal_id: "p".into(),
            strategy_id: "s".into(),
            symbol: "SPY".into(),
            venue: "XNYS".into(),
            currency: "USD".into(),
            side: Side::Sell,
            quantity: QuantityMicros(1),
            limit_price: PriceMicros(2),
            mode: ExecutionMode::Live,
            trading_day: 3,
        },
        authorized_notional: MoneyMicros(4),
        risk_policy_version: "v".into(),
        authorized_at_ns: 5,
    }
}

#[test]
fn risk_decisions_keep_every_field() {
    let out = decision_output(RiskDecision::Approved(authorized_intent()));
    let expected = OrderIntentInput {
        client_order_id: "c".into(),
        proposal_id: "p".into(),
        strategy_id: "s".into(),
        symbol: "SPY".into(),
        venue: "XNYS".into(),
        currency: "USD".into(),
        side: SideInput::Sell,
        quantity_micros: 1,
        limit_price_micros: 2,
        execution_mode: ExecutionModeInput::Live,
        trading_day: 3,
        authorized_notional_micros: 4,
        risk_policy_version: "v".into(),
        authorized_at_ns: 5,
    };
    assert_eq!(out, RiskDecisionOutput::Approved { intent: expected.clone() });
    assert_eq!(OrderIntent::from(expected), authorized_intent());
    assert_eq!(risk_rejection_code(RiskRejection::StaleMarketData), "stale_market_data");
    assert_eq!(
        decision_output(RiskDecision::Rejected(RiskRejection::KillSwitchActive)),
        RiskDecisionOutput::Rejected { reason: "kill_switch_active".into() }
    );
    assert_eq!(
        bridge::RiskDecisionOutput::from(RiskDecisionOutput::Rejected { reason: "x".into() }),
        bridge::RiskDecisionOutput::Rejected(bridge::Rejected { reason: "x".into() })
    );
}

#[test]
fn oms_batches_are_bounded() {
    assert_eq!(check_event_batch_limit(1024), Ok(()));
    assert_eq!(
        check_event_batch_limit(1025),
        Err(OmsAgentError::EventBatchCapacityExceeded { found: 1025, capacity: 1024 })
    );
    let batch = event_batch(7, vec![(8, "{}".to_string()), (9, "[]".to_string())]);
    assert_eq!(batch.next_cursor, 9);
    assert_eq!(batch.events_json, vec!["{}".to_string(), "[]".to_string()]);
    assert_eq!(event_batch(7, vec![]).next_cursor, 7);
    assert_eq!(
        not_initialized(&None),
        OmsAgentError::NotInitialized { detail: "durable OMS state is unavailable".into() }
    );
    assert_eq!(
        check_oms_snapshot(3, "a", "a"),
        Err("unsupported OMS snapshot version 3; expected 1".to_string())
    );
    assert_eq!(
        bridge::OmsAgentError::from(OmsAgentError::CommandRejected { detail: "d".into() }),
        bridge::OmsAgentError::CommandRejected(bridge::CommandRejected { detail: "d".into() })
    );
    assert_eq!(
        bridge::ProjectionCursorError::from(ProjectionCursorError::CursorConflict { expected: 1, actual: 2 }),
        bridge::ProjectionCursorError::CursorConflict(bridge::CursorConflict { expected: 1, actual: 2 })
    );
}

#[test]
fn event_shock_chain_emits_a_candidate_and_completes() {
    let model = EventShockModel;
    let envelope = |sequence: u64, available_at: i64, payload: EventShockEvidence| EvidenceEnvelope {
        sequence,
        effective_at: available_at - 1,
        available_at,
        payload,
    };
    let opened = model
        .open(
            "solar-flare",
            &envelope(0, 10, EventShockEvidence::Trigger { prior_ppm: 1_000, deadline_available_at: 100 }),
        )
        .unwrap();
    assert_eq!(opened.state.stage, EventShockStage::Triggered);
    assert_eq!(opened.schedule, Some((1, 100)));
    let assessed = model
        .update(
            "solar-flare",
            &opened.state,
            &envelope(
                1,
                20,
                EventShockEvidence::LikelihoodAssessment {
                    observation_positive: true,
                    sensitivity_ppm: 950_000,
                    false_positive_ppm: 1_000,
                    deadline_available_at: 200,
                },
            ),
        )
        .unwrap();
    assert_eq!(assessed.state.posterior_ppm, 487_429);
    assert!(!assessed.complete);
    let decided = model
        .update(
            "solar-flare",
            &assessed.state,
            &envelope(2, 30, EventShockEvidence::MarketAssessment { expected_edge_bps: 180, confidence_ppm: 800_000 }),
        )
        .unwrap();
    assert!(decided.complete);
    assert!(decided.outputs.iter().any(|output| matches!(
        output,
        EventShockOutput::Candidate { posterior_ppm: 487_429, conviction_ppm: 389_943, .. }
    )));
}

#[test]
fn posterior_moves_with_the_direction_of_the_evidence() {
    let prior = 100_000;
    assert!(bayesian_update(prior, true, 900_000, 200_000).unwrap() >= prior);
    assert!(bayesian_update(prior, true, 200_000, 900_000).unwrap() <= prior);
    assert!(bayesian_update(prior, false, 900_000, 200_000).unwrap() <= prior);
    assert!(bayesian_update(prior, false, 200_000, 900_000).unwrap() >= prior);
    assert_eq!(bayesian_update(prior, true, 500_000, 500_000), Ok(prior));
}

#[test]
fn cursor_stays_paired_with_its_last_event() {
    let mut cursor = ProjectionCursorAgentImpl::new("paper-account".into(), "nats".into());
    let status = cursor.status().unwrap();
    assert_eq!((status.cursor, status.last_event_id), (0, None));
    cursor
        .advance(AdvanceProjectionCursorInput { expected_cursor: 0, next_cursor: 1, event_id: "e1".into() })
        .unwrap();
    let status = cursor.status().unwrap();
    assert_eq!((status.cursor, status.last_event_id), (1, Some("e1".to_string())));
}
