use ai_hft_architecture::critical_path::constraint_engine::{
    current_time_ns, timestamp_from_elapsed_nanos, AuditAssessment, DetectedBreaches, ConstraintEngine, ConstraintError, MarketObservation,
    RiskAssessment, RiskBreachType,
};
use ai_hft_architecture::RiskConstraintPayload;

fn constraint(
    seq: u64,
    var: f64,
    conc: f64,
    loss: f64,
    leverage: f64,
    delta_target: f64,
    vega_target: f64,
) -> RiskConstraintPayload {
    RiskConstraintPayload {
        constraint_seq_id: seq,
        max_var_limit: var.to_bits(),
        max_position_concentration: conc.to_bits(),
        max_intraday_loss: loss.to_bits(),
        max_leverage: leverage.to_bits(),
        delta_hedge_target: delta_target.to_bits(),
        vega_hedge_target: vega_target.to_bits(),
        constraint_timestamp_ns: current_time_ns(),
        reserved_a: [0; 32],
    }
}

fn f(bits: u64) -> f64 {
    f64::from_bits(bits)
}

/// The floating-point checks of a constraint application, made as the execution core
/// makes them, handed to the engine with the observation.
#[allow(clippy::too_many_arguments)]
fn apply(
    engine: &mut ConstraintEngine,
    c: &RiskConstraintPayload,
    pnl: f64,
    notional: f64,
    leverage: f64,
    delta: f64,
    vega: f64,
    conc: f64,
) -> Result<(), ConstraintError> {
    let state = &engine.portfolio_state;
    let new_trough = f(state.trough_daily_pnl).min(pnl);
    let new_peak = f(state.peak_daily_pnl).max(pnl);
    let daily_loss = f(state.peak_daily_pnl) - new_trough;
    let delta_target = f(c.delta_hedge_target);
    let vega_target = f(c.vega_hedge_target);
    let assessment = RiskAssessment {
        payload_invalid: f(c.max_var_limit) <= 0.0
            || f(c.max_leverage) <= 0.0
            || !(0.0..=1.0).contains(&f(c.max_position_concentration)),
        var_exceeded: notional.abs() > f(c.max_var_limit),
        concentration_exceeded: conc > f(c.max_position_concentration),
        intraday_loss_exceeded: daily_loss > f(c.max_intraday_loss),
        leverage_exceeded: leverage > f(c.max_leverage),
        delta_hedge_missed: delta_target != 0.0
            && (delta - delta_target).abs() > delta_target.abs() * 0.1,
        vega_hedge_missed: vega_target != 0.0
            && (vega - vega_target).abs() > vega_target.abs() * 0.1,
        pnl_not_finite: pnl.is_nan() || pnl.is_infinite(),
    };
    let observation = MarketObservation {
        pnl: pnl.to_bits(),
        notional: notional.to_bits(),
        leverage: leverage.to_bits(),
        delta: delta.to_bits(),
        vega: vega.to_bits(),
        max_concentration: conc.to_bits(),
        next_peak_daily_pnl: new_peak.to_bits(),
        next_trough_daily_pnl: new_trough.to_bits(),
    };
    engine.apply_constraint(c, &observation, &assessment)
}

fn audit(engine: &ConstraintEngine, c: &RiskConstraintPayload) -> Result<(), ConstraintError> {
    let state = &engine.portfolio_state;
    let assessment = AuditAssessment {
        var_limit_invalid: f(c.max_var_limit) <= 0.0,
        var_exceeded: f(state.current_notional_exposure).abs() > f(c.max_var_limit),
        concentration_exceeded: f(state.max_position_concentration_current)
            > f(c.max_position_concentration),
        leverage_exceeded: f(state.current_leverage) > f(c.max_leverage),
    };
    engine.audit_portfolio_state(&assessment)
}

#[test]
fn test_constraint_engine_creation() {
    let engine = ConstraintEngine::new();
    assert_eq!(engine.get_constraints_processed(), 0);
    assert_eq!(engine.get_constraints_rejected(), 0);
    assert_eq!(f(engine.portfolio_state.unrealized_pnl), 0.0);
}

#[test]
fn test_apply_constraint_success() {
    let mut engine = ConstraintEngine::new();
    let c = constraint(1, 1_000_000.0, 0.25, 500_000.0, 3.5, 0.0, 0.0);

    let result = apply(&mut engine, &c, 100_000.0, 500_000.0, 2.5, 0.0, 0.0, 0.15);

    assert_eq!(result, Ok(()));
    assert_eq!(engine.get_constraints_processed(), 1);
    assert_eq!(engine.get_constraints_rejected(), 0);
    assert_eq!(f(engine.portfolio_state.unrealized_pnl), 100_000.0);
}

#[test]
fn test_apply_constraint_var_breach() {
    let mut engine = ConstraintEngine::new();
    let c = constraint(1, 500_000.0, 0.25, 500_000.0, 3.5, 0.0, 0.0);

    let result = apply(&mut engine, &c, 0.0, 1_000_000.0, 3.0, 0.0, 0.0, 0.15);

    assert_eq!(result, Err(ConstraintError::RiskBreachDetected(RiskBreachType::VaRExceeded)));
    assert_eq!(engine.get_constraints_rejected(), 1);
}

#[test]
fn test_apply_constraint_leverage_breach() {
    let mut engine = ConstraintEngine::new();
    let c = constraint(1, 1_000_000.0, 0.25, 500_000.0, 3.0, 0.0, 0.0);

    let result = apply(&mut engine, &c, 0.0, 500_000.0, 3.5, 0.0, 0.0, 0.15);

    assert_eq!(
        result,
        Err(ConstraintError::RiskBreachDetected(RiskBreachType::LeverageExceeded))
    );
    assert_eq!(engine.get_constraints_rejected(), 1);
}

#[test]
fn test_apply_constraint_concentration_breach() {
    let mut engine = ConstraintEngine::new();
    let c = constraint(1, 1_000_000.0, 0.20, 500_000.0, 3.5, 0.0, 0.0);

    let result = apply(&mut engine, &c, 0.0, 500_000.0, 2.5, 0.0, 0.0, 0.25);

    assert_eq!(
        result,
        Err(ConstraintError::RiskBreachDetected(RiskBreachType::ConcentrationExceeded))
    );
    assert_eq!(engine.get_constraints_rejected(), 1);
}

#[test]
fn test_intraday_loss_tracking() {
    let mut engine = ConstraintEngine::new();
    let c = constraint(1, 1_000_000.0, 0.25, 100_000.0, 3.5, 0.0, 0.0);

    let result1 = apply(&mut engine, &c, 50_000.0, 500_000.0, 2.5, 0.0, 0.0, 0.15);
    assert_eq!(result1, Ok(()));

    assert_eq!(f(engine.portfolio_state.peak_daily_pnl), 50_000.0);

    let result2 = apply(&mut engine, &c, -60_000.0, 500_000.0, 2.5, 0.0, 0.0, 0.15);
    assert_eq!(
        result2,
        Err(ConstraintError::RiskBreachDetected(RiskBreachType::IntraDayLossExceeded))
    );
}

#[test]
fn test_audit_portfolio_state() {
    let mut engine = ConstraintEngine::new();
    let c = constraint(1, 500_000.0, 0.25, 500_000.0, 3.5, 0.0, 0.0);

    apply(&mut engine, &c, 100_000.0, 300_000.0, 2.0, 0.0, 0.0, 0.15).ok();

    let audit1 = audit(&engine, &c);
    assert_eq!(audit1, Ok(()));

    engine.portfolio_state.current_notional_exposure = 600_000.0f64.to_bits();

    let audit2 = audit(&engine, &c);
    assert_eq!(audit2, Err(ConstraintError::RiskBreachDetected(RiskBreachType::VaRExceeded)));
}

#[test]
fn invalid_payload_is_refused_without_counting() {
    let mut engine = ConstraintEngine::new();
    let bad_var = constraint(3, 0.0, 0.25, 500_000.0, 3.5, 0.0, 0.0);
    let bad_conc = constraint(4, 1_000.0, 1.5, 500_000.0, 3.5, 0.0, 0.0);
    let bad_leverage = constraint(5, 1_000.0, 0.5, 500_000.0, -1.0, 0.0, 0.0);
    for c in [bad_var, bad_conc, bad_leverage] {
        // Every limit is also breached, yet validation comes first.
        let result = apply(&mut engine, &c, 0.0, 10_000_000.0, 10.0, 0.0, 0.0, 0.99);
        assert_eq!(result, Err(ConstraintError::PayloadValidationFailed));
    }
    assert_eq!(engine.get_constraints_processed(), 0);
    assert_eq!(engine.get_constraints_rejected(), 0);
    assert_eq!(engine.last_breach_type, 0);
    assert_eq!(engine.get_last_applied_seq_id().0, 0);
}

#[test]
fn non_finite_pnl_is_refused_without_counting() {
    let mut engine = ConstraintEngine::new();
    let c = constraint(9, 1_000_000.0, 0.25, f64::INFINITY, 3.5, 0.0, 0.0);
    let result = apply(&mut engine, &c, f64::NAN, 100.0, 1.0, 0.0, 0.0, 0.1);
    assert_eq!(result, Err(ConstraintError::NumericOverflow));
    let result = apply(&mut engine, &c, f64::INFINITY, 100.0, 1.0, 0.0, 0.0, 0.1);
    assert_eq!(result, Err(ConstraintError::NumericOverflow));
    assert_eq!(engine.get_constraints_processed(), 0);
    assert_eq!(engine.get_constraints_rejected(), 0);
}

#[test]
fn hedge_breaches_are_detected_and_recorded() {
    let mut engine = ConstraintEngine::new();
    let c = constraint(2, 1_000_000.0, 0.25, 500_000.0, 3.5, 100.0, 0.0);
    // Delta 120 deviates by 20 from target 100, beyond the 10% tolerance.
    let result = apply(&mut engine, &c, 0.0, 1_000.0, 1.0, 120.0, 0.0, 0.1);
    assert_eq!(
        result,
        Err(ConstraintError::RiskBreachDetected(RiskBreachType::DeltaHedgeMissed))
    );
    assert_eq!(engine.last_breach_type, 5);

    let c = constraint(3, 1_000_000.0, 0.25, 500_000.0, 3.5, 0.0, -50.0);
    let result = apply(&mut engine, &c, 0.0, 1_000.0, 1.0, 7.0, -40.0, 0.1);
    assert_eq!(
        result,
        Err(ConstraintError::RiskBreachDetected(RiskBreachType::VegaHedgeMissed))
    );
    assert_eq!(engine.last_breach_type, 6);
    assert_eq!(engine.get_constraints_rejected(), 2);

    // Within tolerance: applied.
    let result = apply(&mut engine, &c, 0.0, 1_000.0, 1.0, 7.0, -48.0, 0.1);
    assert_eq!(result, Ok(()));
    assert_eq!(engine.get_last_applied_seq_id().0, 3);
}

#[test]
fn breach_precedence_follows_check_order() {
    let mut engine = ConstraintEngine::new();
    let c = constraint(1, 100.0, 0.1, 10.0, 1.0, 0.0, 0.0);
    // Every limit breached: VaR is reported.
    let r = apply(&mut engine, &c, -1_000.0, 1_000.0, 5.0, 0.0, 0.0, 0.9);
    assert_eq!(r, Err(ConstraintError::RiskBreachDetected(RiskBreachType::VaRExceeded)));
    assert_eq!(engine.last_breach_type, 1);
    // VaR fine: concentration is reported.
    let r = apply(&mut engine, &c, -1_000.0, 10.0, 5.0, 0.0, 0.0, 0.9);
    assert_eq!(
        r,
        Err(ConstraintError::RiskBreachDetected(RiskBreachType::ConcentrationExceeded))
    );
    assert_eq!(engine.last_breach_type, 2);
    // Concentration fine too: intraday loss is reported.
    let r = apply(&mut engine, &c, -1_000.0, 10.0, 5.0, 0.0, 0.0, 0.05);
    assert_eq!(
        r,
        Err(ConstraintError::RiskBreachDetected(RiskBreachType::IntraDayLossExceeded))
    );
    assert_eq!(engine.last_breach_type, 3);
    // Loss fine too: leverage is reported.
    let r = apply(&mut engine, &c, 0.0, 10.0, 5.0, 0.0, 0.0, 0.05);
    assert_eq!(r, Err(ConstraintError::RiskBreachDetected(RiskBreachType::LeverageExceeded)));
    assert_eq!(engine.last_breach_type, 4);
    assert_eq!(engine.get_constraints_rejected(), 4);
    assert_eq!(engine.get_constraints_processed(), 0);
}

#[test]
fn refused_constraint_keeps_portfolio() {
    let mut engine = ConstraintEngine::new();
    let c = constraint(1, 1_000_000.0, 0.25, 500_000.0, 3.5, 0.0, 0.0);
    assert_eq!(apply(&mut engine, &c, 10.0, 20.0, 1.5, 0.0, 0.0, 0.1), Ok(()));
    let before = engine.portfolio_state;
    let c2 = constraint(2, 1_000_000.0, 0.25, 500_000.0, 1.0, 0.0, 0.0);
    assert_eq!(
        apply(&mut engine, &c2, 99.0, 99.0, 2.0, 0.0, 0.0, 0.1),
        Err(ConstraintError::RiskBreachDetected(RiskBreachType::LeverageExceeded))
    );
    assert_eq!(engine.portfolio_state, before);
    assert_eq!(engine.get_last_applied_seq_id().0, 1);
}

#[test]
fn applied_constraint_installs_snapshot() {
    let mut engine = ConstraintEngine::new();
    let c = constraint(77, 1_000_000.0, 0.25, 500_000.0, 3.5, 0.0, 0.0);
    assert_eq!(apply(&mut engine, &c, -250.0, -300_000.0, 2.0, 1.0, 2.0, 0.2), Ok(()));
    let s = engine.portfolio_state;
    assert_eq!(f(s.unrealized_pnl), -250.0);
    assert_eq!(f(s.current_notional_exposure), -300_000.0);
    assert_eq!(f(s.current_leverage), 2.0);
    assert_eq!(f(s.current_delta), 1.0);
    assert_eq!(f(s.current_vega), 2.0);
    assert_eq!(f(s.peak_daily_pnl), 0.0);
    assert_eq!(f(s.trough_daily_pnl), -250.0);
    assert_eq!(f(s.max_position_concentration_current), 0.2);
    assert_eq!(engine.get_last_applied_seq_id().0, 77);
    // The risk metric is the magnitude of the notional exposure.
    assert_eq!(f(engine.get_current_var().0), 300_000.0);
}

#[test]
fn apply_constraint_at_stamps_given_time() {
    let mut engine = ConstraintEngine::new();
    let c = constraint(5, 1.0, 0.5, 1.0, 1.0, 0.0, 0.0);
    let observation = MarketObservation {
        pnl: 1u64,
        notional: 2,
        leverage: 3,
        delta: 4,
        vega: 5,
        max_concentration: 6,
        next_peak_daily_pnl: 7,
        next_trough_daily_pnl: 8,
    };
    let all_pass = RiskAssessment {
        payload_invalid: false,
        var_exceeded: false,
        concentration_exceeded: false,
        intraday_loss_exceeded: false,
        leverage_exceeded: false,
        delta_hedge_missed: false,
        vega_hedge_missed: false,
        pnl_not_finite: false,
    };
    assert_eq!(engine.apply_constraint_at(&c, &observation, &all_pass, 123_456), Ok(()));
    assert_eq!(engine.portfolio_state.last_constraint_update_ns, 123_456);
    assert_eq!(engine.portfolio_state.peak_daily_pnl, 7);
    assert_eq!(engine.portfolio_state.trough_daily_pnl, 8);
    assert_eq!(engine.get_constraints_processed(), 1);
}

#[test]
fn breach_codes() {
    assert_eq!(RiskBreachType::VaRExceeded.code(), 1);
    assert_eq!(RiskBreachType::ConcentrationExceeded.code(), 2);
    assert_eq!(RiskBreachType::IntraDayLossExceeded.code(), 3);
    assert_eq!(RiskBreachType::LeverageExceeded.code(), 4);
    assert_eq!(RiskBreachType::DeltaHedgeMissed.code(), 5);
    assert_eq!(RiskBreachType::VegaHedgeMissed.code(), 6);
}

#[test]
fn audit_reports_every_breach() {
    let engine = ConstraintEngine::new();
    let all = AuditAssessment {
        var_limit_invalid: true,
        var_exceeded: true,
        concentration_exceeded: true,
        leverage_exceeded: true,
    };
    assert_eq!(engine.audit_portfolio_state(&all), Err(ConstraintError::PayloadValidationFailed));
    let a = AuditAssessment { var_limit_invalid: false, ..all };
    assert_eq!(
        engine.audit_portfolio_state(&a),
        Err(ConstraintError::RiskBreachesDetected(DetectedBreaches {
            var_exceeded: true,
            concentration_exceeded: true,
            leverage_exceeded: true,
        }))
    );
    let a = AuditAssessment { var_limit_invalid: false, var_exceeded: false, ..all };
    assert_eq!(
        engine.audit_portfolio_state(&a),
        Err(ConstraintError::RiskBreachesDetected(DetectedBreaches {
            var_exceeded: false,
            concentration_exceeded: true,
            leverage_exceeded: true,
        }))
    );
    let a = AuditAssessment {
        var_limit_invalid: false,
        var_exceeded: false,
        concentration_exceeded: false,
        leverage_exceeded: true,
    };
    assert_eq!(
        engine.audit_portfolio_state(&a),
        Err(ConstraintError::RiskBreachDetected(RiskBreachType::LeverageExceeded))
    );
    let a = AuditAssessment {
        var_limit_invalid: false,
        var_exceeded: false,
        concentration_exceeded: true,
        leverage_exceeded: false,
    };
    assert_eq!(
        engine.audit_portfolio_state(&a),
        Err(ConstraintError::RiskBreachDetected(RiskBreachType::ConcentrationExceeded))
    );
}

#[test]
fn audit_of_state_with_two_breaches() {
    let mut engine = ConstraintEngine::new();
    let c = constraint(1, 500_000.0, 0.25, 500_000.0, 3.5, 0.0, 0.0);
    apply(&mut engine, &c, 100_000.0, 300_000.0, 2.0, 0.0, 0.0, 0.15).ok();
    engine.portfolio_state.current_notional_exposure = 600_000.0f64.to_bits();
    engine.portfolio_state.max_position_concentration_current = 0.3f64.to_bits();
    assert_eq!(
        audit(&engine, &c),
        Err(ConstraintError::RiskBreachesDetected(DetectedBreaches {
            var_exceeded: true,
            concentration_exceeded: true,
            leverage_exceeded: false,
        }))
    );
}

#[test]
fn current_time_is_after_2020() {
    // 2020-01-01T00:00:00Z in nanoseconds.
    assert!(current_time_ns() > 1_577_836_800_000_000_000);
}

#[test]
fn list_portfolio_breaches_reports_every_breach() {
    let engine = ConstraintEngine::new();
    let all = AuditAssessment {
        var_limit_invalid: false,
        var_exceeded: true,
        concentration_exceeded: true,
        leverage_exceeded: true,
    };
    assert_eq!(
        engine.list_portfolio_breaches(&all),
        Ok(vec![
            RiskBreachType::VaRExceeded,
            RiskBreachType::ConcentrationExceeded,
            RiskBreachType::LeverageExceeded
        ])
    );
    let some = AuditAssessment { concentration_exceeded: false, ..all };
    assert_eq!(
        engine.list_portfolio_breaches(&some),
        Ok(vec![RiskBreachType::VaRExceeded, RiskBreachType::LeverageExceeded])
    );
    let none = AuditAssessment {
        var_limit_invalid: false,
        var_exceeded: false,
        concentration_exceeded: false,
        leverage_exceeded: false,
    };
    assert_eq!(engine.list_portfolio_breaches(&none), Ok(vec![]));
    assert_eq!(engine.audit_portfolio_state(&none), Ok(()));
    let invalid = AuditAssessment { var_limit_invalid: true, ..all };
    assert_eq!(
        engine.list_portfolio_breaches(&invalid),
        Err(ConstraintError::PayloadValidationFailed)
    );
}

#[test]
fn timestamp_from_clock_reading() {
    assert_eq!(timestamp_from_elapsed_nanos(None), 0);
    assert_eq!(timestamp_from_elapsed_nanos(Some(1_234)), 1_234);
    assert_eq!(timestamp_from_elapsed_nanos(Some((1u128 << 64) + 5)), 5);
}
