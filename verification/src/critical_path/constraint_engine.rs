//! Constraint execution engine: the bookkeeping state machine that applies risk
//! constraints to the portfolio state.
//!
//! Every risk limit of a constraint is checked against the observed portfolio by
//! floating-point comparisons; those comparisons are made by the caller and handed to the
//! engine as a `RiskAssessment` of one flag per check. The engine decides, from the flags
//! in a fixed order of precedence, whether the constraint is refused as invalid, refused
//! as a breach of one particular limit, refused as numerically unsound, or applied; it
//! keeps the counters, the last breach, the last applied sequence ID and the portfolio
//! snapshot accordingly. Floating-point quantities are held as IEEE-754 binary64 bit
//! patterns (`f64::to_bits`).
use vstd::prelude::*;

pub use crate::critical_path::ipc_mmap::RiskConstraintPayload;

verus! {

/// Branded type for constraint sequence IDs.
#[derive(Clone, Copy, Debug, PartialEq, Eq, Structural, PartialOrd, Ord, Hash)]
pub struct ConstraintSeqId(pub u64);

/// Branded type for position IDs.
#[derive(Clone, Copy, Debug, PartialEq, Eq, Structural)]
pub struct PositionId(pub u64);

/// Branded type for a portfolio risk metric (binary64 bits).
#[derive(Clone, Copy, Debug, PartialEq, Eq, Structural)]
pub struct PortfolioRiskMetric(pub u64);

/// Current portfolio state; floating-point quantities are binary64 bit patterns.
#[derive(Clone, Copy, Debug, PartialEq, Eq)]
pub struct PortfolioState {
    /// Current unrealized P&L.
    pub unrealized_pnl: u64,
    /// Current notional exposure.
    pub current_notional_exposure: u64,
    /// Current leverage ratio.
    pub current_leverage: u64,
    /// Current delta hedge.
    pub current_delta: u64,
    /// Current vega hedge.
    pub current_vega: u64,
    /// Highest daily P&L seen.
    pub peak_daily_pnl: u64,
    /// Lowest daily P&L seen.
    pub trough_daily_pnl: u64,
    /// Largest single position concentration.
    pub max_position_concentration_current: u64,
    /// Timestamp of the last constraint application (ns).
    pub last_constraint_update_ns: u64,
    /// Reserved for extensions.
    pub reserved: [u64; 6],
}

/// Kinds of risk-limit breach, in the order in which they are checked.
#[derive(Debug, Clone, Copy, PartialEq, Eq, Structural)]
pub enum RiskBreachType {
    /// Portfolio VaR exceeds limit.
    VaRExceeded,
    /// Single position exceeds concentration limit.
    ConcentrationExceeded,
    /// Daily loss exceeds intraday stop.
    IntraDayLossExceeded,
    /// Leverage exceeds maximum.
    LeverageExceeded,
    /// Delta hedge deviation exceeds target.
    DeltaHedgeMissed,
    /// Vega hedge deviation exceeds target.
    VegaHedgeMissed,
}

/// The diagnostic code of each breach kind: 1 to 6 in order of precedence.
pub open spec fn breach_code(kind: RiskBreachType) -> u64 {
    match kind {
        RiskBreachType::VaRExceeded => 1,
        RiskBreachType::ConcentrationExceeded => 2,
        RiskBreachType::IntraDayLossExceeded => 3,
        RiskBreachType::LeverageExceeded => 4,
        RiskBreachType::DeltaHedgeMissed => 5,
        RiskBreachType::VegaHedgeMissed => 6,
    }
}

impl RiskBreachType {
    /// The diagnostic code recorded for this breach kind.
    pub fn code(&self) -> (code: u64)
        ensures
            code == breach_code(*self),
    {
        match self {
            RiskBreachType::VaRExceeded => 1,
            RiskBreachType::ConcentrationExceeded => 2,
            RiskBreachType::IntraDayLossExceeded => 3,
            RiskBreachType::LeverageExceeded => 4,
            RiskBreachType::DeltaHedgeMissed => 5,
            RiskBreachType::VegaHedgeMissed => 6,
        }
    }
}

/// Result type for constraint operations.
pub type ConstraintResult<T> = Result<T, ConstraintError>;

/// Errors of constraint operations.
#[derive(Debug, Clone, Copy, PartialEq, Eq, Structural)]
pub enum ConstraintError {
    /// Constraint payload not found in the shared region.
    PayloadNotFound,
    /// Constraint validation failed (data corruption or semantic violation).
    PayloadValidationFailed,
    /// Risk limit breach detected.
    RiskBreachDetected(RiskBreachType),
    /// Several risk limit breaches detected at once; every one of them is set.
    RiskBreachesDetected(DetectedBreaches),
    /// Constraint application violates prior state.
    StateConsistencyViolation,
    /// Shared-region access failed.
    MmapAccessError,
    /// Portfolio state overflow (numeric instability).
    NumericOverflow,
}

/// The outcome of each check that applying a constraint makes, one flag per check, as
/// computed by floating-point comparison of the constraint against the observation.
#[derive(Clone, Copy, Debug, PartialEq, Eq, Structural)]
pub struct RiskAssessment {
    /// The VaR or leverage limit is not positive, or the concentration limit lies
    /// outside `[0, 1]`.
    pub payload_invalid: bool,
    /// `|notional| > max_var_limit`.
    pub var_exceeded: bool,
    /// `max_concentration > max_position_concentration`.
    pub concentration_exceeded: bool,
    /// `peak_daily_pnl - min(trough_daily_pnl, pnl) > max_intraday_loss`.
    pub intraday_loss_exceeded: bool,
    /// `leverage > max_leverage`.
    pub leverage_exceeded: bool,
    /// Nonzero delta target, and `|delta - target| > |target| * 0.1`.
    pub delta_hedge_missed: bool,
    /// Nonzero vega target, and `|vega - target| > |target| * 0.1`.
    pub vega_hedge_missed: bool,
    /// The P&L is NaN or infinite.
    pub pnl_not_finite: bool,
}

/// The breaches that an audit detected, one flag per limit it checks.
#[derive(Clone, Copy, Debug, PartialEq, Eq, Structural)]
pub struct DetectedBreaches {
    /// The VaR limit is breached.
    pub var_exceeded: bool,
    /// The concentration limit is breached.
    pub concentration_exceeded: bool,
    /// The leverage limit is breached.
    pub leverage_exceeded: bool,
}

/// The breaches set in `b`, in the order VaR, concentration, leverage.
pub open spec fn breach_list(b: DetectedBreaches) -> Seq<RiskBreachType> {
    (if b.var_exceeded {
        seq![RiskBreachType::VaRExceeded]
    } else {
        Seq::empty()
    }) + (if b.concentration_exceeded {
        seq![RiskBreachType::ConcentrationExceeded]
    } else {
        Seq::empty()
    }) + (if b.leverage_exceeded {
        seq![RiskBreachType::LeverageExceeded]
    } else {
        Seq::empty()
    })
}

/// The outcome of each check of a read-only audit of the portfolio state.
#[derive(Clone, Copy, Debug, PartialEq, Eq, Structural)]
pub struct AuditAssessment {
    /// The VaR limit is not positive.
    pub var_limit_invalid: bool,
    /// `|current_notional_exposure| > max_var_limit`.
    pub var_exceeded: bool,
    /// `max_position_concentration_current > max_position_concentration`.
    pub concentration_exceeded: bool,
    /// `current_leverage > max_leverage`.
    pub leverage_exceeded: bool,
}

/// A market observation to apply together with a constraint (binary64 bits), with the
/// daily peak and trough P&L that result from it.
#[derive(Clone, Copy, Debug, PartialEq, Eq, Structural)]
pub struct MarketObservation {
    /// Current P&L.
    pub pnl: u64,
    /// Current notional exposure.
    pub notional: u64,
    /// Current leverage.
    pub leverage: u64,
    /// Current delta.
    pub delta: u64,
    /// Current vega.
    pub vega: u64,
    /// Current largest position concentration.
    pub max_concentration: u64,
    /// `max(peak_daily_pnl, pnl)`.
    pub next_peak_daily_pnl: u64,
    /// `min(trough_daily_pnl, pnl)`.
    pub next_trough_daily_pnl: u64,
}

/// The error that applying a constraint ends in, given the outcome of its checks: the
/// first failed check in the order validation, VaR, concentration, intraday loss,
/// leverage, delta hedge, vega hedge, numeric sanity; `None` when every check passes.
pub open spec fn first_failure(a: RiskAssessment) -> Option<ConstraintError> {
    if a.payload_invalid {
        Some(ConstraintError::PayloadValidationFailed)
    } else if a.var_exceeded {
        Some(ConstraintError::RiskBreachDetected(RiskBreachType::VaRExceeded))
    } else if a.concentration_exceeded {
        Some(ConstraintError::RiskBreachDetected(RiskBreachType::ConcentrationExceeded))
    } else if a.intraday_loss_exceeded {
        Some(ConstraintError::RiskBreachDetected(RiskBreachType::IntraDayLossExceeded))
    } else if a.leverage_exceeded {
        Some(ConstraintError::RiskBreachDetected(RiskBreachType::LeverageExceeded))
    } else if a.delta_hedge_missed {
        Some(ConstraintError::RiskBreachDetected(RiskBreachType::DeltaHedgeMissed))
    } else if a.vega_hedge_missed {
        Some(ConstraintError::RiskBreachDetected(RiskBreachType::VegaHedgeMissed))
    } else if a.pnl_not_finite {
        Some(ConstraintError::NumericOverflow)
    } else {
        None
    }
}

/// The outcome of an audit: `PayloadValidationFailed` for an invalid VaR limit; otherwise
/// `Ok(())` when no breach is detected, the one breach when exactly one is, and every
/// detected breach when several are.
pub open spec fn audit_outcome(a: AuditAssessment) -> ConstraintResult<()> {
    let breaches = audit_breaches(a);
    if a.var_limit_invalid {
        Err(ConstraintError::PayloadValidationFailed)
    } else if breaches.len() == 0 {
        Ok(())
    } else if breaches.len() == 1 {
        Err(ConstraintError::RiskBreachDetected(breaches[0]))
    } else {
        Err(ConstraintError::RiskBreachesDetected(detected_breaches(a)))
    }
}

/// The breach flags of an audit assessment.
pub open spec fn detected_breaches(a: AuditAssessment) -> DetectedBreaches {
    DetectedBreaches {
        var_exceeded: a.var_exceeded,
        concentration_exceeded: a.concentration_exceeded,
        leverage_exceeded: a.leverage_exceeded,
    }
}

/// Every breach that an audit detects, in the order VaR, concentration, leverage.
pub open spec fn audit_breaches(a: AuditAssessment) -> Seq<RiskBreachType> {
    breach_list(detected_breaches(a))
}

/// The audit of a valid constraint reports every detected breach: it passes exactly when
/// none is detected, names the breach when exactly one is, and carries all of them when
/// several are.
pub proof fn law_audit_reports_every_breach(a: AuditAssessment)
    requires
        !a.var_limit_invalid,
    ensures
        audit_outcome(a) == Ok::<(), ConstraintError>(()) <==> audit_breaches(a).len() == 0,
        audit_breaches(a).len() == 1 ==> audit_outcome(a) == Err::<(), ConstraintError>(
            ConstraintError::RiskBreachDetected(audit_breaches(a)[0]),
        ),
        audit_breaches(a).len() >= 2 ==> (audit_outcome(a) matches Err(
            ConstraintError::RiskBreachesDetected(b),
        ) && breach_list(b) == audit_breaches(a)),
{
}

/// The portfolio snapshot installed when a constraint is applied at time `now_ns`.
pub open spec fn snapshot_after(
    old: PortfolioState,
    obs: MarketObservation,
    now_ns: u64,
) -> PortfolioState {
    PortfolioState {
        unrealized_pnl: obs.pnl,
        current_notional_exposure: obs.notional,
        current_leverage: obs.leverage,
        current_delta: obs.delta,
        current_vega: obs.vega,
        peak_daily_pnl: obs.next_peak_daily_pnl,
        trough_daily_pnl: obs.next_trough_daily_pnl,
        max_position_concentration_current: obs.max_concentration,
        last_constraint_update_ns: now_ns,
        reserved: old.reserved,
    }
}

/// `x + 1`, wrapping at 2^64.
pub open spec fn counter_incremented(x: u64) -> u64 {
    if x == u64::MAX {
        0
    } else {
        (x + 1) as u64
    }
}

/// Mask that clears the sign bit of a binary64 bit pattern.
pub const MAGNITUDE_MASK: u64 = 0x7FFF_FFFF_FFFF_FFFF;

/// Constraint execution state machine.
pub struct ConstraintEngine {
    /// Current portfolio state.
    pub portfolio_state: PortfolioState,
    /// Last applied constraint sequence ID.
    pub last_applied_seq_id: u64,
    /// Total constraints applied.
    pub constraints_processed: u64,
    /// Total constraints rejected for a risk breach.
    pub constraints_rejected: u64,
    /// Code of the last detected breach (0: none yet).
    pub last_breach_type: u64,
    /// Reserved for future metrics.
    pub reserved_metrics: [u64; 10],
}

/// The engine after a constraint with sequence ID `seq_id` is checked with outcome
/// `a` against observation `obs` at time `now_ns`, and the result of that application.
pub open spec fn apply_outcome(
    e: ConstraintEngine,
    seq_id: u64,
    obs: MarketObservation,
    a: RiskAssessment,
    now_ns: u64,
) -> (ConstraintEngine, ConstraintResult<()>) {
    match first_failure(a) {
        None => (
            ConstraintEngine {
                portfolio_state: snapshot_after(e.portfolio_state, obs, now_ns),
                last_applied_seq_id: seq_id,
                constraints_processed: counter_incremented(e.constraints_processed),
                ..e
            },
            Ok(()),
        ),
        Some(ConstraintError::RiskBreachDetected(kind)) => (
            ConstraintEngine {
                constraints_rejected: counter_incremented(e.constraints_rejected),
                last_breach_type: breach_code(kind),
                ..e
            },
            Err(ConstraintError::RiskBreachDetected(kind)),
        ),
        Some(err) => (e, Err(err)),
    }
}

/// A refused constraint leaves the portfolio untouched: whenever a check fails, the
/// result is that check's error, and the snapshot, the last applied sequence ID and the
/// count of applied constraints stay as they were. An invalid payload or a non-finite P&L
/// leaves the whole engine as it was.
pub proof fn law_refusal_keeps_portfolio(
    e: ConstraintEngine,
    seq_id: u64,
    obs: MarketObservation,
    a: RiskAssessment,
    now_ns: u64,
)
    requires
        first_failure(a) is Some,
    ensures
        ({
            let (next, result) = apply_outcome(e, seq_id, obs, a, now_ns);
            &&& result == Err::<(), ConstraintError>(first_failure(a)->0)
            &&& next.portfolio_state == e.portfolio_state
            &&& next.last_applied_seq_id == e.last_applied_seq_id
            &&& next.constraints_processed == e.constraints_processed
            &&& next.reserved_metrics == e.reserved_metrics
            &&& !(first_failure(a)->0 is RiskBreachDetected) ==> next == e
        }),
{
}

/// `next` is `e` with a breach of code `code` recorded: the rejected count up by one
/// (wrapping), the code recorded, everything else as it was.
pub open spec fn breach_recorded(e: ConstraintEngine, next: ConstraintEngine, code: u64) -> bool {
    &&& next.last_breach_type == code
    &&& next.constraints_rejected == if e.constraints_rejected == u64::MAX {
        0
    } else {
        (e.constraints_rejected + 1) as u64
    }
    &&& next.constraints_processed == e.constraints_processed
    &&& next.last_applied_seq_id == e.last_applied_seq_id
    &&& next.portfolio_state == e.portfolio_state
    &&& next.reserved_metrics == e.reserved_metrics
}

/// Precedence of the checks when a constraint is applied, stated on the flags: an invalid
/// payload is refused before anything else, with the engine unchanged; then the first
/// breached limit in the order VaR (code 1), concentration (2), intraday loss (3),
/// leverage (4), delta hedge (5), vega hedge (6) is reported and recorded; a non-finite
/// P&L is refused, engine unchanged, only when no limit is breached; and a constraint
/// with no failed check is applied. Conversely, a breach of a kind is reported only when
/// its own flag is set and every earlier check passed.
pub proof fn law_breach_precedence(
    e: ConstraintEngine,
    seq_id: u64,
    obs: MarketObservation,
    a: RiskAssessment,
    now_ns: u64,
)
    ensures
        ({
            let (next, r) = apply_outcome(e, seq_id, obs, a, now_ns);
            &&& a.payload_invalid ==> r == Err::<(), ConstraintError>(
                ConstraintError::PayloadValidationFailed,
            ) && next == e
            &&& !a.payload_invalid && a.var_exceeded ==> r == Err::<(), ConstraintError>(
                ConstraintError::RiskBreachDetected(RiskBreachType::VaRExceeded),
            ) && breach_recorded(e, next, 1)
            &&& !a.payload_invalid && !a.var_exceeded && a.concentration_exceeded ==> r == Err::<
                (),
                ConstraintError,
            >(ConstraintError::RiskBreachDetected(RiskBreachType::ConcentrationExceeded))
                && breach_recorded(e, next, 2)
            &&& !a.payload_invalid && !a.var_exceeded && !a.concentration_exceeded
                && a.intraday_loss_exceeded ==> r == Err::<(), ConstraintError>(
                ConstraintError::RiskBreachDetected(RiskBreachType::IntraDayLossExceeded),
            ) && breach_recorded(e, next, 3)
            &&& !a.payload_invalid && !a.var_exceeded && !a.concentration_exceeded
                && !a.intraday_loss_exceeded && a.leverage_exceeded ==> r == Err::<
                (),
                ConstraintError,
            >(ConstraintError::RiskBreachDetected(RiskBreachType::LeverageExceeded))
                && breach_recorded(e, next, 4)
            &&& !a.payload_invalid && !a.var_exceeded && !a.concentration_exceeded
                && !a.intraday_loss_exceeded && !a.leverage_exceeded && a.delta_hedge_missed ==> r
                == Err::<(), ConstraintError>(
                ConstraintError::RiskBreachDetected(RiskBreachType::DeltaHedgeMissed),
            ) && breach_recorded(e, next, 5)
            &&& !a.payload_invalid && !a.var_exceeded && !a.concentration_exceeded
                && !a.intraday_loss_exceeded && !a.leverage_exceeded && !a.delta_hedge_missed
                && a.vega_hedge_missed ==> r == Err::<(), ConstraintError>(
                ConstraintError::RiskBreachDetected(RiskBreachType::VegaHedgeMissed),
            ) && breach_recorded(e, next, 6)
            &&& !a.payload_invalid && !a.var_exceeded && !a.concentration_exceeded
                && !a.intraday_loss_exceeded && !a.leverage_exceeded && !a.delta_hedge_missed
                && !a.vega_hedge_missed && a.pnl_not_finite ==> r == Err::<(), ConstraintError>(
                ConstraintError::NumericOverflow,
            ) && next == e
            &&& !a.payload_invalid && !a.var_exceeded && !a.concentration_exceeded
                && !a.intraday_loss_exceeded && !a.leverage_exceeded && !a.delta_hedge_missed
                && !a.vega_hedge_missed && !a.pnl_not_finite ==> r == Ok::<(), ConstraintError>(())
                && next.last_applied_seq_id == seq_id && next.constraints_rejected
                == e.constraints_rejected && next.last_breach_type == e.last_breach_type
            &&& r == Err::<(), ConstraintError>(
                ConstraintError::RiskBreachDetected(RiskBreachType::DeltaHedgeMissed),
            ) ==> a.delta_hedge_missed && !a.payload_invalid && !a.var_exceeded
                && !a.concentration_exceeded && !a.intraday_loss_exceeded && !a.leverage_exceeded
            &&& r == Err::<(), ConstraintError>(
                ConstraintError::RiskBreachDetected(RiskBreachType::VegaHedgeMissed),
            ) ==> a.vega_hedge_missed && !a.delta_hedge_missed && !a.payload_invalid
                && !a.var_exceeded && !a.concentration_exceeded && !a.intraday_loss_exceeded
                && !a.leverage_exceeded
            &&& r == Err::<(), ConstraintError>(
                ConstraintError::RiskBreachDetected(RiskBreachType::LeverageExceeded),
            ) ==> a.leverage_exceeded && !a.payload_invalid && !a.var_exceeded
                && !a.concentration_exceeded && !a.intraday_loss_exceeded
            &&& r == Err::<(), ConstraintError>(
                ConstraintError::RiskBreachDetected(RiskBreachType::IntraDayLossExceeded),
            ) ==> a.intraday_loss_exceeded && !a.payload_invalid && !a.var_exceeded
                && !a.concentration_exceeded
            &&& r == Err::<(), ConstraintError>(
                ConstraintError::RiskBreachDetected(RiskBreachType::ConcentrationExceeded),
            ) ==> a.concentration_exceeded && !a.payload_invalid && !a.var_exceeded
            &&& r == Err::<(), ConstraintError>(
                ConstraintError::RiskBreachDetected(RiskBreachType::VaRExceeded),
            ) ==> a.var_exceeded && !a.payload_invalid
        }),
{
}

/// An audit against an invalid VaR limit is always refused, whatever the breach flags;
/// the audit passes exactly when the limit is valid and no breach is detected; a single
/// breach is named; several breaches are all carried, flag for flag.
pub proof fn law_audit_refusals(a: AuditAssessment)
    ensures
        a.var_limit_invalid ==> audit_outcome(a) == Err::<(), ConstraintError>(
            ConstraintError::PayloadValidationFailed,
        ),
        audit_outcome(a) == Ok::<(), ConstraintError>(()) <==> (!a.var_limit_invalid
            && !a.var_exceeded && !a.concentration_exceeded && !a.leverage_exceeded),
        !a.var_limit_invalid && a.var_exceeded && !a.concentration_exceeded
            && !a.leverage_exceeded ==> audit_outcome(a) == Err::<(), ConstraintError>(
            ConstraintError::RiskBreachDetected(RiskBreachType::VaRExceeded),
        ),
        !a.var_limit_invalid && !a.var_exceeded && a.concentration_exceeded
            && !a.leverage_exceeded ==> audit_outcome(a) == Err::<(), ConstraintError>(
            ConstraintError::RiskBreachDetected(RiskBreachType::ConcentrationExceeded),
        ),
        !a.var_limit_invalid && !a.var_exceeded && !a.concentration_exceeded
            && a.leverage_exceeded ==> audit_outcome(a) == Err::<(), ConstraintError>(
            ConstraintError::RiskBreachDetected(RiskBreachType::LeverageExceeded),
        ),
        !a.var_limit_invalid && ((a.var_exceeded && a.concentration_exceeded) || (
        a.var_exceeded && a.leverage_exceeded) || (a.concentration_exceeded
            && a.leverage_exceeded)) ==> audit_outcome(a) == Err::<(), ConstraintError>(
            ConstraintError::RiskBreachesDetected(
                DetectedBreaches {
                    var_exceeded: a.var_exceeded,
                    concentration_exceeded: a.concentration_exceeded,
                    leverage_exceeded: a.leverage_exceeded,
                },
            ),
        ),
{
}

/// Every application moves exactly one counter by one, or none: an applied constraint
/// counts as processed, a breach as rejected and records its code, while an invalid
/// payload or a non-finite P&L counts as neither.
pub proof fn law_counters(
    e: ConstraintEngine,
    seq_id: u64,
    obs: MarketObservation,
    a: RiskAssessment,
    now_ns: u64,
)
    ensures
        ({
            let (next, result) = apply_outcome(e, seq_id, obs, a, now_ns);
            &&& result is Ok ==> next.constraints_processed == counter_incremented(
                e.constraints_processed,
            ) && next.constraints_rejected == e.constraints_rejected
                && next.last_applied_seq_id == seq_id
            &&& (forall|kind: RiskBreachType|
                result == Err::<(), ConstraintError>(ConstraintError::RiskBreachDetected(kind))
                    ==> next.constraints_rejected == counter_incremented(e.constraints_rejected)
                    && next.constraints_processed == e.constraints_processed
                    && next.last_breach_type == breach_code(kind))
            &&& (result == Err::<(), ConstraintError>(ConstraintError::PayloadValidationFailed)
                || result == Err::<(), ConstraintError>(ConstraintError::NumericOverflow)) ==> next
                == e
        }),
{
}

/// A constraint whose checks all pass is applied: the snapshot afterwards is the
/// observation stamped with the application time, whatever the snapshot was before.
pub proof fn law_applied_snapshot_is_observation(
    e: ConstraintEngine,
    seq_id: u64,
    obs: MarketObservation,
    a: RiskAssessment,
    now_ns: u64,
)
    requires
        first_failure(a) is None,
    ensures
        ({
            let (next, result) = apply_outcome(e, seq_id, obs, a, now_ns);
            &&& result == Ok::<(), ConstraintError>(())
            &&& next.portfolio_state.unrealized_pnl == obs.pnl
            &&& next.portfolio_state.current_notional_exposure == obs.notional
            &&& next.portfolio_state.current_leverage == obs.leverage
            &&& next.portfolio_state.current_delta == obs.delta
            &&& next.portfolio_state.current_vega == obs.vega
            &&& next.portfolio_state.peak_daily_pnl == obs.next_peak_daily_pnl
            &&& next.portfolio_state.trough_daily_pnl == obs.next_trough_daily_pnl
            &&& next.portfolio_state.max_position_concentration_current == obs.max_concentration
            &&& next.portfolio_state.last_constraint_update_ns == now_ns
        }),
{
}

/// One application of a constraint: its sequence ID, the observation, the outcome of its
/// checks and the time it is applied at.
pub struct ApplicationStep {
    /// Sequence ID of the constraint.
    pub seq_id: u64,
    /// The observation applied with it.
    pub observation: MarketObservation,
    /// The outcome of its checks.
    pub assessment: RiskAssessment,
    /// Application time (ns).
    pub now_ns: u64,
}

/// The engine after applying `steps` in order, starting from `e`.
pub open spec fn apply_all(e: ConstraintEngine, steps: Seq<ApplicationStep>) -> ConstraintEngine
    decreases steps.len(),
{
    if steps.len() == 0 {
        e
    } else {
        let s = steps.last();
        apply_outcome(
            apply_all(e, steps.drop_last()),
            s.seq_id,
            s.observation,
            s.assessment,
            s.now_ns,
        ).0
    }
}

/// The sequence ID of the last step in `steps` whose checks all pass, or `initial` when
/// none does.
pub open spec fn last_applied_id(initial: u64, steps: Seq<ApplicationStep>) -> u64
    decreases steps.len(),
{
    if steps.len() == 0 {
        initial
    } else if first_failure(steps.last().assessment) is None {
        steps.last().seq_id
    } else {
        last_applied_id(initial, steps.drop_last())
    }
}

/// How many steps in `steps` have every check pass.
pub open spec fn count_applied(steps: Seq<ApplicationStep>) -> nat
    decreases steps.len(),
{
    if steps.len() == 0 {
        0
    } else {
        count_applied(steps.drop_last()) + if first_failure(steps.last().assessment) is None {
            1nat
        } else {
            0nat
        }
    }
}

/// How many steps in `steps` end in a risk breach.
pub open spec fn count_breaches(steps: Seq<ApplicationStep>) -> nat
    decreases steps.len(),
{
    if steps.len() == 0 {
        0
    } else {
        count_breaches(steps.drop_last()) + if first_failure(steps.last().assessment) matches Some(
            ConstraintError::RiskBreachDetected(_),
        ) {
            1nat
        } else {
            0nat
        }
    }
}

/// Over any sequence of applications: the last applied sequence ID is that of the last
/// application whose checks all passed (unchanged when none did), the applied count grows
/// by the number of such applications, and the rejected count by the number of breaches,
/// both modulo 2^64.
pub proof fn law_application_history(e: ConstraintEngine, steps: Seq<ApplicationStep>)
    ensures
        apply_all(e, steps).last_applied_seq_id == last_applied_id(e.last_applied_seq_id, steps),
        apply_all(e, steps).constraints_processed == (e.constraints_processed + count_applied(
            steps,
        )) % 0x1_0000_0000_0000_0000,
        apply_all(e, steps).constraints_rejected == (e.constraints_rejected + count_breaches(
            steps,
        )) % 0x1_0000_0000_0000_0000,
    decreases steps.len(),
{
    if steps.len() > 0 {
        law_application_history(e, steps.drop_last());
        let prev = apply_all(e, steps.drop_last());
        let m = 0x1_0000_0000_0000_0000int;
        let a = e.constraints_processed + count_applied(steps.drop_last());
        let b = e.constraints_rejected + count_breaches(steps.drop_last());
        vstd::arithmetic::div_mod::lemma_add_mod_noop(a, 1, m);
        vstd::arithmetic::div_mod::lemma_add_mod_noop(b, 1, m);
        vstd::arithmetic::div_mod::lemma_mod_self_0(m);
        vstd::arithmetic::div_mod::lemma_small_mod(1, m as nat);
        assert(counter_incremented(prev.constraints_processed) == (prev.constraints_processed + 1)
            % m);
        assert(counter_incremented(prev.constraints_rejected) == (prev.constraints_rejected + 1)
            % m);
    } else {
        vstd::arithmetic::div_mod::lemma_small_mod(e.constraints_processed as nat, 0x1_0000_0000_0000_0000nat);
        vstd::arithmetic::div_mod::lemma_small_mod(e.constraints_rejected as nat, 0x1_0000_0000_0000_0000nat);
    }
}

/// Breach kinds are recorded under nonzero codes, distinct for distinct kinds, so that
/// the recorded last breach tells which kind it was (0 meaning none).
pub proof fn law_breach_codes_distinct(k1: RiskBreachType, k2: RiskBreachType)
    ensures
        1 <= breach_code(k1) <= 6,
        k1 != k2 ==> breach_code(k1) != breach_code(k2),
{
}

impl ConstraintEngine {
    /// A fresh engine: zero portfolio state, zero counters.
    pub fn new() -> (engine: Self)
        ensures
            is_zero_portfolio(engine.portfolio_state),
            engine.last_applied_seq_id == 0,
            engine.constraints_processed == 0,
            engine.constraints_rejected == 0,
            engine.last_breach_type == 0,
            engine.reserved_metrics@ == Seq::new(10, |i: int| 0u64),
    {
        let engine = ConstraintEngine {
            portfolio_state: PortfolioState {
                unrealized_pnl: 0,
                current_notional_exposure: 0,
                current_leverage: 0,
                current_delta: 0,
                current_vega: 0,
                peak_daily_pnl: 0,
                trough_daily_pnl: 0,
                max_position_concentration_current: 0,
                last_constraint_update_ns: 0,
                reserved: [0; 6],
            },
            last_applied_seq_id: 0,
            constraints_processed: 0,
            constraints_rejected: 0,
            last_breach_type: 0,
            reserved_metrics: [0; 10],
        };
        assert(engine.portfolio_state.reserved@ =~= Seq::new(6, |i: int| 0u64));
        assert(engine.reserved_metrics@ =~= Seq::new(10, |i: int| 0u64));
        engine
    }

    /// Apply a constraint whose checks came out as `assessment` against `observation`,
    /// stamping the new snapshot with `now_ns`.
    ///
    /// The first failed check decides: an invalid payload or a non-finite P&L is refused
    /// with the engine unchanged; a breach is refused, counted and recorded, with the
    /// portfolio untouched; when every check passes the snapshot is installed, the
    /// sequence ID recorded and the application counted.
    pub fn apply_constraint_at(
        &mut self,
        constraint: &RiskConstraintPayload,
        observation: &MarketObservation,
        assessment: &RiskAssessment,
        now_ns: u64,
    ) -> (result: ConstraintResult<()>)
        ensures
            (*final(self), result) == apply_outcome(
                *old(self),
                constraint.constraint_seq_id,
                *observation,
                *assessment,
                now_ns,
            ),
    {
        if assessment.payload_invalid {
            return Err(ConstraintError::PayloadValidationFailed);
        }
        if assessment.var_exceeded {
            return self.reject(RiskBreachType::VaRExceeded);
        }
        if assessment.concentration_exceeded {
            return self.reject(RiskBreachType::ConcentrationExceeded);
        }
        if assessment.intraday_loss_exceeded {
            return self.reject(RiskBreachType::IntraDayLossExceeded);
        }
        if assessment.leverage_exceeded {
            return self.reject(RiskBreachType::LeverageExceeded);
        }
        if assessment.delta_hedge_missed {
            return self.reject(RiskBreachType::DeltaHedgeMissed);
        }
        if assessment.vega_hedge_missed {
            return self.reject(RiskBreachType::VegaHedgeMissed);
        }
        if assessment.pnl_not_finite {
            return Err(ConstraintError::NumericOverflow);
        }
        self.portfolio_state = PortfolioState {
            unrealized_pnl: observation.pnl,
            current_notional_exposure: observation.notional,
            current_leverage: observation.leverage,
            current_delta: observation.delta,
            current_vega: observation.vega,
            peak_daily_pnl: observation.next_peak_daily_pnl,
            trough_daily_pnl: observation.next_trough_daily_pnl,
            max_position_concentration_current: observation.max_concentration,
            last_constraint_update_ns: now_ns,
            reserved: self.portfolio_state.reserved,
        };
        self.last_applied_seq_id = constraint.constraint_seq_id;
        self.constraints_processed = self.constraints_processed.wrapping_add(1);
        Ok(())
    }

    /// Apply a constraint whose checks came out as `assessment` against `observation`,
    /// stamping the new snapshot with the current time.
    ///
    /// As `apply_constraint_at`, for whatever time the clock reads.
    pub fn apply_constraint(
        &mut self,
        constraint: &RiskConstraintPayload,
        observation: &MarketObservation,
        assessment: &RiskAssessment,
    ) -> (result: ConstraintResult<()>)
        ensures
            exists|now_ns: u64|
                (*final(self), result) == #[trigger] apply_outcome(
                    *old(self),
                    constraint.constraint_seq_id,
                    *observation,
                    *assessment,
                    now_ns,
                ),
    {
        let now_ns = current_time_ns();
        self.apply_constraint_at(constraint, observation, assessment, now_ns)
    }

    /// Record a breach of kind `kind` and refuse with it.
    fn reject(&mut self, kind: RiskBreachType) -> (result: ConstraintResult<()>)
        ensures
            *final(self) == (ConstraintEngine {
                constraints_rejected: counter_incremented(old(self).constraints_rejected),
                last_breach_type: breach_code(kind),
                ..*old(self)
            }),
            result == Err::<(), ConstraintError>(ConstraintError::RiskBreachDetected(kind)),
    {
        self.last_breach_type = kind.code();
        self.constraints_rejected = self.constraints_rejected.wrapping_add(1);
        Err(ConstraintError::RiskBreachDetected(kind))
    }

    /// Read-only audit of the portfolio state against a constraint whose checks came out
    /// as `assessment`, reporting every detected breach: `PayloadValidationFailed` for an
    /// invalid VaR limit; otherwise `Ok(())` when no breach is detected,
    /// `RiskBreachDetected` of the breach when exactly one is, and `RiskBreachesDetected`
    /// of all of them when several are.
    pub fn audit_portfolio_state(&self, assessment: &AuditAssessment) -> (result:
        ConstraintResult<()>)
        ensures
            result == audit_outcome(*assessment),
    {
        let breaches = match self.list_portfolio_breaches(assessment) {
            Ok(breaches) => breaches,
            Err(e) => return Err(e),
        };
        if breaches.len() == 0 {
            return Ok(());
        }
        if breaches.len() == 1 {
            return Err(ConstraintError::RiskBreachDetected(breaches[0]));
        }
        Err(
            ConstraintError::RiskBreachesDetected(
                DetectedBreaches {
                    var_exceeded: assessment.var_exceeded,
                    concentration_exceeded: assessment.concentration_exceeded,
                    leverage_exceeded: assessment.leverage_exceeded,
                },
            ),
        )
    }

    /// Read-only audit listing every breach detected in the portfolio state against a
    /// constraint whose checks came out as `assessment`, in the order VaR, concentration,
    /// leverage; `PayloadValidationFailed` when the constraint's VaR limit is invalid.
    pub fn list_portfolio_breaches(&self, assessment: &AuditAssessment) -> (result:
        ConstraintResult<Vec<RiskBreachType>>)
        ensures
            assessment.var_limit_invalid ==> result matches Err(
                ConstraintError::PayloadValidationFailed,
            ),
            !assessment.var_limit_invalid ==> (result matches Ok(breaches) && breaches@
                == audit_breaches(*assessment)),
    {
        if assessment.var_limit_invalid {
            return Err(ConstraintError::PayloadValidationFailed);
        }
        let mut breaches: Vec<RiskBreachType> = Vec::new();
        if assessment.var_exceeded {
            breaches.push(RiskBreachType::VaRExceeded);
        }
        if assessment.concentration_exceeded {
            breaches.push(RiskBreachType::ConcentrationExceeded);
        }
        if assessment.leverage_exceeded {
            breaches.push(RiskBreachType::LeverageExceeded);
        }
        assert(breaches@ =~= audit_breaches(*assessment));
        Ok(breaches)
    }

    /// Last applied constraint sequence ID.
    pub fn get_last_applied_seq_id(&self) -> (id: ConstraintSeqId)
        ensures
            id.0 == self.last_applied_seq_id,
    {
        ConstraintSeqId(self.last_applied_seq_id)
    }

    /// Total constraints applied.
    pub fn get_constraints_processed(&self) -> (n: u64)
        ensures
            n == self.constraints_processed,
    {
        self.constraints_processed
    }

    /// Total constraints rejected for a risk breach.
    pub fn get_constraints_rejected(&self) -> (n: u64)
        ensures
            n == self.constraints_rejected,
    {
        self.constraints_rejected
    }

    /// Current portfolio risk metric: the magnitude of the notional exposure, that is its
    /// binary64 bits with the sign bit cleared.
    pub fn get_current_var(&self) -> (metric: PortfolioRiskMetric)
        ensures
            metric.0 == self.portfolio_state.current_notional_exposure & MAGNITUDE_MASK,
    {
        PortfolioRiskMetric(self.portfolio_state.current_notional_exposure & MAGNITUDE_MASK)
    }
}

/// Every field of `p` is zero.
pub open spec fn is_zero_portfolio(p: PortfolioState) -> bool {
    &&& p.unrealized_pnl == 0
    &&& p.current_notional_exposure == 0
    &&& p.current_leverage == 0
    &&& p.current_delta == 0
    &&& p.current_vega == 0
    &&& p.peak_daily_pnl == 0
    &&& p.trough_daily_pnl == 0
    &&& p.max_position_concentration_current == 0
    &&& p.last_constraint_update_ns == 0
    &&& p.reserved@ == Seq::new(6, |i: int| 0u64)
}

/// Declares `std::time::SystemTime` to Verus.
#[verifier::external_type_specification]
#[verifier::external_body]
pub struct ExSystemTime(std::time::SystemTime);

/// Declares `std::time::SystemTimeError` to Verus.
#[verifier::external_type_specification]
#[verifier::external_body]
pub struct ExSystemTimeError(std::time::SystemTimeError);

/// Calls `std::time::SystemTime::now`. The clock decides what comes back, so nothing is
/// stated of it.
#[verifier::external_body]
fn system_time_now() -> std::time::SystemTime {
    std::time::SystemTime::now()
}

/// Calls `SystemTime::duration_since` with `UNIX_EPOCH` as the earlier time: the time
/// elapsed since the epoch, or an error when `t` lies before it. Which of the two comes
/// back depends on the clock reading in `t`, so nothing is stated of it.
#[verifier::external_body]
fn duration_since_unix_epoch(t: &std::time::SystemTime) -> std::result::Result<
    std::time::Duration,
    std::time::SystemTimeError,
> {
    t.duration_since(std::time::UNIX_EPOCH)
}

/// Calls `Duration::as_nanos`: the whole number of nanoseconds in `d`. No clause states
/// it, as `Duration` is opaque here.
#[verifier::external_body]
fn duration_as_nanos(d: &std::time::Duration) -> u128 {
    d.as_nanos()
}

/// The timestamp taken from a clock reading: the nanoseconds elapsed since the Unix
/// epoch truncated to 64 bits, or 0 when the clock reads before the epoch (`None`).
pub open spec fn timestamp_of(elapsed_nanos: Option<u128>) -> u64 {
    match elapsed_nanos {
        Some(nanos) => nanos as u64,
        None => 0,
    }
}

/// The timestamp taken from a clock reading, as `timestamp_of` states it.
pub fn timestamp_from_elapsed_nanos(elapsed_nanos: Option<u128>) -> (now_ns: u64)
    ensures
        now_ns == timestamp_of(elapsed_nanos),
{
    match elapsed_nanos {
        Some(nanos) => {
            #[verifier::truncate]
            (nanos as u64)
        },
        None => 0,
    }
}

/// Current system time in nanoseconds since the Unix epoch, truncated to 64 bits; 0 when
/// the clock reads before the epoch. The result is `timestamp_of` the reading that the
/// clock gave; the reading itself is the clock's, and nothing states which it is.
pub fn current_time_ns() -> (now_ns: u64)
    ensures
        exists|elapsed_nanos: Option<u128>| now_ns == timestamp_of(elapsed_nanos),
{
    let now = system_time_now();
    let elapsed_nanos = match duration_since_unix_epoch(&now) {
        Ok(elapsed) => Some(duration_as_nanos(&elapsed)),
        Err(_) => None,
    };
    timestamp_from_elapsed_nanos(elapsed_nanos)
}

} // verus!
