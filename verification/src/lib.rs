//! Risk-constraint transport and execution core: a fixed-layout shared-memory
//! protocol, a bounded single-producer single-consumer queue, and the
//! bookkeeping state machine that applies risk constraints.
pub mod critical_path;

pub use critical_path::{
    ConstraintEngine, ConstraintError, ConstraintResult, ConstraintSeqId, PortfolioRiskMetric,
    PortfolioState, RiskBreachType, RiskConstraintPayload, MmapConsumer, MmapError,
    MmapFileHeader, MmapHandle, MmapProducer, SpscRingBuffer,
};
