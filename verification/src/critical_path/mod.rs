//! Critical path: the shared-memory protocol, the queue and the constraint engine.
pub mod constraint_engine;
pub mod ipc_mmap;
pub mod spsc_queue;
pub mod wire;

pub use constraint_engine::{
    ConstraintEngine, ConstraintError, ConstraintResult, ConstraintSeqId, PortfolioRiskMetric,
    PortfolioState, RiskBreachType,
};
pub use ipc_mmap::{
    MmapConsumer, MmapError, MmapFileHeader, MmapHandle, MmapProducer, RiskConstraintPayload,
};
pub use spsc_queue::SpscRingBuffer;
