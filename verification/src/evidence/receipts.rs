//! Terminal receipts of order, projected-draw and GPU-producer measurements
//! whose identity fields are integers. Success receipts also carry timing
//! values; they live with the caller and enter this library as payloads.

use vstd::prelude::*;

use crate::api::{SurfaceGpuOrderProducer, SurfaceOrderBackendUsed, SurfaceProjectedDrawExecution};

verus! {

/// How an order measurement obtained its GPU timing.
#[derive(Debug, Clone, Copy, PartialEq, Eq, Structural)]
pub enum SurfaceTimingSource {
    TimestampQuery,
    CompletionOnly,
}

#[derive(Debug, Clone, Copy, PartialEq, Eq, Structural)]
pub enum SurfaceOrderMeasurementFailureReason {
    ReadbackMap,
    GenerationInvalidated,
}

/// Terminal failure receipt for an order measurement ticket that was
/// returned to the caller. Every issued ticket eventually produces exactly one
/// success or failure receipt; an unsampled request never issues a ticket.
#[derive(Debug, Clone, Copy, PartialEq, Eq, Structural)]
pub struct SurfaceOrderMeasurementFailure {
    pub ticket: u64,
    pub camera_revision: u64,
    pub reason: SurfaceOrderMeasurementFailureReason,
}

#[derive(Debug, Clone, Copy, PartialEq, Eq, Structural)]
pub enum SurfaceProjectedDrawMeasurementFailureReason {
    ReadbackMap,
    GenerationInvalidated,
    /// V/C/D or completion timing violated the execution contract, so the
    /// sample is terminal but must never enter an adaptive policy.
    InvariantViolation,
}

/// Terminal failure for a projected draw ticket.
#[derive(Debug, Clone, Copy, PartialEq, Eq, Structural)]
pub struct SurfaceProjectedDrawMeasurementFailure {
    pub ticket: u64,
    pub camera_revision: u64,
    pub execution: SurfaceProjectedDrawExecution,
    pub order_backend: SurfaceOrderBackendUsed,
    pub projection_generation: u64,
    pub probe_generation: u64,
    pub reason: SurfaceProjectedDrawMeasurementFailureReason,
}

/// Meaning of the issued draw count for one producer frame.
#[derive(Debug, Clone, Copy, PartialEq, Eq, Structural, Hash)]
pub enum SurfaceGpuProducerDrawScope {
    /// The order was refreshed for this camera and `D == C`.
    ExactCurrentContributors,
    /// Projection/count are current, but the draw consumes the previous
    /// refresh's stable order prefix.
    StaleOrderCandidates,
}

#[derive(Debug, Clone, Copy, PartialEq, Eq, Structural)]
pub enum SurfaceGpuProducerMeasurementFailureReason {
    ReadbackMap,
    GenerationInvalidated,
    InvariantViolation,
}

/// Terminal failure for an already exposed producer ticket.
#[derive(Debug, Clone, Copy, PartialEq, Eq, Structural)]
pub struct SurfaceGpuProducerMeasurementFailure {
    pub ticket: u64,
    pub camera_revision: u64,
    pub producer: SurfaceGpuOrderProducer,
    pub order_generation: u64,
    pub projection_generation: u64,
    pub reason: SurfaceGpuProducerMeasurementFailureReason,
}

} // verus!
