//! Verified core of a WGPU Gaussian-splatting renderer: evidence bookkeeping
//! for measurement tickets, GPU sort/scan resource planning, packed-atlas
//! layout arithmetic and fixed-slot page residency.

pub mod api;
pub mod evidence;
pub mod gpu;
pub mod gpu_error;
pub mod gpu_telemetry;
pub mod offscreen;
pub mod order_ring;
pub mod packed_atlas;
pub mod packed_gpu;
pub mod plans;
pub mod page_atlas;
pub mod page_scheduler;
pub mod page_source;
pub mod paged_active_set;
pub mod paged_gpu;
pub mod renderer;
pub mod residency;
pub mod ring_trace;
pub mod spatial_pages;

pub use evidence::compatibility::{
    SurfaceCompatibilityChannel, SurfaceCompatibilityCountFamily, SurfaceCompatibilityCounts,
    SurfaceCompatibilityCountsTake, SurfaceCompatibilityCountsUnavailable,
    SurfaceCompatibilityCountsUnavailableReason, SurfaceCompatibilityOrderFailure,
    SurfaceCompatibilityOrderIssueContext, SurfaceCompatibilityOrderSubmission,
    SurfaceCompatibilityProducerFailure, SurfaceCompatibilityProducerIssueContext,
    SurfaceCompatibilityProducerSubmission, SurfaceCompatibilityProjectedFailure,
    SurfaceCompatibilityProjectedIssueContext, SurfaceCompatibilityProjectedSubmission,
    SurfaceCompatibilitySubmission, SurfaceCompatibilityTerminalSelector,
    SurfaceCompatibilityTerminalUnavailable,
};
pub use evidence::receipts::{
    SurfaceGpuProducerDrawScope, SurfaceGpuProducerMeasurementFailure,
    SurfaceGpuProducerMeasurementFailureReason, SurfaceOrderMeasurementFailure,
    SurfaceOrderMeasurementFailureReason, SurfaceProjectedDrawMeasurementFailure,
    SurfaceProjectedDrawMeasurementFailureReason, SurfaceTimingSource,
};
pub use evidence::store::{SurfaceCompatibilityTerminal, SurfaceCompatibilityTerminalPoll};
pub use evidence::submission::{
    SurfaceGpuProducerMeasurementSubmission, SurfaceGpuProducerMeasurementUnsampledReason,
    SurfaceOrderMeasurementSubmission, SurfaceOrderMeasurementUnsampledReason,
    SurfaceProjectedDrawMeasurementSubmission, SurfaceProjectedDrawMeasurementUnsampledReason,
};
pub use gpu_error::ResidentGpuError;
pub use api::{
    SurfaceAdaptiveState, SurfaceGpuOrderProducer, SurfaceOrderBackend, SurfaceOrderBackendUsed,
    SurfaceProjectedDrawAdaptiveState, SurfaceProjectedDrawExecution, SurfaceProjectedDrawPolicy,
};
