//! Backend, policy and producer identities shared by the Surface session and
//! its evidence records.

use vstd::prelude::*;

verus! {

/// Order backend requested by the caller.
#[derive(Debug, Clone, Copy, PartialEq, Eq, Structural)]
pub enum SurfaceOrderBackend {
    Cpu,
    Gpu,
    /// Surface-only probing between the CPU and GPU backends.
    Adaptive,
}

/// Order backend that actually produced a frame's order.
#[derive(Debug, Clone, Copy, PartialEq, Eq, Structural)]
pub enum SurfaceOrderBackendUsed {
    Cpu,
    Gpu,
}

/// State of the adaptive order-backend policy when a frame was issued.
#[derive(Debug, Clone, Copy, PartialEq, Eq, Structural)]
pub enum SurfaceAdaptiveState {
    Disabled,
    CpuStable,
    GpuProbe,
}

/// Projected-draw policy requested by the caller.
#[derive(Debug, Clone, Copy, PartialEq, Eq, Structural)]
pub enum SurfaceProjectedDrawPolicy {
    Candidate,
    Adaptive,
}

/// Projected-draw execution that a frame actually issued.
#[derive(Debug, Clone, Copy, PartialEq, Eq, Structural)]
pub enum SurfaceProjectedDrawExecution {
    Candidate,
    Compact,
}

/// State of the adaptive projected-draw policy when a frame was issued.
#[derive(Debug, Clone, Copy, PartialEq, Eq, Structural)]
pub enum SurfaceProjectedDrawAdaptiveState {
    Disabled,
    CompactProbe,
    CompactStable,
}

/// GPU order producer of a Packed frame.
#[derive(Debug, Clone, Copy, PartialEq, Eq, Structural)]
pub enum SurfaceGpuOrderProducer {
    PostSort,
    Preproject,
}

} // verus!
