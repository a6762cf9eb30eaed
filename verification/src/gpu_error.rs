//! Errors of Resident GPU resource planning and ordering.

use vstd::prelude::*;

verus! {

#[derive(Debug, Clone, PartialEq, Eq)]
pub enum ResidentGpuError {
    /// The resident scene is incomplete.
    IncompleteScene,
    /// Resident upload staging has already been released.
    UploadStagingUnavailable,
    /// The resident scene exceeds u32 addressing.
    AddressSpaceExceeded,
    /// The resident SH plane count is not a supported one.
    UnsupportedShPlaneCount(u32),
    /// A resource needs more bytes than the effective binding limit.
    BindingLimitExceeded { resource: &'static str, required_bytes: u64, limit_bytes: u64 },
    /// The device exposes too few compute storage buffers.
    StorageBindingCountUnsupported(u32),
    /// A dispatch exceeds the device workgroup dimensions.
    DispatchLimitExceeded,
    /// An order upload exceeds the scene capacity.
    OrderCapacityExceeded,
    GpuOrderInitialization(String),
    GpuOrderOutOfMemory(String),
    GpuOrderValidation(String),
    GpuOrderInternal(String),
}

} // verus!
