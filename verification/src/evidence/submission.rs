//! Exact submission identity of the optional measurements of one frame.

use vstd::prelude::*;

use crate::api::{SurfaceGpuOrderProducer, SurfaceOrderBackendUsed, SurfaceProjectedDrawExecution};

verus! {

/// Why a requested order measurement did not reserve a ticket.
#[derive(Debug, Clone, Copy, PartialEq, Eq, Structural)]
pub enum SurfaceOrderMeasurementUnsampledReason {
    /// Every non-blocking telemetry slot was still owned by earlier work.
    RingBusy,
    /// The platform Surface did not provide a drawable for this frame.
    SurfaceUnavailable,
}

/// Submission identity of the optional order measurement of a frame. Only
/// `Issued` creates a ticket that later receives one terminal receipt.
#[derive(Debug, Clone, Copy, PartialEq, Eq, Structural, Default)]
pub enum SurfaceOrderMeasurementSubmission {
    #[default]
    NotRequested,
    Issued { backend: SurfaceOrderBackendUsed, ticket: u64 },
    Unsampled { backend: SurfaceOrderBackendUsed, reason: SurfaceOrderMeasurementUnsampledReason },
}

impl SurfaceOrderMeasurementSubmission {
    /// The backend of an issued or unsampled measurement.
    pub open spec fn spec_backend(self) -> Option<SurfaceOrderBackendUsed> {
        match self {
            Self::NotRequested => None,
            Self::Issued { backend, .. } => Some(backend),
            Self::Unsampled { backend, .. } => Some(backend),
        }
    }

    /// The ticket of an issued measurement.
    pub open spec fn spec_ticket(self) -> Option<u64> {
        match self {
            Self::Issued { ticket, .. } => Some(ticket),
            _ => None,
        }
    }

    pub fn backend(self) -> (r: Option<SurfaceOrderBackendUsed>)
        ensures
            r == self.spec_backend(),
    {
        match self {
            Self::NotRequested => None,
            Self::Issued { backend, .. } => Some(backend),
            Self::Unsampled { backend, .. } => Some(backend),
        }
    }

    pub fn ticket(self) -> (r: Option<u64>)
        ensures
            r == self.spec_ticket(),
    {
        match self {
            Self::Issued { ticket, .. } => Some(ticket),
            _ => None,
        }
    }
}

/// Why a requested projected-draw measurement did not reserve a ticket.
#[derive(Debug, Clone, Copy, PartialEq, Eq, Structural)]
pub enum SurfaceProjectedDrawMeasurementUnsampledReason {
    RingBusy,
    SurfaceUnavailable,
}

/// Submission identity of the optional projected-draw measurement of a frame.
#[derive(Debug, Clone, Copy, PartialEq, Eq, Structural, Default)]
pub enum SurfaceProjectedDrawMeasurementSubmission {
    #[default]
    NotRequested,
    Issued { execution: SurfaceProjectedDrawExecution, ticket: u64 },
    Unsampled {
        execution: SurfaceProjectedDrawExecution,
        reason: SurfaceProjectedDrawMeasurementUnsampledReason,
    },
}

/// Why a requested GPU-producer measurement did not reserve a ticket.
#[derive(Debug, Clone, Copy, PartialEq, Eq, Structural)]
pub enum SurfaceGpuProducerMeasurementUnsampledReason {
    RingBusy,
    SurfaceUnavailable,
}

/// Ticket identity of the Packed GPU-producer receipt of a frame.
#[derive(Debug, Clone, Copy, PartialEq, Eq, Structural, Default)]
pub enum SurfaceGpuProducerMeasurementSubmission {
    #[default]
    NotRequested,
    Issued { producer: SurfaceGpuOrderProducer, ticket: u64 },
    Unsampled {
        producer: SurfaceGpuOrderProducer,
        reason: SurfaceGpuProducerMeasurementUnsampledReason,
    },
}

impl SurfaceGpuProducerMeasurementSubmission {
    /// The ticket of an issued measurement.
    pub open spec fn spec_ticket(self) -> Option<u64> {
        match self {
            Self::Issued { ticket, .. } => Some(ticket),
            _ => None,
        }
    }

    pub fn ticket(self) -> (r: Option<u64>)
        ensures
            r == self.spec_ticket(),
    {
        match self {
            Self::Issued { ticket, .. } => Some(ticket),
            _ => None,
        }
    }
}

impl SurfaceProjectedDrawMeasurementSubmission {
    /// The ticket of an issued measurement.
    pub open spec fn spec_ticket(self) -> Option<u64> {
        match self {
            Self::Issued { ticket, .. } => Some(ticket),
            _ => None,
        }
    }

    pub fn ticket(self) -> (r: Option<u64>)
        ensures
            r == self.spec_ticket(),
    {
        match self {
            Self::Issued { ticket, .. } => Some(ticket),
            _ => None,
        }
    }
}

} // verus!
