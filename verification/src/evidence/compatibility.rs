//! Compatibility view of measurement evidence: the latest submission of each
//! channel, the issue context a ticket was published with, and take-once
//! count receipts.

use vstd::prelude::*;

use crate::api::{
    SurfaceAdaptiveState, SurfaceGpuOrderProducer, SurfaceOrderBackend, SurfaceOrderBackendUsed,
    SurfaceProjectedDrawAdaptiveState, SurfaceProjectedDrawExecution, SurfaceProjectedDrawPolicy,
};
use crate::evidence::receipts::{
    SurfaceGpuProducerMeasurementFailure, SurfaceGpuProducerMeasurementFailureReason,
    SurfaceOrderMeasurementFailure, SurfaceOrderMeasurementFailureReason,
    SurfaceProjectedDrawMeasurementFailure, SurfaceProjectedDrawMeasurementFailureReason,
};
use crate::evidence::submission::{
    SurfaceGpuProducerMeasurementSubmission, SurfaceOrderMeasurementSubmission,
    SurfaceProjectedDrawMeasurementSubmission,
};

verus! {

#[derive(Debug, Clone, Copy, PartialEq, Eq, Structural)]
pub enum SurfaceCompatibilityChannel {
    Order,
    Projected,
    Producer,
}

#[derive(Debug, Clone, Copy, PartialEq, Eq, Structural)]
pub enum SurfaceCompatibilitySubmission {
    Order(SurfaceCompatibilityOrderSubmission),
    Projected(SurfaceCompatibilityProjectedSubmission),
    Producer(SurfaceCompatibilityProducerSubmission),
}

#[derive(Debug, Clone, Copy, PartialEq, Eq, Structural)]
pub struct SurfaceCompatibilityOrderIssueContext {
    pub requested_backend: SurfaceOrderBackend,
    pub actual_backend: SurfaceOrderBackendUsed,
    pub adaptive_state: SurfaceAdaptiveState,
}

#[derive(Debug, Clone, Copy, PartialEq, Eq, Structural)]
pub struct SurfaceCompatibilityOrderSubmission {
    pub camera_revision: u64,
    pub requested_backend: SurfaceOrderBackend,
    pub actual_backend: SurfaceOrderBackendUsed,
    pub adaptive_state: SurfaceAdaptiveState,
    pub measurement: SurfaceOrderMeasurementSubmission,
}

impl SurfaceCompatibilityOrderSubmission {
    /// Issue context of `ticket`, present exactly when this submission issued
    /// that ticket. The actual backend is the one the ticket was issued on.
    pub open spec fn spec_issued_context(self, ticket: u64) -> Option<
        SurfaceCompatibilityOrderIssueContext,
    > {
        match self.measurement {
            SurfaceOrderMeasurementSubmission::Issued { backend, ticket: issued } => {
                if issued == ticket {
                    Some(
                        SurfaceCompatibilityOrderIssueContext {
                            requested_backend: self.requested_backend,
                            actual_backend: backend,
                            adaptive_state: self.adaptive_state,
                        },
                    )
                } else {
                    None
                }
            },
            _ => None,
        }
    }

    pub fn issued_context(self, ticket: u64) -> (r: Option<SurfaceCompatibilityOrderIssueContext>)
        ensures
            r == self.spec_issued_context(ticket),
    {
        match self.measurement {
            SurfaceOrderMeasurementSubmission::Issued { backend, ticket: issued } => {
                if issued == ticket {
                    Some(
                        SurfaceCompatibilityOrderIssueContext {
                            requested_backend: self.requested_backend,
                            actual_backend: backend,
                            adaptive_state: self.adaptive_state,
                        },
                    )
                } else {
                    None
                }
            },
            _ => None,
        }
    }
}

#[derive(Debug, Clone, Copy, PartialEq, Eq, Structural)]
pub struct SurfaceCompatibilityProjectedIssueContext {
    pub requested_policy: SurfaceProjectedDrawPolicy,
    pub actual_execution: SurfaceProjectedDrawExecution,
    pub order_backend: SurfaceOrderBackendUsed,
    pub adaptive_state: SurfaceProjectedDrawAdaptiveState,
}

#[derive(Debug, Clone, Copy, PartialEq, Eq, Structural)]
pub struct SurfaceCompatibilityProjectedSubmission {
    pub camera_revision: u64,
    pub requested_policy: SurfaceProjectedDrawPolicy,
    pub actual_execution: SurfaceProjectedDrawExecution,
    pub order_backend: SurfaceOrderBackendUsed,
    pub adaptive_state: SurfaceProjectedDrawAdaptiveState,
    pub measurement: SurfaceProjectedDrawMeasurementSubmission,
}

impl SurfaceCompatibilityProjectedSubmission {
    /// Issue context of `ticket`, present exactly when this submission issued
    /// that ticket; the actual execution is the one the ticket was issued on.
    pub open spec fn spec_issued_context(self, ticket: u64) -> Option<
        SurfaceCompatibilityProjectedIssueContext,
    > {
        match self.measurement {
            SurfaceProjectedDrawMeasurementSubmission::Issued { execution, ticket: issued } => {
                if issued == ticket {
                    Some(
                        SurfaceCompatibilityProjectedIssueContext {
                            requested_policy: self.requested_policy,
                            actual_execution: execution,
                            order_backend: self.order_backend,
                            adaptive_state: self.adaptive_state,
                        },
                    )
                } else {
                    None
                }
            },
            _ => None,
        }
    }

    pub fn issued_context(self, ticket: u64) -> (r: Option<
        SurfaceCompatibilityProjectedIssueContext,
    >)
        ensures
            r == self.spec_issued_context(ticket),
    {
        match self.measurement {
            SurfaceProjectedDrawMeasurementSubmission::Issued { execution, ticket: issued } => {
                if issued == ticket {
                    Some(
                        SurfaceCompatibilityProjectedIssueContext {
                            requested_policy: self.requested_policy,
                            actual_execution: execution,
                            order_backend: self.order_backend,
                            adaptive_state: self.adaptive_state,
                        },
                    )
                } else {
                    None
                }
            },
            _ => None,
        }
    }
}

#[derive(Debug, Clone, Copy, PartialEq, Eq, Structural)]
pub struct SurfaceCompatibilityProducerIssueContext {
    pub requested_producer: SurfaceGpuOrderProducer,
    pub actual_producer: Option<SurfaceGpuOrderProducer>,
    pub order_backend: SurfaceOrderBackendUsed,
    pub projected_execution: SurfaceProjectedDrawExecution,
    pub measurement_enabled: bool,
}

#[derive(Debug, Clone, Copy, PartialEq, Eq, Structural)]
pub struct SurfaceCompatibilityProducerSubmission {
    pub camera_revision: u64,
    pub requested_producer: SurfaceGpuOrderProducer,
    pub actual_producer: Option<SurfaceGpuOrderProducer>,
    pub order_backend: SurfaceOrderBackendUsed,
    pub projected_execution: SurfaceProjectedDrawExecution,
    pub measurement_enabled: bool,
    pub measurement: SurfaceGpuProducerMeasurementSubmission,
}

impl SurfaceCompatibilityProducerSubmission {
    /// Issue context of `ticket`, present exactly when this submission issued
    /// that ticket; the actual producer is the one the ticket was issued on.
    pub open spec fn spec_issued_context(self, ticket: u64) -> Option<
        SurfaceCompatibilityProducerIssueContext,
    > {
        match self.measurement {
            SurfaceGpuProducerMeasurementSubmission::Issued { producer, ticket: issued } => {
                if issued == ticket {
                    Some(
                        SurfaceCompatibilityProducerIssueContext {
                            requested_producer: self.requested_producer,
                            actual_producer: Some(producer),
                            order_backend: self.order_backend,
                            projected_execution: self.projected_execution,
                            measurement_enabled: self.measurement_enabled,
                        },
                    )
                } else {
                    None
                }
            },
            _ => None,
        }
    }

    pub fn issued_context(self, ticket: u64) -> (r: Option<
        SurfaceCompatibilityProducerIssueContext,
    >)
        ensures
            r == self.spec_issued_context(ticket),
    {
        match self.measurement {
            SurfaceGpuProducerMeasurementSubmission::Issued { producer, ticket: issued } => {
                if issued == ticket {
                    Some(
                        SurfaceCompatibilityProducerIssueContext {
                            requested_producer: self.requested_producer,
                            actual_producer: Some(producer),
                            order_backend: self.order_backend,
                            projected_execution: self.projected_execution,
                            measurement_enabled: self.measurement_enabled,
                        },
                    )
                } else {
                    None
                }
            },
            _ => None,
        }
    }
}

#[derive(Debug, Clone, Copy, PartialEq, Eq, Structural)]
pub enum SurfaceCompatibilityTerminalSelector {
    OrderCpuSuccess,
    OrderGpuSuccess,
    OrderFailure,
    ProjectedSuccess,
    ProjectedFailure,
    ProducerSuccess,
    ProducerFailure,
}

/// One terminal receipt together with the issue context of its ticket and
/// whether its queue dropped an older receipt to admit it.
#[derive(Debug, Clone, Copy, PartialEq, Eq)]
pub struct AtomicTerminal<T, C> {
    pub payload: T,
    pub issue: C,
    pub dropped_prior: bool,
}

#[derive(Debug, Clone, Copy, PartialEq, Eq, Structural)]
pub struct SurfaceCompatibilityOrderFailure {
    pub issue: SurfaceCompatibilityOrderIssueContext,
    pub ticket: u64,
    pub camera_revision: u64,
    pub reason: SurfaceOrderMeasurementFailureReason,
    pub dropped_prior: bool,
}

impl SurfaceCompatibilityOrderFailure {
    pub open spec fn spec_from_terminal(record: AtomicTerminal<SurfaceOrderMeasurementFailure, SurfaceCompatibilityOrderIssueContext>) -> Self {
        Self {
                issue: record.issue,
                ticket: record.payload.ticket,
                camera_revision: record.payload.camera_revision,
                reason: record.payload.reason,
                dropped_prior: record.dropped_prior,
            }
    }

    pub fn from_terminal(
        record: AtomicTerminal<SurfaceOrderMeasurementFailure, SurfaceCompatibilityOrderIssueContext>,
    ) -> (r: Self)
        ensures
            r == Self::spec_from_terminal(record),
    {
        Self {
            issue: record.issue,
            ticket: record.payload.ticket,
            camera_revision: record.payload.camera_revision,
            reason: record.payload.reason,
            dropped_prior: record.dropped_prior,
        }
    }
}

#[derive(Debug, Clone, Copy, PartialEq, Eq, Structural)]
pub struct SurfaceCompatibilityProjectedFailure {
    pub issue: SurfaceCompatibilityProjectedIssueContext,
    pub ticket: u64,
    pub camera_revision: u64,
    pub execution: SurfaceProjectedDrawExecution,
    pub order_backend: SurfaceOrderBackendUsed,
    pub projection_generation: u64,
    pub probe_generation: u64,
    pub reason: SurfaceProjectedDrawMeasurementFailureReason,
    pub dropped_prior: bool,
}

impl SurfaceCompatibilityProjectedFailure {
    pub open spec fn spec_from_terminal(record: AtomicTerminal<
            SurfaceProjectedDrawMeasurementFailure,
            SurfaceCompatibilityProjectedIssueContext,
        >) -> Self {
        Self {
                issue: record.issue,
                ticket: record.payload.ticket,
                camera_revision: record.payload.camera_revision,
                execution: record.payload.execution,
                order_backend: record.payload.order_backend,
                projection_generation: record.payload.projection_generation,
                probe_generation: record.payload.probe_generation,
                reason: record.payload.reason,
                dropped_prior: record.dropped_prior,
            }
    }

    pub fn from_terminal(
        record: AtomicTerminal<
            SurfaceProjectedDrawMeasurementFailure,
            SurfaceCompatibilityProjectedIssueContext,
        >,
    ) -> (r: Self)
        ensures
            r == Self::spec_from_terminal(record),
    {
        Self {
            issue: record.issue,
            ticket: record.payload.ticket,
            camera_revision: record.payload.camera_revision,
            execution: record.payload.execution,
            order_backend: record.payload.order_backend,
            projection_generation: record.payload.projection_generation,
            probe_generation: record.payload.probe_generation,
            reason: record.payload.reason,
            dropped_prior: record.dropped_prior,
        }
    }
}

#[derive(Debug, Clone, Copy, PartialEq, Eq, Structural)]
pub struct SurfaceCompatibilityProducerFailure {
    pub issue: SurfaceCompatibilityProducerIssueContext,
    pub ticket: u64,
    pub camera_revision: u64,
    pub producer: SurfaceGpuOrderProducer,
    pub order_generation: u64,
    pub projection_generation: u64,
    pub reason: SurfaceGpuProducerMeasurementFailureReason,
    pub dropped_prior: bool,
}

impl SurfaceCompatibilityProducerFailure {
    pub open spec fn spec_from_terminal(record: AtomicTerminal<
            SurfaceGpuProducerMeasurementFailure,
            SurfaceCompatibilityProducerIssueContext,
        >) -> Self {
        Self {
                issue: record.issue,
                ticket: record.payload.ticket,
                camera_revision: record.payload.camera_revision,
                producer: record.payload.producer,
                order_generation: record.payload.order_generation,
                projection_generation: record.payload.projection_generation,
                reason: record.payload.reason,
                dropped_prior: record.dropped_prior,
            }
    }

    pub fn from_terminal(
        record: AtomicTerminal<
            SurfaceGpuProducerMeasurementFailure,
            SurfaceCompatibilityProducerIssueContext,
        >,
    ) -> (r: Self)
        ensures
            r == Self::spec_from_terminal(record),
    {
        Self {
            issue: record.issue,
            ticket: record.payload.ticket,
            camera_revision: record.payload.camera_revision,
            producer: record.payload.producer,
            order_generation: record.payload.order_generation,
            projection_generation: record.payload.projection_generation,
            reason: record.payload.reason,
            dropped_prior: record.dropped_prior,
        }
    }
}

#[derive(Debug, Clone, Copy, PartialEq, Eq, Structural)]
pub enum SurfaceCompatibilityTerminalUnavailable {
    Empty,
}

#[derive(Debug, Clone, Copy, PartialEq, Eq, Structural)]
pub enum SurfaceCompatibilityCountFamily {
    Order,
    Projected,
}

/// Visible, contributor and drawn counts of one completed ticket.
#[derive(Debug, Clone, Copy, PartialEq, Eq, Structural)]
pub struct SurfaceCompatibilityCounts {
    pub family: SurfaceCompatibilityCountFamily,
    pub ticket: u64,
    pub camera_revision: u64,
    pub visible_count: u32,
    pub contributor_count: u32,
    pub drawn_count: u32,
    pub exact_contributor_compaction: bool,
}

#[derive(Debug, Clone, Copy, PartialEq, Eq, Structural)]
pub enum SurfaceCompatibilityCountsUnavailableReason {
    Pending,
    Failed,
    Expired,
    Consumed,
    InvalidTicket,
}

#[derive(Debug, Clone, Copy, PartialEq, Eq, Structural)]
pub struct SurfaceCompatibilityCountsUnavailable {
    pub family: SurfaceCompatibilityCountFamily,
    pub ticket: u64,
    pub reason: SurfaceCompatibilityCountsUnavailableReason,
}

#[derive(Debug, Clone, Copy, PartialEq, Eq, Structural)]
pub enum SurfaceCompatibilityCountsTake {
    Ready(SurfaceCompatibilityCounts),
    Unavailable(SurfaceCompatibilityCountsUnavailable),
}

/// Order-family counts of one ticket.
pub fn order_counts(
    ticket: u64,
    camera_revision: u64,
    visible_count: u32,
    contributor_count: u32,
    drawn_count: u32,
    exact_contributor_compaction: bool,
) -> (r: SurfaceCompatibilityCounts)
    ensures
        r == (SurfaceCompatibilityCounts {
            family: SurfaceCompatibilityCountFamily::Order,
            ticket,
            camera_revision,
            visible_count,
            contributor_count,
            drawn_count,
            exact_contributor_compaction,
        }),
{
    SurfaceCompatibilityCounts {
        family: SurfaceCompatibilityCountFamily::Order,
        ticket,
        camera_revision,
        visible_count,
        contributor_count,
        drawn_count,
        exact_contributor_compaction,
    }
}

} // verus!
