use gsplat_render_wgpu::evidence::compatibility::order_counts;
use gsplat_render_wgpu::evidence::store::CompatibilityEvidenceStore;
use gsplat_render_wgpu::{
    SurfaceAdaptiveState, SurfaceCompatibilityChannel, SurfaceCompatibilityCountFamily,
    SurfaceCompatibilityCounts, SurfaceCompatibilityCountsTake,
    SurfaceCompatibilityCountsUnavailable, SurfaceCompatibilityCountsUnavailableReason,
    SurfaceCompatibilityOrderSubmission, SurfaceCompatibilityProducerSubmission,
    SurfaceCompatibilityProjectedSubmission, SurfaceCompatibilitySubmission,
    SurfaceCompatibilityTerminal, SurfaceCompatibilityTerminalPoll,
    SurfaceCompatibilityTerminalSelector, SurfaceCompatibilityTerminalUnavailable,
    SurfaceGpuOrderProducer, SurfaceGpuProducerDrawScope, SurfaceGpuProducerMeasurementFailure,
    SurfaceGpuProducerMeasurementFailureReason, SurfaceGpuProducerMeasurementSubmission,
    SurfaceGpuProducerMeasurementUnsampledReason, SurfaceOrderBackend, SurfaceOrderBackendUsed,
    SurfaceOrderMeasurementFailure, SurfaceOrderMeasurementFailureReason,
    SurfaceOrderMeasurementSubmission, SurfaceProjectedDrawAdaptiveState,
    SurfaceProjectedDrawExecution, SurfaceProjectedDrawMeasurementFailure,
    SurfaceProjectedDrawMeasurementFailureReason, SurfaceProjectedDrawMeasurementSubmission,
    SurfaceProjectedDrawMeasurementUnsampledReason, SurfaceProjectedDrawPolicy,
    SurfaceTimingSource,
};

#[derive(Debug, Clone, Copy, PartialEq)]
struct CpuOrderMeasurement {
    ticket: u64,
    camera_revision: u64,
    preprocess_ms: f32,
    sort_ms: f32,
    frame_complete_ms: f32,
    visible_count: u32,
    contributor_count: u32,
    drawn_count: u32,
    exact_contributor_compaction: bool,
}

#[derive(Debug, Clone, Copy, PartialEq)]
struct GpuOrderMeasurement {
    ticket: u64,
    camera_revision: u64,
    timing_source: SurfaceTimingSource,
    gpu_preprocess_ms: Option<f32>,
    gpu_radix_ms: Option<f32>,
    gpu_order_ms: Option<f32>,
    gpu_complete_ms: f32,
    timestamp_period_ns: Option<f32>,
    below_timestamp_resolution: bool,
    visible_count: u32,
    contributor_count: u32,
    drawn_count: u32,
    exact_contributor_compaction: bool,
}

#[derive(Debug, Clone, Copy, PartialEq)]
struct ProjectedDrawMeasurement {
    ticket: u64,
    camera_revision: u64,
    execution: SurfaceProjectedDrawExecution,
    order_backend: SurfaceOrderBackendUsed,
    projection_generation: u64,
    probe_generation: u64,
    projection_rebuilt: bool,
    order_refreshed: bool,
    frame_complete_ms: f32,
    visible_count: u32,
    contributor_count: u32,
    drawn_count: u32,
    exact_contributor_compaction: bool,
}

#[derive(Debug, Clone, Copy, PartialEq)]
struct ProducerMeasurement {
    ticket: u64,
    camera_revision: u64,
    producer: SurfaceGpuOrderProducer,
    order_generation: u64,
    projection_generation: u64,
    source_count: u32,
    contributor_count: u32,
    drawn_count: u32,
    order_refreshed: bool,
    draw_scope: SurfaceGpuProducerDrawScope,
    frame_complete_ms: f32,
}

type Store = CompatibilityEvidenceStore<
    CpuOrderMeasurement,
    GpuOrderMeasurement,
    ProjectedDrawMeasurement,
    ProducerMeasurement,
>;

fn publish_cpu_order(store: &mut Store, m: CpuOrderMeasurement) {
    let counts = order_counts(
        m.ticket,
        m.camera_revision,
        m.visible_count,
        m.contributor_count,
        m.drawn_count,
        m.exact_contributor_compaction,
    );
    store.publish_cpu_order(counts, m);
}

fn publish_gpu_order(store: &mut Store, m: GpuOrderMeasurement) {
    let counts = order_counts(
        m.ticket,
        m.camera_revision,
        m.visible_count,
        m.contributor_count,
        m.drawn_count,
        m.exact_contributor_compaction,
    );
    store.publish_gpu_order(counts, m);
}

fn publish_projected_success(store: &mut Store, m: ProjectedDrawMeasurement) {
    let counts = SurfaceCompatibilityCounts {
        family: SurfaceCompatibilityCountFamily::Projected,
        ticket: m.ticket,
        camera_revision: m.camera_revision,
        visible_count: m.visible_count,
        contributor_count: m.contributor_count,
        drawn_count: m.drawn_count,
        exact_contributor_compaction: m.exact_contributor_compaction,
    };
    store.publish_projected_success(counts, m);
}

fn publish_producer_success(store: &mut Store, m: ProducerMeasurement) {
    store.publish_producer_success(m.ticket, m);
}

fn submissions(
    ticket: u64,
    backend: SurfaceOrderBackendUsed,
    execution: SurfaceProjectedDrawExecution,
    producer: SurfaceGpuOrderProducer,
) -> (
    SurfaceCompatibilityOrderSubmission,
    SurfaceCompatibilityProjectedSubmission,
    SurfaceCompatibilityProducerSubmission,
) {
    (
        SurfaceCompatibilityOrderSubmission {
            camera_revision: ticket + 100,
            requested_backend: SurfaceOrderBackend::Adaptive,
            actual_backend: backend,
            adaptive_state: SurfaceAdaptiveState::GpuProbe,
            measurement: SurfaceOrderMeasurementSubmission::Issued { backend, ticket },
        },
        SurfaceCompatibilityProjectedSubmission {
            camera_revision: ticket + 100,
            requested_policy: SurfaceProjectedDrawPolicy::Adaptive,
            actual_execution: execution,
            order_backend: backend,
            adaptive_state: SurfaceProjectedDrawAdaptiveState::CompactProbe,
            measurement: SurfaceProjectedDrawMeasurementSubmission::Issued { execution, ticket },
        },
        SurfaceCompatibilityProducerSubmission {
            camera_revision: ticket + 100,
            requested_producer: producer,
            actual_producer: Some(producer),
            order_backend: backend,
            projected_execution: execution,
            measurement_enabled: true,
            measurement: SurfaceGpuProducerMeasurementSubmission::Issued { producer, ticket },
        },
    )
}

fn observe_ticket(
    store: &mut Store,
    ticket: u64,
    backend: SurfaceOrderBackendUsed,
    execution: SurfaceProjectedDrawExecution,
    producer: SurfaceGpuOrderProducer,
) {
    let (order, projected, producer) = submissions(ticket, backend, execution, producer);
    store.observe_submissions(order, projected, producer);
}

fn cpu_measurement(ticket: u64) -> CpuOrderMeasurement {
    CpuOrderMeasurement {
        ticket,
        camera_revision: ticket + 100,
        preprocess_ms: 1.0,
        sort_ms: 2.0,
        frame_complete_ms: 3.0,
        visible_count: 90,
        contributor_count: 70,
        drawn_count: 70,
        exact_contributor_compaction: true,
    }
}

fn gpu_measurement(ticket: u64) -> GpuOrderMeasurement {
    GpuOrderMeasurement {
        ticket,
        camera_revision: ticket + 100,
        timing_source: SurfaceTimingSource::TimestampQuery,
        gpu_preprocess_ms: Some(1.0),
        gpu_radix_ms: Some(2.0),
        gpu_order_ms: Some(3.0),
        gpu_complete_ms: 4.0,
        timestamp_period_ns: Some(5.0),
        below_timestamp_resolution: false,
        visible_count: 91,
        contributor_count: 71,
        drawn_count: 91,
        exact_contributor_compaction: false,
    }
}

fn projected_measurement(ticket: u64) -> ProjectedDrawMeasurement {
    ProjectedDrawMeasurement {
        ticket,
        camera_revision: ticket + 100,
        execution: SurfaceProjectedDrawExecution::Compact,
        order_backend: SurfaceOrderBackendUsed::Gpu,
        projection_generation: ticket + 200,
        probe_generation: ticket + 300,
        projection_rebuilt: true,
        order_refreshed: false,
        frame_complete_ms: 6.0,
        visible_count: 92,
        contributor_count: 72,
        drawn_count: 72,
        exact_contributor_compaction: true,
    }
}

fn producer_measurement(ticket: u64) -> ProducerMeasurement {
    ProducerMeasurement {
        ticket,
        camera_revision: ticket + 100,
        producer: SurfaceGpuOrderProducer::Preproject,
        order_generation: ticket + 200,
        projection_generation: ticket + 300,
        source_count: 100,
        contributor_count: 72,
        drawn_count: 72,
        order_refreshed: true,
        draw_scope: SurfaceGpuProducerDrawScope::ExactCurrentContributors,
        frame_complete_ms: 7.0,
    }
}

fn unavailable(
    family: SurfaceCompatibilityCountFamily,
    ticket: u64,
    reason: SurfaceCompatibilityCountsUnavailableReason,
) -> SurfaceCompatibilityCountsTake {
    SurfaceCompatibilityCountsTake::Unavailable(SurfaceCompatibilityCountsUnavailable {
        family,
        ticket,
        reason,
    })
}

#[test]
fn gpu_success_terminal_keeps_ffi_counts_without_consuming_take_once_counts() {
    let mut store = Store::new();
    observe_ticket(
        &mut store,
        2,
        SurfaceOrderBackendUsed::Gpu,
        SurfaceProjectedDrawExecution::Candidate,
        SurfaceGpuOrderProducer::PostSort,
    );
    assert_eq!(
        store.take_counts(SurfaceCompatibilityCountFamily::Order, 2),
        unavailable(
            SurfaceCompatibilityCountFamily::Order,
            2,
            SurfaceCompatibilityCountsUnavailableReason::Pending
        )
    );
    publish_gpu_order(&mut store, gpu_measurement(2));
    let SurfaceCompatibilityTerminalPoll::Ready(SurfaceCompatibilityTerminal::OrderGpuSuccess(
        success,
    )) = store.poll_terminal(SurfaceCompatibilityTerminalSelector::OrderGpuSuccess)
    else {
        panic!("GPU success must be ready");
    };
    assert_eq!(success.issue.actual_backend, SurfaceOrderBackendUsed::Gpu);
    assert_eq!(success.issue.requested_backend, SurfaceOrderBackend::Adaptive);
    assert_eq!(
        (success.payload.visible_count, success.payload.drawn_count),
        (91, 91)
    );
    let SurfaceCompatibilityCountsTake::Ready(counts) =
        store.take_counts(SurfaceCompatibilityCountFamily::Order, 2)
    else {
        panic!("GPU counts must be ready");
    };
    assert_eq!(
        (counts.visible_count, counts.contributor_count, counts.drawn_count),
        (91, 71, 91)
    );
    assert_eq!(
        store.take_counts(SurfaceCompatibilityCountFamily::Order, 2),
        unavailable(
            SurfaceCompatibilityCountFamily::Order,
            2,
            SurfaceCompatibilityCountsUnavailableReason::Consumed
        )
    );
}

#[test]
fn cpu_success_terminal_keeps_contributor_after_take_once_counts_are_consumed() {
    let mut store = Store::new();
    // An odd ticket is deliberately used for CPU: backend identity comes from
    // the publication context, never from ticket parity.
    observe_ticket(
        &mut store,
        3,
        SurfaceOrderBackendUsed::Cpu,
        SurfaceProjectedDrawExecution::Compact,
        SurfaceGpuOrderProducer::PostSort,
    );
    publish_cpu_order(&mut store, cpu_measurement(3));
    let SurfaceCompatibilityCountsTake::Ready(counts) =
        store.take_counts(SurfaceCompatibilityCountFamily::Order, 3)
    else {
        panic!("CPU counts must be ready");
    };
    assert_eq!(
        (counts.visible_count, counts.contributor_count, counts.drawn_count),
        (90, 70, 70)
    );
    let SurfaceCompatibilityTerminalPoll::Ready(SurfaceCompatibilityTerminal::OrderCpuSuccess(
        success,
    )) = store.poll_terminal(SurfaceCompatibilityTerminalSelector::OrderCpuSuccess)
    else {
        panic!("CPU success must be ready");
    };
    assert_eq!(success.issue.actual_backend, SurfaceOrderBackendUsed::Cpu);
    assert_eq!(success.payload.contributor_count, 70);
    assert_eq!(
        store.take_counts(SurfaceCompatibilityCountFamily::Order, 3),
        unavailable(
            SurfaceCompatibilityCountFamily::Order,
            3,
            SurfaceCompatibilityCountsUnavailableReason::Consumed
        )
    );
}

#[test]
fn failure_is_terminal_without_usable_counts() {
    let mut store = Store::new();
    observe_ticket(
        &mut store,
        7,
        SurfaceOrderBackendUsed::Cpu,
        SurfaceProjectedDrawExecution::Candidate,
        SurfaceGpuOrderProducer::PostSort,
    );
    store.publish_order_failure(SurfaceOrderMeasurementFailure {
        ticket: 7,
        camera_revision: 107,
        reason: SurfaceOrderMeasurementFailureReason::GenerationInvalidated,
    });
    let SurfaceCompatibilityTerminalPoll::Ready(SurfaceCompatibilityTerminal::OrderFailure(
        failure,
    )) = store.poll_terminal(SurfaceCompatibilityTerminalSelector::OrderFailure)
    else {
        panic!("failure must be ready");
    };
    assert_eq!(failure.issue.actual_backend, SurfaceOrderBackendUsed::Cpu);
    assert_eq!(
        store.take_counts(SurfaceCompatibilityCountFamily::Order, 7),
        unavailable(
            SurfaceCompatibilityCountFamily::Order,
            7,
            SurfaceCompatibilityCountsUnavailableReason::Failed
        )
    );
    assert_eq!(
        store.take_counts(SurfaceCompatibilityCountFamily::Order, 999),
        unavailable(
            SurfaceCompatibilityCountFamily::Order,
            999,
            SurfaceCompatibilityCountsUnavailableReason::InvalidTicket
        )
    );
}

#[test]
fn projected_and_producer_failures_preserve_identity_without_counts() {
    let mut store = Store::new();
    observe_ticket(
        &mut store,
        13,
        SurfaceOrderBackendUsed::Gpu,
        SurfaceProjectedDrawExecution::Compact,
        SurfaceGpuOrderProducer::Preproject,
    );
    store.publish_projected_failure(SurfaceProjectedDrawMeasurementFailure {
        ticket: 13,
        camera_revision: 113,
        execution: SurfaceProjectedDrawExecution::Compact,
        order_backend: SurfaceOrderBackendUsed::Gpu,
        projection_generation: 213,
        probe_generation: 313,
        reason: SurfaceProjectedDrawMeasurementFailureReason::InvariantViolation,
    });
    let SurfaceCompatibilityTerminalPoll::Ready(SurfaceCompatibilityTerminal::ProjectedFailure(
        projected,
    )) = store.poll_terminal(SurfaceCompatibilityTerminalSelector::ProjectedFailure)
    else {
        panic!("projected failure must be ready");
    };
    assert_eq!(projected.projection_generation, 213);
    assert_eq!(projected.probe_generation, 313);
    assert_eq!(
        store.take_counts(SurfaceCompatibilityCountFamily::Projected, 13),
        unavailable(
            SurfaceCompatibilityCountFamily::Projected,
            13,
            SurfaceCompatibilityCountsUnavailableReason::Failed
        )
    );

    // The three ticket namespaces are independent, so publishing the same
    // numeric producer ticket keeps its separately recorded context.
    let base = submissions(
        13,
        SurfaceOrderBackendUsed::Gpu,
        SurfaceProjectedDrawExecution::Compact,
        SurfaceGpuOrderProducer::Preproject,
    );
    store.observe_submissions(
        SurfaceCompatibilityOrderSubmission {
            measurement: SurfaceOrderMeasurementSubmission::NotRequested,
            ..base.0
        },
        SurfaceCompatibilityProjectedSubmission {
            measurement: SurfaceProjectedDrawMeasurementSubmission::NotRequested,
            ..base.1
        },
        base.2,
    );
    store.publish_producer_failure(SurfaceGpuProducerMeasurementFailure {
        ticket: 13,
        camera_revision: 113,
        producer: SurfaceGpuOrderProducer::Preproject,
        order_generation: 413,
        projection_generation: 513,
        reason: SurfaceGpuProducerMeasurementFailureReason::ReadbackMap,
    });
    let SurfaceCompatibilityTerminalPoll::Ready(SurfaceCompatibilityTerminal::ProducerFailure(
        producer,
    )) = store.poll_terminal(SurfaceCompatibilityTerminalSelector::ProducerFailure)
    else {
        panic!("producer failure must be ready");
    };
    assert_eq!(producer.order_generation, 413);
    assert_eq!(producer.projection_generation, 513);
    assert_eq!(
        producer.issue.actual_producer,
        Some(SurfaceGpuOrderProducer::Preproject)
    );
}

#[test]
fn duplicate_terminal_callback_is_ignored_after_first_publication() {
    let mut store = Store::new();
    observe_ticket(
        &mut store,
        17,
        SurfaceOrderBackendUsed::Gpu,
        SurfaceProjectedDrawExecution::Candidate,
        SurfaceGpuOrderProducer::PostSort,
    );
    publish_gpu_order(&mut store, gpu_measurement(17));
    publish_gpu_order(&mut store, gpu_measurement(17));
    assert!(matches!(
        store.poll_terminal(SurfaceCompatibilityTerminalSelector::OrderGpuSuccess),
        SurfaceCompatibilityTerminalPoll::Ready(SurfaceCompatibilityTerminal::OrderGpuSuccess(_))
    ));
    assert!(matches!(
        store.poll_terminal(SurfaceCompatibilityTerminalSelector::OrderGpuSuccess),
        SurfaceCompatibilityTerminalPoll::Unavailable(
            SurfaceCompatibilityTerminalUnavailable::Empty
        )
    ));
}

#[test]
fn republished_ticket_invalidates_prior_counts_instead_of_returning_stale_data() {
    let mut store = Store::new();
    observe_ticket(
        &mut store,
        19,
        SurfaceOrderBackendUsed::Gpu,
        SurfaceProjectedDrawExecution::Candidate,
        SurfaceGpuOrderProducer::PostSort,
    );
    publish_gpu_order(&mut store, gpu_measurement(19));
    observe_ticket(
        &mut store,
        19,
        SurfaceOrderBackendUsed::Cpu,
        SurfaceProjectedDrawExecution::Compact,
        SurfaceGpuOrderProducer::PostSort,
    );
    assert_eq!(
        store.take_counts(SurfaceCompatibilityCountFamily::Order, 19),
        unavailable(
            SurfaceCompatibilityCountFamily::Order,
            19,
            SurfaceCompatibilityCountsUnavailableReason::Pending
        )
    );
}

#[test]
fn projected_sixty_fifth_success_marks_drop_and_expires_oldest_counts() {
    let mut store = Store::new();
    for ticket in 1..=65 {
        observe_ticket(
            &mut store,
            ticket,
            SurfaceOrderBackendUsed::Gpu,
            SurfaceProjectedDrawExecution::Compact,
            SurfaceGpuOrderProducer::Preproject,
        );
        publish_projected_success(&mut store, projected_measurement(ticket));
    }
    let SurfaceCompatibilityTerminalPoll::Ready(SurfaceCompatibilityTerminal::ProjectedSuccess(
        first,
    )) = store.poll_terminal(SurfaceCompatibilityTerminalSelector::ProjectedSuccess)
    else {
        panic!("projected success must be ready");
    };
    assert_eq!(first.payload.ticket, 2);
    let mut last = first;
    for _ in 1..64 {
        let SurfaceCompatibilityTerminalPoll::Ready(
            SurfaceCompatibilityTerminal::ProjectedSuccess(success),
        ) = store.poll_terminal(SurfaceCompatibilityTerminalSelector::ProjectedSuccess)
        else {
            panic!("all retained projected successes must be ready");
        };
        last = success;
    }
    assert_eq!(last.payload.ticket, 65);
    assert!(last.dropped_prior);
    assert_eq!(last.payload.projection_generation, 265);
    assert_eq!(last.payload.probe_generation, 365);
    assert_eq!(last.payload.execution, SurfaceProjectedDrawExecution::Compact);
    assert_eq!(
        store.take_counts(SurfaceCompatibilityCountFamily::Projected, 1),
        unavailable(
            SurfaceCompatibilityCountFamily::Projected,
            1,
            SurfaceCompatibilityCountsUnavailableReason::Expired
        )
    );
    let SurfaceCompatibilityCountsTake::Ready(counts) =
        store.take_counts(SurfaceCompatibilityCountFamily::Projected, 65)
    else {
        panic!("newest projected counts must be ready");
    };
    assert_eq!(
        (counts.visible_count, counts.contributor_count, counts.drawn_count),
        (92, 72, 72)
    );
    assert!(counts.exact_contributor_compaction);
}

#[test]
fn order_count_retention_covers_sixty_four_cpu_plus_sixty_four_gpu() {
    let mut store = Store::new();
    for ticket in 1..=64 {
        observe_ticket(
            &mut store,
            ticket,
            SurfaceOrderBackendUsed::Cpu,
            SurfaceProjectedDrawExecution::Compact,
            SurfaceGpuOrderProducer::PostSort,
        );
        publish_cpu_order(&mut store, cpu_measurement(ticket));
    }
    for ticket in 65..=128 {
        observe_ticket(
            &mut store,
            ticket,
            SurfaceOrderBackendUsed::Gpu,
            SurfaceProjectedDrawExecution::Candidate,
            SurfaceGpuOrderProducer::PostSort,
        );
        publish_gpu_order(&mut store, gpu_measurement(ticket));
    }
    assert!(matches!(
        store.take_counts(SurfaceCompatibilityCountFamily::Order, 1),
        SurfaceCompatibilityCountsTake::Ready(_)
    ));
    assert!(matches!(
        store.take_counts(SurfaceCompatibilityCountFamily::Order, 128),
        SurfaceCompatibilityCountsTake::Ready(_)
    ));
}

#[test]
fn producer_terminal_preserves_generation_scd_and_draw_scope() {
    let mut store = Store::new();
    observe_ticket(
        &mut store,
        9,
        SurfaceOrderBackendUsed::Gpu,
        SurfaceProjectedDrawExecution::Compact,
        SurfaceGpuOrderProducer::Preproject,
    );
    publish_producer_success(&mut store, producer_measurement(9));
    let SurfaceCompatibilityTerminalPoll::Ready(SurfaceCompatibilityTerminal::ProducerSuccess(
        success,
    )) = store.poll_terminal(SurfaceCompatibilityTerminalSelector::ProducerSuccess)
    else {
        panic!("producer success must be ready");
    };
    assert_eq!(success.payload.order_generation, 209);
    assert_eq!(success.payload.projection_generation, 309);
    assert_eq!(
        (
            success.payload.source_count,
            success.payload.contributor_count,
            success.payload.drawn_count
        ),
        (100, 72, 72)
    );
    assert_eq!(
        success.payload.draw_scope,
        SurfaceGpuProducerDrawScope::ExactCurrentContributors
    );
    assert!(store.drain_producer_successes().is_empty());
}

#[test]
fn producer_raw_drain_remains_fifo_and_lossless_past_compatibility_capacity() {
    let mut store = Store::new();
    for ticket in 1..=65 {
        observe_ticket(
            &mut store,
            ticket,
            SurfaceOrderBackendUsed::Gpu,
            SurfaceProjectedDrawExecution::Compact,
            SurfaceGpuOrderProducer::Preproject,
        );
        publish_producer_success(&mut store, producer_measurement(ticket));
    }
    assert_eq!(
        store
            .drain_producer_successes()
            .into_iter()
            .map(|measurement| measurement.ticket)
            .collect::<Vec<_>>(),
        (1..=65).collect::<Vec<_>>()
    );
    assert!(matches!(
        store.poll_terminal(SurfaceCompatibilityTerminalSelector::ProducerSuccess),
        SurfaceCompatibilityTerminalPoll::Unavailable(
            SurfaceCompatibilityTerminalUnavailable::Empty
        )
    ));
}

#[test]
fn producer_compatibility_window_is_bounded_without_losing_raw_overflow() {
    let mut store = Store::new();
    for ticket in 1..=65 {
        observe_ticket(
            &mut store,
            ticket,
            SurfaceOrderBackendUsed::Gpu,
            SurfaceProjectedDrawExecution::Compact,
            SurfaceGpuOrderProducer::Preproject,
        );
        publish_producer_success(&mut store, producer_measurement(ticket));
    }
    let mut successes = Vec::new();
    while let SurfaceCompatibilityTerminalPoll::Ready(
        SurfaceCompatibilityTerminal::ProducerSuccess(success),
    ) = store.poll_terminal(SurfaceCompatibilityTerminalSelector::ProducerSuccess)
    {
        successes.push(success);
    }
    assert_eq!(successes.len(), 64);
    assert_eq!(successes.first().map(|success| success.payload.ticket), Some(2));
    assert_eq!(successes.last().map(|success| success.payload.ticket), Some(65));
    assert!(successes.last().is_some_and(|success| success.dropped_prior));
    assert_eq!(
        store
            .drain_producer_successes()
            .into_iter()
            .map(|measurement| measurement.ticket)
            .collect::<Vec<_>>(),
        vec![1]
    );
}

#[test]
fn legacy_and_compatibility_success_views_never_double_deliver() {
    let mut store = Store::new();
    observe_ticket(
        &mut store,
        11,
        SurfaceOrderBackendUsed::Cpu,
        SurfaceProjectedDrawExecution::Candidate,
        SurfaceGpuOrderProducer::PostSort,
    );
    publish_cpu_order(&mut store, cpu_measurement(11));
    assert_eq!(store.drain_cpu_order().len(), 1);
    assert!(matches!(
        store.poll_terminal(SurfaceCompatibilityTerminalSelector::OrderCpuSuccess),
        SurfaceCompatibilityTerminalPoll::Unavailable(
            SurfaceCompatibilityTerminalUnavailable::Empty
        )
    ));
}

#[test]
fn latest_submissions_preserve_not_requested_and_unsampled_identity() {
    let mut store = Store::new();
    let order = SurfaceCompatibilityOrderSubmission {
        camera_revision: 4,
        requested_backend: SurfaceOrderBackend::Cpu,
        actual_backend: SurfaceOrderBackendUsed::Cpu,
        adaptive_state: SurfaceAdaptiveState::Disabled,
        measurement: SurfaceOrderMeasurementSubmission::NotRequested,
    };
    let projected = SurfaceCompatibilityProjectedSubmission {
        camera_revision: 4,
        requested_policy: SurfaceProjectedDrawPolicy::Candidate,
        actual_execution: SurfaceProjectedDrawExecution::Candidate,
        order_backend: SurfaceOrderBackendUsed::Cpu,
        adaptive_state: SurfaceProjectedDrawAdaptiveState::Disabled,
        measurement: SurfaceProjectedDrawMeasurementSubmission::Unsampled {
            execution: SurfaceProjectedDrawExecution::Candidate,
            reason: SurfaceProjectedDrawMeasurementUnsampledReason::SurfaceUnavailable,
        },
    };
    let producer = SurfaceCompatibilityProducerSubmission {
        camera_revision: 4,
        requested_producer: SurfaceGpuOrderProducer::PostSort,
        actual_producer: None,
        order_backend: SurfaceOrderBackendUsed::Cpu,
        projected_execution: SurfaceProjectedDrawExecution::Candidate,
        measurement_enabled: false,
        measurement: SurfaceGpuProducerMeasurementSubmission::Unsampled {
            producer: SurfaceGpuOrderProducer::PostSort,
            reason: SurfaceGpuProducerMeasurementUnsampledReason::RingBusy,
        },
    };
    store.observe_submissions(order, projected, producer);
    assert_eq!(
        store.submission(SurfaceCompatibilityChannel::Order),
        Some(SurfaceCompatibilitySubmission::Order(order))
    );
    assert_eq!(
        store.submission(SurfaceCompatibilityChannel::Projected),
        Some(SurfaceCompatibilitySubmission::Projected(projected))
    );
    assert_eq!(
        store.submission(SurfaceCompatibilityChannel::Producer),
        Some(SurfaceCompatibilitySubmission::Producer(producer))
    );
}

#[test]
fn issued_ticket_terminates_once_on_failure_after_success() {
    let mut store = Store::new();
    observe_ticket(
        &mut store,
        21,
        SurfaceOrderBackendUsed::Cpu,
        SurfaceProjectedDrawExecution::Candidate,
        SurfaceGpuOrderProducer::PostSort,
    );
    publish_cpu_order(&mut store, cpu_measurement(21));
    store.publish_order_failure(SurfaceOrderMeasurementFailure {
        ticket: 21,
        camera_revision: 121,
        reason: SurfaceOrderMeasurementFailureReason::ReadbackMap,
    });
    assert!(store.terminal_is_empty(SurfaceCompatibilityTerminalSelector::OrderFailure));
    assert!(!store.terminal_is_empty(SurfaceCompatibilityTerminalSelector::OrderCpuSuccess));
}

#[test]
fn unissued_ticket_publishes_no_terminal() {
    let mut store = Store::new();
    publish_gpu_order(&mut store, gpu_measurement(5));
    assert!(store.terminal_is_empty(SurfaceCompatibilityTerminalSelector::OrderGpuSuccess));
    assert_eq!(
        store.take_counts(SurfaceCompatibilityCountFamily::Order, 5),
        unavailable(
            SurfaceCompatibilityCountFamily::Order,
            5,
            SurfaceCompatibilityCountsUnavailableReason::InvalidTicket
        )
    );
}

#[test]
fn producer_drain_returns_every_undelivered_success_in_publication_order() {
    let mut store = Store::new();
    for ticket in 1..=70 {
        observe_ticket(
            &mut store,
            ticket,
            SurfaceOrderBackendUsed::Gpu,
            SurfaceProjectedDrawExecution::Compact,
            SurfaceGpuOrderProducer::Preproject,
        );
        publish_producer_success(&mut store, producer_measurement(ticket));
    }
    for expected in [7, 8] {
        let SurfaceCompatibilityTerminalPoll::Ready(SurfaceCompatibilityTerminal::ProducerSuccess(
            terminal,
        )) = store.poll_terminal(SurfaceCompatibilityTerminalSelector::ProducerSuccess)
        else {
            panic!("a visible producer success must be delivered");
        };
        assert_eq!(terminal.payload.ticket, expected);
    }
    let drained: Vec<u64> = store
        .drain_producer_successes()
        .into_iter()
        .map(|measurement| measurement.ticket)
        .collect();
    let expected: Vec<u64> = (1..=6).chain(9..=70).collect();
    assert_eq!(drained, expected);
    assert!(matches!(
        store.poll_terminal(SurfaceCompatibilityTerminalSelector::ProducerSuccess),
        SurfaceCompatibilityTerminalPoll::Unavailable(
            SurfaceCompatibilityTerminalUnavailable::Empty
        )
    ));
}
