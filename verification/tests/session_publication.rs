use gsplat_render_wgpu::evidence::compatibility::order_counts;
use gsplat_render_wgpu::evidence::presentation::{
    FrameStats, LegacySurfaceStatsAvailability, PresentedFramePrecisionReceipts, PresentedReceipt,
    SurfaceCurrentStatsPoll, SurfaceCurrentStatsSubmission, SurfaceCurrentStatsTerminal,
};
use gsplat_render_wgpu::evidence::publication::{
    PresentedCurrentStats, PresentedFramePublication, SessionPublication,
};
use gsplat_render_wgpu::evidence::session::SurfaceTelemetryBatch;
use gsplat_render_wgpu::plans::{FrameIdentity, PlanId};
use gsplat_render_wgpu::{
    SurfaceAdaptiveState, SurfaceCompatibilityCountFamily, SurfaceCompatibilityCounts,
    SurfaceCompatibilityCountsTake, SurfaceCompatibilityCountsUnavailableReason,
    SurfaceCompatibilityOrderSubmission, SurfaceCompatibilityProducerSubmission,
    SurfaceCompatibilityProjectedSubmission, SurfaceCompatibilityTerminal,
    SurfaceCompatibilityTerminalPoll, SurfaceCompatibilityTerminalSelector,
    SurfaceGpuOrderProducer, SurfaceGpuProducerMeasurementFailure,
    SurfaceGpuProducerMeasurementFailureReason, SurfaceGpuProducerMeasurementSubmission,
    SurfaceOrderBackend, SurfaceOrderBackendUsed, SurfaceOrderMeasurementFailure,
    SurfaceOrderMeasurementFailureReason, SurfaceOrderMeasurementSubmission,
    SurfaceProjectedDrawAdaptiveState, SurfaceProjectedDrawExecution,
    SurfaceProjectedDrawMeasurementFailure, SurfaceProjectedDrawMeasurementFailureReason,
    SurfaceProjectedDrawMeasurementSubmission, SurfaceProjectedDrawPolicy,
};

/// Timed payload of a success receipt; only its ticket matters here.
#[derive(Debug, Clone, Copy, PartialEq)]
struct Timed {
    ticket: u64,
    frame_complete_ms: f32,
}

/// Timings of a presented frame, carried through unread.
#[derive(Debug, Clone, Copy, PartialEq)]
struct Timings {
    frame_ms: f32,
    preprocess_ms: f32,
    sort_ms: f32,
    raster_ms: f32,
}

type Batch = SurfaceTelemetryBatch<Timed, Timed, Timed, Timed>;
type Publication = SessionPublication<Timings, u8, u8, u8, Timed, Timed, Timed, Timed>;

fn zero_stats() -> FrameStats<Timings> {
    FrameStats {
        timings: Timings {
            frame_ms: 0.0,
            preprocess_ms: 0.0,
            sort_ms: 0.0,
            raster_ms: 0.0,
        },
        visible_count: 0,
        drawn_count: 0,
    }
}

fn frame_stats() -> FrameStats<Timings> {
    FrameStats {
        timings: Timings {
            frame_ms: 1.0,
            preprocess_ms: 2.0,
            sort_ms: 3.0,
            raster_ms: 4.0,
        },
        visible_count: 11,
        drawn_count: 9,
    }
}

fn presented(
    publication: &mut Publication,
    stats: FrameStats<Timings>,
    current_stats: PresentedCurrentStats,
    precision: PresentedFramePrecisionReceipts<u8, u8, u8>,
    ticket: u64,
) {
    let telemetry = publication.prepare_presented_telemetry();
    let (order, projected, producer) = submissions(ticket);
    publication.publish_presented_frame(PresentedFramePublication::new(
        stats,
        current_stats,
        precision,
        order,
        projected,
        producer,
        telemetry,
    ));
}

fn receipt(profile: u8, sequence: u64) -> PresentedReceipt<u8> {
    PresentedReceipt::new(
        profile,
        FrameIdentity::new(2, 7, 3, 4, 5),
        PlanId::GpuPostSort,
        11,
        sequence,
    )
}

fn submissions(
    ticket: u64,
) -> (
    SurfaceCompatibilityOrderSubmission,
    SurfaceCompatibilityProjectedSubmission,
    SurfaceCompatibilityProducerSubmission,
) {
    (
        SurfaceCompatibilityOrderSubmission {
            camera_revision: 7,
            requested_backend: SurfaceOrderBackend::Adaptive,
            actual_backend: SurfaceOrderBackendUsed::Cpu,
            adaptive_state: SurfaceAdaptiveState::CpuStable,
            measurement: SurfaceOrderMeasurementSubmission::Issued {
                backend: SurfaceOrderBackendUsed::Cpu,
                ticket,
            },
        },
        SurfaceCompatibilityProjectedSubmission {
            camera_revision: 7,
            requested_policy: SurfaceProjectedDrawPolicy::Adaptive,
            actual_execution: SurfaceProjectedDrawExecution::Compact,
            order_backend: SurfaceOrderBackendUsed::Cpu,
            adaptive_state: SurfaceProjectedDrawAdaptiveState::CompactStable,
            measurement: SurfaceProjectedDrawMeasurementSubmission::Issued {
                execution: SurfaceProjectedDrawExecution::Compact,
                ticket,
            },
        },
        SurfaceCompatibilityProducerSubmission {
            camera_revision: 7,
            requested_producer: SurfaceGpuOrderProducer::Preproject,
            actual_producer: Some(SurfaceGpuOrderProducer::Preproject),
            order_backend: SurfaceOrderBackendUsed::Cpu,
            projected_execution: SurfaceProjectedDrawExecution::Compact,
            measurement_enabled: true,
            measurement: SurfaceGpuProducerMeasurementSubmission::Issued {
                producer: SurfaceGpuOrderProducer::Preproject,
                ticket,
            },
        },
    )
}

fn success_batch(ticket: u64) -> Batch {
    let mut batch = Batch::new();
    batch.record_cpu_order(
        order_counts(ticket, 7, 11, 9, 9, true),
        Timed {
            ticket,
            frame_complete_ms: 3.0,
        },
    );
    batch.record_projected_success(
        SurfaceCompatibilityCounts {
            family: SurfaceCompatibilityCountFamily::Projected,
            ticket,
            camera_revision: 7,
            visible_count: 11,
            contributor_count: 9,
            drawn_count: 9,
            exact_contributor_compaction: true,
        },
        Timed {
            ticket,
            frame_complete_ms: 5.0,
        },
    );
    batch.record_producer_success(
        ticket,
        Timed {
            ticket,
            frame_complete_ms: 5.0,
        },
    );
    batch
}

fn ticket_of(terminal: SurfaceCompatibilityTerminal<Timed, Timed, Timed, Timed>) -> u64 {
    match terminal {
        SurfaceCompatibilityTerminal::OrderCpuSuccess(success) => success.payload.ticket,
        SurfaceCompatibilityTerminal::ProjectedSuccess(success) => success.payload.ticket,
        SurfaceCompatibilityTerminal::ProducerSuccess(success) => success.payload.ticket,
        _ => panic!("selector returned the wrong terminal family"),
    }
}

#[test]
fn transition_terminalizes_all_success_lanes_and_counts_are_take_once() {
    let issued = 17;
    let mut publication = Publication::new(false, zero_stats());
    let (order, projected, producer) = submissions(issued);
    publication.observe_submissions(order, projected, producer);
    publication.retain_consumed_telemetry(success_batch(issued));

    publication.terminalize_deferred_telemetry();

    for selector in [
        SurfaceCompatibilityTerminalSelector::OrderCpuSuccess,
        SurfaceCompatibilityTerminalSelector::ProjectedSuccess,
        SurfaceCompatibilityTerminalSelector::ProducerSuccess,
    ] {
        assert!(matches!(
            publication.poll_terminal(selector),
            SurfaceCompatibilityTerminalPoll::Ready(_)
        ));
    }
    for family in [
        SurfaceCompatibilityCountFamily::Order,
        SurfaceCompatibilityCountFamily::Projected,
    ] {
        assert!(matches!(
            publication.take_counts(family, issued),
            SurfaceCompatibilityCountsTake::Ready(counts) if counts.ticket == issued
        ));
        assert!(matches!(
            publication.take_counts(family, issued),
            SurfaceCompatibilityCountsTake::Unavailable(unavailable)
                if unavailable.reason == SurfaceCompatibilityCountsUnavailableReason::Consumed
        ));
    }
}

#[test]
fn transition_terminalizes_all_failure_lanes_and_fails_count_ledgers() {
    let issued = 23;
    let mut publication = Publication::new(false, zero_stats());
    let (order, projected, producer) = submissions(issued);
    publication.observe_submissions(order, projected, producer);
    let mut batch = Batch::new();
    batch.record_order_failure(SurfaceOrderMeasurementFailure {
        ticket: issued,
        camera_revision: 7,
        reason: SurfaceOrderMeasurementFailureReason::GenerationInvalidated,
    });
    batch.record_projected_failure(SurfaceProjectedDrawMeasurementFailure {
        ticket: issued,
        camera_revision: 7,
        execution: SurfaceProjectedDrawExecution::Compact,
        order_backend: SurfaceOrderBackendUsed::Cpu,
        projection_generation: 3,
        probe_generation: 4,
        reason: SurfaceProjectedDrawMeasurementFailureReason::GenerationInvalidated,
    });
    batch.record_producer_failure(SurfaceGpuProducerMeasurementFailure {
        ticket: issued,
        camera_revision: 7,
        producer: SurfaceGpuOrderProducer::Preproject,
        order_generation: 2,
        projection_generation: 3,
        reason: SurfaceGpuProducerMeasurementFailureReason::GenerationInvalidated,
    });
    publication.retain_consumed_telemetry(batch);

    publication.terminalize_deferred_telemetry();

    for selector in [
        SurfaceCompatibilityTerminalSelector::OrderFailure,
        SurfaceCompatibilityTerminalSelector::ProjectedFailure,
        SurfaceCompatibilityTerminalSelector::ProducerFailure,
    ] {
        assert!(matches!(
            publication.poll_terminal(selector),
            SurfaceCompatibilityTerminalPoll::Ready(_)
        ));
    }
    for family in [
        SurfaceCompatibilityCountFamily::Order,
        SurfaceCompatibilityCountFamily::Projected,
    ] {
        assert!(matches!(
            publication.take_counts(family, issued),
            SurfaceCompatibilityCountsTake::Unavailable(unavailable)
                if unavailable.reason == SurfaceCompatibilityCountsUnavailableReason::Failed
        ));
    }
}

#[test]
fn complete_dto_commits_once_and_keeps_old_terminal_off_new_submission() {
    let old_ticket = 31;
    let new_ticket = 32;
    let mut publication = Publication::new(false, zero_stats());
    let (old_order, old_projected, old_producer) = submissions(old_ticket);
    publication.observe_submissions(old_order, old_projected, old_producer);
    publication.retain_consumed_telemetry(success_batch(old_ticket));
    let telemetry = publication.prepare_presented_telemetry();
    assert_eq!(telemetry.latest_producer().map(|m| m.ticket), Some(old_ticket));
    assert_eq!(telemetry.latest_gpu_order(), None);
    let (new_order, new_projected, new_producer) = submissions(new_ticket);
    let stats = frame_stats();

    publication.publish_presented_frame(PresentedFramePublication::new(
        stats,
        PresentedCurrentStats::Preserve,
        PresentedFramePrecisionReceipts::new(None, None, None),
        new_order,
        new_projected,
        new_producer,
        telemetry,
    ));

    assert_eq!(publication.presented_commit_count(), 1);
    assert_eq!(publication.last_stats(), stats);
    for selector in [
        SurfaceCompatibilityTerminalSelector::OrderCpuSuccess,
        SurfaceCompatibilityTerminalSelector::ProjectedSuccess,
        SurfaceCompatibilityTerminalSelector::ProducerSuccess,
    ] {
        let SurfaceCompatibilityTerminalPoll::Ready(terminal) = publication.poll_terminal(selector)
        else {
            panic!("old terminal must publish");
        };
        assert_eq!(ticket_of(terminal), old_ticket);
    }
    for family in [
        SurfaceCompatibilityCountFamily::Order,
        SurfaceCompatibilityCountFamily::Projected,
    ] {
        assert!(matches!(
            publication.take_counts(family, new_ticket),
            SurfaceCompatibilityCountsTake::Unavailable(unavailable)
                if unavailable.reason == SurfaceCompatibilityCountsUnavailableReason::Pending
        ));
    }
}

#[test]
fn presented_frame_without_a_receipt_keeps_the_held_receipt() {
    let mut publication = Publication::new(true, zero_stats());
    let first = receipt(3, 13);
    presented(
        &mut publication,
        zero_stats(),
        PresentedCurrentStats::Preserve,
        PresentedFramePrecisionReceipts::new(None, None, Some(first)),
        40,
    );
    assert_eq!(publication.presented_resident_sh_receipt(), Some(first));
    assert_eq!(publication.presented_depth_precision_receipt(), None);

    presented(
        &mut publication,
        frame_stats(),
        PresentedCurrentStats::Preserve,
        PresentedFramePrecisionReceipts::new(None, None, None),
        42,
    );
    assert_eq!(publication.presented_resident_sh_receipt(), Some(first));
    assert_eq!(publication.presented_commit_count(), 2);

    let next = receipt(4, 16);
    presented(
        &mut publication,
        frame_stats(),
        PresentedCurrentStats::Preserve,
        PresentedFramePrecisionReceipts::new(Some(next), None, Some(next)),
        44,
    );
    assert_eq!(publication.presented_resident_sh_receipt(), Some(next));
    assert_eq!(publication.presented_depth_precision_receipt(), Some(next));
    assert_eq!(publication.presented_projected_cache_precision_receipt(), None);
}

#[test]
fn awaited_current_stats_become_current_from_the_matching_ready_receipt() {
    let mut publication = Publication::new(true, zero_stats());
    assert_eq!(publication.legacy_stats(), None);
    let mut stats = frame_stats();
    stats.visible_count = 0;
    stats.drawn_count = 0;
    presented(
        &mut publication,
        stats,
        PresentedCurrentStats::Exact {
            submission: SurfaceCurrentStatsSubmission::Issued(5),
            counts_current: false,
        },
        PresentedFramePrecisionReceipts::new(None, None, None),
        50,
    );
    assert_eq!(
        publication.current_stats_submission(),
        SurfaceCurrentStatsSubmission::Issued(5)
    );
    assert_eq!(publication.legacy_stats(), None);

    publication.observe_current_stats_poll(SurfaceCurrentStatsPoll::Pending);
    assert_eq!(publication.legacy_stats(), None);
    publication.observe_current_stats_poll(SurfaceCurrentStatsPoll::Terminal(
        SurfaceCurrentStatsTerminal::Ready {
            submission: 4,
            visible: 1,
            drawn: 1,
        },
    ));
    assert_eq!(publication.legacy_stats(), None);
    publication.observe_current_stats_poll(SurfaceCurrentStatsPoll::Terminal(
        SurfaceCurrentStatsTerminal::Ready {
            submission: 5,
            visible: 11,
            drawn: 9,
        },
    ));
    assert_eq!(publication.legacy_stats(), Some(frame_stats()));

    publication.observe_current_stats_poll(SurfaceCurrentStatsPoll::Terminal(
        SurfaceCurrentStatsTerminal::MapFailure(5),
    ));
    assert_eq!(publication.legacy_stats(), Some(frame_stats()));
}

#[test]
fn a_failed_current_stats_receipt_makes_stats_unavailable() {
    let mut availability = LegacySurfaceStatsAvailability::AwaitingCurrentReceipt;
    let mut stats = frame_stats();
    availability.observe_poll(
        SurfaceCurrentStatsSubmission::Issued(8),
        SurfaceCurrentStatsPoll::Terminal(SurfaceCurrentStatsTerminal::Expired(8)),
        &mut stats,
    );
    assert_eq!(availability, LegacySurfaceStatsAvailability::Unavailable);
    assert_eq!(stats, frame_stats());

    let mut availability = LegacySurfaceStatsAvailability::AwaitingCurrentReceipt;
    availability.observe_poll(
        SurfaceCurrentStatsSubmission::NotRequested,
        SurfaceCurrentStatsPoll::Pending,
        &mut stats,
    );
    assert_eq!(availability, LegacySurfaceStatsAvailability::Unavailable);

    let mut availability = LegacySurfaceStatsAvailability::Current;
    availability.observe_poll(
        SurfaceCurrentStatsSubmission::Issued(8),
        SurfaceCurrentStatsPoll::Terminal(SurfaceCurrentStatsTerminal::Dropped(8)),
        &mut stats,
    );
    assert_eq!(availability, LegacySurfaceStatsAvailability::Current);
}

#[test]
fn a_non_exact_session_reports_its_stats_at_once() {
    let mut publication = Publication::new(false, zero_stats());
    assert_eq!(publication.legacy_stats(), Some(zero_stats()));
    presented(
        &mut publication,
        frame_stats(),
        PresentedCurrentStats::Exact {
            submission: SurfaceCurrentStatsSubmission::NotRequested,
            counts_current: true,
        },
        PresentedFramePrecisionReceipts::new(None, None, None),
        60,
    );
    assert_eq!(publication.legacy_stats(), Some(frame_stats()));
    presented(
        &mut publication,
        frame_stats(),
        PresentedCurrentStats::Exact {
            submission: SurfaceCurrentStatsSubmission::NotRequested,
            counts_current: false,
        },
        PresentedFramePrecisionReceipts::new(None, None, None),
        62,
    );
    assert_eq!(publication.legacy_stats(), None);
}

#[derive(Debug, Clone, Copy, PartialEq, Eq)]
enum DepthProfile {
    CandidateStable24,
    ExactFull32,
}

#[derive(Debug, Clone, Copy, PartialEq, Eq)]
enum CacheProfile {
    CandidateAxes16,
    ExactAxes32,
}

#[derive(Debug, Clone, Copy, PartialEq, Eq)]
enum ShProfile {
    ExactSigned11BandScale5,
}

type ProfiledPublication =
    SessionPublication<Timings, DepthProfile, CacheProfile, ShProfile, Timed, Timed, Timed, Timed>;

fn profiled_receipt<P: Copy>(
    profile: P,
    plan: PlanId,
    camera_revision: u64,
    order_generation: u64,
    presentation_sequence: u64,
) -> PresentedReceipt<P> {
    PresentedReceipt::new(
        profile,
        FrameIdentity::new(2, camera_revision, 3, 4, 5),
        plan,
        order_generation,
        presentation_sequence,
    )
}

fn publish_receipts(
    publication: &mut ProfiledPublication,
    precision: PresentedFramePrecisionReceipts<DepthProfile, CacheProfile, ShProfile>,
    sequence: u64,
) {
    let (order, projected, producer) = submissions(sequence);
    publication.publish_presented_frame(PresentedFramePublication::new(
        zero_stats(),
        PresentedCurrentStats::Preserve,
        precision,
        order,
        projected,
        producer,
        Batch::new(),
    ));
}

#[test]
fn depth_precision_receipt_is_present_fenced_and_identity_bound() {
    let mut publication = ProfiledPublication::new(true, zero_stats());
    assert_eq!(publication.presented_depth_precision_receipt(), None);

    let candidate =
        profiled_receipt(DepthProfile::CandidateStable24, PlanId::CpuPostSort, 7, 11, 13);
    publication.retain_consumed_telemetry(Batch::new());
    publication.terminalize_deferred_telemetry();
    assert_eq!(publication.presented_depth_precision_receipt(), None);

    publish_receipts(
        &mut publication,
        PresentedFramePrecisionReceipts::new(Some(candidate), None, None),
        candidate.presentation_sequence(),
    );
    let published = publication
        .presented_depth_precision_receipt()
        .expect("successful present publishes the depth precision receipt");
    assert_eq!(published.profile(), DepthProfile::CandidateStable24);
    assert_eq!(published.frame().camera_revision(), 7);
    assert_eq!(published.plan(), PlanId::CpuPostSort);
    assert_eq!(published.order_generation(), 11);
    assert_eq!(published.presentation_sequence(), 13);

    publication.retain_consumed_telemetry(Batch::new());
    assert_eq!(publication.presented_depth_precision_receipt(), Some(candidate));

    let next_presented =
        profiled_receipt(DepthProfile::ExactFull32, PlanId::CpuPostSort, 9, 15, 16);
    publish_receipts(
        &mut publication,
        PresentedFramePrecisionReceipts::new(Some(next_presented), None, None),
        next_presented.presentation_sequence(),
    );
    assert_eq!(
        publication.presented_depth_precision_receipt(),
        Some(next_presented)
    );
}

#[test]
fn projected_cache_precision_receipt_is_present_fenced_and_identity_bound() {
    let mut publication = ProfiledPublication::new(true, zero_stats());
    assert_eq!(publication.presented_projected_cache_precision_receipt(), None);

    let candidate =
        profiled_receipt(CacheProfile::CandidateAxes16, PlanId::GpuPreproject, 7, 11, 13);
    publication.retain_consumed_telemetry(Batch::new());
    publication.terminalize_deferred_telemetry();
    assert_eq!(publication.presented_projected_cache_precision_receipt(), None);

    publish_receipts(
        &mut publication,
        PresentedFramePrecisionReceipts::new(None, Some(candidate), None),
        candidate.presentation_sequence(),
    );
    let published = publication
        .presented_projected_cache_precision_receipt()
        .expect("successful present publishes the realized projected-cache profile");
    assert_eq!(published.profile(), CacheProfile::CandidateAxes16);
    assert_eq!(published.frame().camera_revision(), 7);
    assert_eq!(published.plan(), PlanId::GpuPreproject);
    assert_eq!(published.order_generation(), 11);
    assert_eq!(published.presentation_sequence(), 13);

    publication.retain_consumed_telemetry(Batch::new());
    assert_eq!(
        publication.presented_projected_cache_precision_receipt(),
        Some(candidate),
        "an unpresented attempt cannot overwrite the last successful receipt"
    );

    let next_presented =
        profiled_receipt(CacheProfile::ExactAxes32, PlanId::GpuPreproject, 9, 15, 16);
    publish_receipts(
        &mut publication,
        PresentedFramePrecisionReceipts::new(None, Some(next_presented), None),
        next_presented.presentation_sequence(),
    );
    assert_eq!(
        publication.presented_projected_cache_precision_receipt(),
        Some(next_presented)
    );
}

#[test]
fn resident_sh_receipt_is_present_fenced_identity_bound_and_not_overwritten() {
    let mut publication = ProfiledPublication::new(true, zero_stats());
    let candidate = profiled_receipt(
        ShProfile::ExactSigned11BandScale5,
        PlanId::GpuPostSort,
        7,
        11,
        13,
    );
    assert_eq!(publication.presented_resident_sh_receipt(), None);

    publication.retain_consumed_telemetry(Batch::new());
    publication.terminalize_deferred_telemetry();
    assert_eq!(publication.presented_resident_sh_receipt(), None);

    publish_receipts(
        &mut publication,
        PresentedFramePrecisionReceipts::new(None, None, Some(candidate)),
        candidate.presentation_sequence(),
    );
    let published = publication
        .presented_resident_sh_receipt()
        .expect("successful present publishes Resident SH identity");
    assert_eq!(published.layout(), ShProfile::ExactSigned11BandScale5);
    assert_eq!(published.frame().camera_revision(), 7);
    assert_eq!(published.plan(), PlanId::GpuPostSort);
    assert_eq!(published.order_generation(), 11);
    assert_eq!(published.presentation_sequence(), 13);

    publication.retain_consumed_telemetry(Batch::new());
    assert_eq!(publication.presented_resident_sh_receipt(), Some(candidate));

    let next_presented = profiled_receipt(
        ShProfile::ExactSigned11BandScale5,
        PlanId::GpuPostSort,
        9,
        15,
        16,
    );
    publish_receipts(
        &mut publication,
        PresentedFramePrecisionReceipts::new(None, None, Some(next_presented)),
        next_presented.presentation_sequence(),
    );
    assert_eq!(
        publication.presented_resident_sh_receipt(),
        Some(next_presented)
    );
}
