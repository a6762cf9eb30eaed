use gsplat_render_wgpu::evidence::presentation::{
    CapturePrecision, CapturePrecisionState, LegacySurfaceStatsAvailability,
    PresentedCapturePrecisionReceipt, PresentedFramePrecisionReceipts, PresentedReceipt,
    SurfaceCurrentStatsSubmission,
};
use gsplat_render_wgpu::plans::{FrameIdentity, PlanId};

#[derive(Debug, Clone, Copy, PartialEq, Eq)]
enum DepthProfile {
    CandidateStable24,
    ExactFull32,
}

#[derive(Debug, Clone, Copy, PartialEq, Eq)]
enum CacheProfile {
    SurfaceBuild,
    ExactAxes32,
}

#[derive(Debug, Clone, Copy, PartialEq, Eq)]
enum ResidentShLayout {
    ExactSigned11BandScale5,
}

type Receipts = PresentedFramePrecisionReceipts<DepthProfile, CacheProfile, ResidentShLayout>;
type Capture = CapturePrecision<DepthProfile, CacheProfile, ResidentShLayout>;

fn depth_precision_receipt(
    profile: DepthProfile,
    camera_revision: u64,
    order_generation: u64,
    presentation_sequence: u64,
) -> PresentedReceipt<DepthProfile> {
    PresentedReceipt::new(
        profile,
        FrameIdentity::new(2, camera_revision, 3, 4, 5),
        PlanId::CpuPostSort,
        order_generation,
        presentation_sequence,
    )
}

fn capture_precision_receipts(depth: PresentedReceipt<DepthProfile>) -> Receipts {
    PresentedFramePrecisionReceipts::new(
        Some(depth),
        Some(PresentedReceipt::new(
            CacheProfile::SurfaceBuild,
            depth.frame(),
            depth.plan(),
            depth.order_generation(),
            depth.presentation_sequence(),
        )),
        Some(PresentedReceipt::new(
            ResidentShLayout::ExactSigned11BandScale5,
            depth.frame(),
            depth.plan(),
            depth.order_generation(),
            depth.presentation_sequence(),
        )),
    )
}

#[test]
fn capture_precision_join_is_sequence_matched_take_once_and_not_overwritten() {
    let mut capture = Capture::new(true);
    let captured = depth_precision_receipt(DepthProfile::CandidateStable24, 7, 11, 13);
    let later = depth_precision_receipt(DepthProfile::ExactFull32, 9, 15, 16);

    assert!(capture.arm());
    capture.observe_presented(Some(13), capture_precision_receipts(captured));
    capture.observe_presented(Some(16), capture_precision_receipts(later));

    let joined = capture.take().expect("complete capture precision receipt");
    assert_eq!(joined.depth_precision(), captured);
    assert_eq!(
        joined.projected_cache_precision().profile(),
        CacheProfile::SurfaceBuild
    );
    assert_eq!(
        joined.resident_sh().layout(),
        ResidentShLayout::ExactSigned11BandScale5
    );
    assert_eq!(capture.take(), None);
}

#[test]
fn capture_precision_join_fails_closed_when_any_receipt_is_missing() {
    let receipt = depth_precision_receipt(DepthProfile::CandidateStable24, 7, 11, 13);
    let complete = capture_precision_receipts(receipt);
    for (presentation_sequence, precision) in [
        (None, complete),
        (Some(13), PresentedFramePrecisionReceipts::new(None, None, None)),
        (
            Some(13),
            PresentedFramePrecisionReceipts::new(
                None,
                complete.projected_cache,
                complete.resident_sh,
            ),
        ),
        (
            Some(13),
            PresentedFramePrecisionReceipts::new(complete.depth, None, complete.resident_sh),
        ),
        (
            Some(13),
            PresentedFramePrecisionReceipts::new(complete.depth, complete.projected_cache, None),
        ),
    ] {
        let mut capture = Capture::new(true);
        assert!(capture.arm());
        capture.observe_presented(presentation_sequence, precision);
        assert_eq!(capture.take(), None);
    }
}

#[test]
fn capture_precision_join_rejects_cross_frame_plan_order_and_sequence_receipts() {
    let depth = depth_precision_receipt(DepthProfile::CandidateStable24, 7, 11, 13);
    let complete = capture_precision_receipts(depth);
    let mismatches = [
        PresentedFramePrecisionReceipts::new(
            complete.depth,
            Some(PresentedReceipt::new(
                CacheProfile::ExactAxes32,
                FrameIdentity::new(2, 8, 3, 4, 5),
                depth.plan(),
                depth.order_generation(),
                depth.presentation_sequence(),
            )),
            complete.resident_sh,
        ),
        PresentedFramePrecisionReceipts::new(
            complete.depth,
            Some(PresentedReceipt::new(
                CacheProfile::ExactAxes32,
                depth.frame(),
                PlanId::GpuPostSort,
                depth.order_generation(),
                depth.presentation_sequence(),
            )),
            complete.resident_sh,
        ),
        PresentedFramePrecisionReceipts::new(
            complete.depth,
            Some(PresentedReceipt::new(
                CacheProfile::ExactAxes32,
                depth.frame(),
                depth.plan(),
                12,
                depth.presentation_sequence(),
            )),
            complete.resident_sh,
        ),
        PresentedFramePrecisionReceipts::new(
            complete.depth,
            Some(PresentedReceipt::new(
                CacheProfile::ExactAxes32,
                depth.frame(),
                depth.plan(),
                depth.order_generation(),
                14,
            )),
            complete.resident_sh,
        ),
    ];
    for precision in mismatches {
        let mut capture = Capture::new(true);
        assert!(capture.arm());
        capture.observe_presented(Some(13), precision);
        assert_eq!(capture.take(), None);
    }
}

#[test]
fn failed_or_duplicate_capture_lifecycle_cannot_manufacture_a_join() {
    let mut capture = Capture::new(true);
    let receipt = depth_precision_receipt(DepthProfile::CandidateStable24, 7, 11, 13);

    assert!(capture.arm());
    assert!(!capture.arm());
    assert_eq!(capture.take(), None);
    capture.observe_presented(Some(13), capture_precision_receipts(receipt));
    assert_eq!(capture.take(), None);

    assert!(capture.arm());
    capture.cancel();
    capture.observe_presented(Some(13), capture_precision_receipts(receipt));
    assert_eq!(capture.take(), None);
}

#[test]
fn disabled_capture_accepts_arming_but_never_yields() {
    let mut capture = Capture::new(false);
    assert_eq!(capture.state(), CapturePrecisionState::Disabled);
    assert!(capture.arm());
    let receipt = depth_precision_receipt(DepthProfile::ExactFull32, 1, 2, 3);
    capture.observe_presented(Some(3), capture_precision_receipts(receipt));
    assert_eq!(capture.take(), None);
    assert_eq!(capture.state(), CapturePrecisionState::Disabled);
}

#[test]
fn join_requires_the_requested_presentation_sequence() {
    let receipt = depth_precision_receipt(DepthProfile::ExactFull32, 1, 2, 3);
    let receipts = capture_precision_receipts(receipt);
    assert!(PresentedCapturePrecisionReceipt::join(3, receipts).is_some());
    assert!(PresentedCapturePrecisionReceipt::join(4, receipts).is_none());
}

#[test]
fn legacy_stats_follow_synchronous_counts_or_an_issued_receipt() {
    assert_eq!(
        LegacySurfaceStatsAvailability::for_presented_frame(true, SurfaceCurrentStatsSubmission::NotRequested),
        LegacySurfaceStatsAvailability::Current
    );
    assert_eq!(
        LegacySurfaceStatsAvailability::for_presented_frame(false, SurfaceCurrentStatsSubmission::Issued(3)),
        LegacySurfaceStatsAvailability::AwaitingCurrentReceipt
    );
    assert_eq!(
        LegacySurfaceStatsAvailability::for_presented_frame(false, SurfaceCurrentStatsSubmission::NotRequested),
        LegacySurfaceStatsAvailability::Unavailable
    );
    assert_eq!(LegacySurfaceStatsAvailability::Current.get(7_u32), Some(7));
    assert_eq!(
        LegacySurfaceStatsAvailability::AwaitingCurrentReceipt.get(7_u32),
        None
    );
}

#[test]
fn presented_receipts_are_replaced_only_by_newer_receipts() {
    let first = depth_precision_receipt(DepthProfile::CandidateStable24, 7, 11, 13);
    let mut held = capture_precision_receipts(first);
    held.retain_presented(PresentedFramePrecisionReceipts::new(None, None, None));
    assert_eq!(held, capture_precision_receipts(first));

    let next = depth_precision_receipt(DepthProfile::ExactFull32, 9, 15, 16);
    held.retain_presented(PresentedFramePrecisionReceipts::new(Some(next), None, None));
    assert_eq!(held.depth, Some(next));
    assert_eq!(held.resident_sh, capture_precision_receipts(first).resident_sh);
}
