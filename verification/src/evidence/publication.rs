//! A surface session's publication state: the statistics and receipts of the
//! last presented frame, the capture lifecycle, the telemetry retained for
//! the next presentation, and the compatibility evidence store.

use crate::evidence::compatibility::{
    SurfaceCompatibilityCountFamily, SurfaceCompatibilityCountsTake,
    SurfaceCompatibilityCountsUnavailable, SurfaceCompatibilityCountsUnavailableReason,
    SurfaceCompatibilityOrderSubmission, SurfaceCompatibilityProducerSubmission,
    SurfaceCompatibilityProjectedSubmission, SurfaceCompatibilityTerminalSelector,
};
use crate::evidence::presentation::{
    CapturePrecision, CapturePrecisionView, FrameStats, LegacySurfaceStatsAvailability,
    PresentedCapturePrecisionReceipt, PresentedFramePrecisionReceipts, PresentedReceipt,
    SurfaceCurrentStatsPoll, SurfaceCurrentStatsSubmission, arm_spec, cancel_spec,
    for_presented_frame_spec, observe_poll_spec, take_spec,
};
use crate::evidence::session::{
    SurfaceTelemetryBatch, TelemetryBatchView, publish_batch_spec, publish_telemetry,
};
use crate::evidence::store::{
    CompatibilityEvidenceStore, EvidenceStoreView, SurfaceCompatibilityTerminalPoll,
    lemma_issued_ticket_counts_are_pending,
    poll_result_spec, poll_state_spec, take_counts_result_spec, take_counts_state_spec,
};
use vstd::prelude::*;

verus! {

/// What a presented frame does to the current-stats state: keep it, or
/// install the frame's own submission and whether its counts are current.
#[derive(Debug, Clone, Copy, PartialEq, Eq, Structural)]
pub enum PresentedCurrentStats {
    Preserve,
    Exact { submission: SurfaceCurrentStatsSubmission, counts_current: bool },
}

/// Everything a presented frame commits.
pub struct PresentedFramePublication<T, D, C, L, A, B, P, E> {
    pub stats: FrameStats<T>,
    pub current_stats: PresentedCurrentStats,
    pub precision: PresentedFramePrecisionReceipts<D, C, L>,
    pub order: SurfaceCompatibilityOrderSubmission,
    pub projected: SurfaceCompatibilityProjectedSubmission,
    pub producer: SurfaceCompatibilityProducerSubmission,
    pub telemetry: SurfaceTelemetryBatch<A, B, P, E>,
}

impl<T, D, C, L, A, B, P, E> PresentedFramePublication<T, D, C, L, A, B, P, E> {
    pub fn new(
        stats: FrameStats<T>,
        current_stats: PresentedCurrentStats,
        precision: PresentedFramePrecisionReceipts<D, C, L>,
        order: SurfaceCompatibilityOrderSubmission,
        projected: SurfaceCompatibilityProjectedSubmission,
        producer: SurfaceCompatibilityProducerSubmission,
        telemetry: SurfaceTelemetryBatch<A, B, P, E>,
    ) -> (r: Self)
        ensures
            r.stats == stats,
            r.current_stats == current_stats,
            r.precision == precision,
            r.order == order,
            r.projected == projected,
            r.producer == producer,
            r.telemetry@ == telemetry@,
    {
        PresentedFramePublication {
            stats,
            current_stats,
            precision,
            order,
            projected,
            producer,
            telemetry,
        }
    }
}

/// Model of a [`SessionPublication`].
pub struct SessionPublicationView<T, D, C, L, A, B, P, E> {
    pub current_stats_submission: SurfaceCurrentStatsSubmission,
    pub availability: LegacySurfaceStatsAvailability,
    pub last_stats: FrameStats<T>,
    pub presented: PresentedFramePrecisionReceipts<D, C, L>,
    pub capture: CapturePrecisionView<D, C, L>,
    pub pending: TelemetryBatchView<A, B, P, E>,
    pub evidence: EvidenceStoreView<A, B, P, E>,
    pub commit_count: nat,
}

/// The receipts held after a frame presents `newer`: each kind the frame
/// carries replaces the held one; a kind it lacks keeps the held one.
pub open spec fn retain_presented_spec<D, C, L>(
    held: PresentedFramePrecisionReceipts<D, C, L>,
    newer: PresentedFramePrecisionReceipts<D, C, L>,
) -> PresentedFramePrecisionReceipts<D, C, L> {
    PresentedFramePrecisionReceipts {
        depth: if newer.depth is Some {
            newer.depth
        } else {
            held.depth
        },
        projected_cache: if newer.projected_cache is Some {
            newer.projected_cache
        } else {
            held.projected_cache
        },
        resident_sh: if newer.resident_sh is Some {
            newer.resident_sh
        } else {
            held.resident_sh
        },
    }
}

/// Session after a frame is presented: its statistics become the last ones,
/// its receipts are retained, an exact current-stats publication installs
/// the frame's submission and availability, the telemetry handed in is
/// published against the submissions of earlier frames and only then are the
/// frame's own submissions installed, and the commit count grows by one.
pub open spec fn publish_presented_spec<T, D, C, L, A, B, P, E>(
    v: SessionPublicationView<T, D, C, L, A, B, P, E>,
    stats: FrameStats<T>,
    current_stats: PresentedCurrentStats,
    precision: PresentedFramePrecisionReceipts<D, C, L>,
    order: SurfaceCompatibilityOrderSubmission,
    projected: SurfaceCompatibilityProjectedSubmission,
    producer: SurfaceCompatibilityProducerSubmission,
    telemetry: TelemetryBatchView<A, B, P, E>,
) -> SessionPublicationView<T, D, C, L, A, B, P, E> {
    SessionPublicationView {
        current_stats_submission: match current_stats {
            PresentedCurrentStats::Preserve => v.current_stats_submission,
            PresentedCurrentStats::Exact { submission, .. } => submission,
        },
        availability: match current_stats {
            PresentedCurrentStats::Preserve => v.availability,
            PresentedCurrentStats::Exact { submission, counts_current } => for_presented_frame_spec(
                counts_current,
                submission,
            ),
        },
        last_stats: stats,
        presented: retain_presented_spec(v.presented, precision),
        evidence: crate::evidence::store::observe_spec(
            publish_batch_spec(v.evidence, telemetry),
            order,
            projected,
            producer,
        ),
        commit_count: v.commit_count + 1,
        ..v
    }
}

/// An empty telemetry batch model.
pub open spec fn empty_batch<A, B, P, E>() -> TelemetryBatchView<A, B, P, E> {
    TelemetryBatchView {
        cpu_order: Seq::empty(),
        gpu_order: Seq::empty(),
        order_failures: Seq::empty(),
        projected: Seq::empty(),
        projected_failures: Seq::empty(),
        producer: Seq::empty(),
        producer_failures: Seq::empty(),
    }
}

/// Both lanes of `batch` appended after those of `held`.
pub open spec fn append_batch_spec<A, B, P, E>(
    held: TelemetryBatchView<A, B, P, E>,
    batch: TelemetryBatchView<A, B, P, E>,
) -> TelemetryBatchView<A, B, P, E> {
    TelemetryBatchView {
        cpu_order: held.cpu_order + batch.cpu_order,
        gpu_order: held.gpu_order + batch.gpu_order,
        order_failures: held.order_failures + batch.order_failures,
        projected: held.projected + batch.projected,
        projected_failures: held.projected_failures + batch.projected_failures,
        producer: held.producer + batch.producer,
        producer_failures: held.producer_failures + batch.producer_failures,
    }
}

pub struct SessionPublication<T, D, C, L, A, B, P, E> {
    current_stats_submission: SurfaceCurrentStatsSubmission,
    legacy_stats_availability: LegacySurfaceStatsAvailability,
    last_stats: FrameStats<T>,
    presented: PresentedFramePrecisionReceipts<D, C, L>,
    capture: CapturePrecision<D, C, L>,
    pending_telemetry: SurfaceTelemetryBatch<A, B, P, E>,
    evidence: CompatibilityEvidenceStore<A, B, P, E>,
    presented_commit_count: u64,
}

impl<T, D, C, L, A, B, P, E> View for SessionPublication<T, D, C, L, A, B, P, E> {
    type V = SessionPublicationView<T, D, C, L, A, B, P, E>;

    closed spec fn view(&self) -> SessionPublicationView<T, D, C, L, A, B, P, E> {
        SessionPublicationView {
            current_stats_submission: self.current_stats_submission,
            availability: self.legacy_stats_availability,
            last_stats: self.last_stats,
            presented: self.presented,
            capture: self.capture@,
            pending: self.pending_telemetry@,
            evidence: self.evidence@,
            commit_count: self.presented_commit_count as nat,
        }
    }
}

impl<
    T: Copy,
    D: Copy,
    C: Copy,
    L: Copy,
    A: Copy,
    B: Copy,
    P: Copy,
    E: Copy,
> SessionPublication<T, D, C, L, A, B, P, E> {
    pub closed spec fn wf(&self) -> bool {
        &&& self.capture.wf()
        &&& self.pending_telemetry.wf()
        &&& self.evidence.wf()
    }

    /// A fresh session: no current-stats submission; legacy statistics are
    /// current unless the surface is exact; captures are possible only on an
    /// exact surface.
    pub fn new(exact_surface: bool, initial_stats: FrameStats<T>) -> (r: Self)
        ensures
            r.wf(),
            r@.current_stats_submission == SurfaceCurrentStatsSubmission::NotRequested,
            r@.availability == if exact_surface {
                LegacySurfaceStatsAvailability::Unavailable
            } else {
                LegacySurfaceStatsAvailability::Current
            },
            r@.last_stats == initial_stats,
            r@.presented == (PresentedFramePrecisionReceipts::<D, C, L> {
                depth: None,
                projected_cache: None,
                resident_sh: None,
            }),
            r@.capture.receipt is None,
            r@.capture.state == if exact_surface {
                crate::evidence::presentation::CapturePrecisionState::Idle
            } else {
                crate::evidence::presentation::CapturePrecisionState::Disabled
            },
            r@.pending == empty_batch::<A, B, P, E>(),
            r@.evidence.producer_success.len() == 0,
            r@.evidence.producer_failure.len() == 0,
            r@.evidence.pending_order.len() == 0,
            r@.evidence.pending_projected.len() == 0,
            r@.evidence.pending_producer.len() == 0,
            r@.commit_count == 0,
    {
        let pending_telemetry = SurfaceTelemetryBatch::new();
        let r = SessionPublication {
            current_stats_submission: SurfaceCurrentStatsSubmission::NotRequested,
            legacy_stats_availability: if exact_surface {
                LegacySurfaceStatsAvailability::Unavailable
            } else {
                LegacySurfaceStatsAvailability::Current
            },
            last_stats: initial_stats,
            presented: PresentedFramePrecisionReceipts::new(None, None, None),
            capture: CapturePrecision::new(exact_surface),
            pending_telemetry,
            evidence: CompatibilityEvidenceStore::new(),
            presented_commit_count: 0,
        };
        proof {
            assert(r@.pending =~= empty_batch::<A, B, P, E>());
        }
        r
    }

    pub fn current_stats_submission(&self) -> (r: SurfaceCurrentStatsSubmission)
        ensures
            r == self@.current_stats_submission,
    {
        self.current_stats_submission
    }

    pub fn last_stats(&self) -> (r: FrameStats<T>)
        ensures
            r == self@.last_stats,
    {
        self.last_stats
    }

    pub fn presented_depth_precision_receipt(&self) -> (r: Option<PresentedReceipt<D>>)
        ensures
            r == self@.presented.depth,
    {
        self.presented.depth
    }

    pub fn presented_projected_cache_precision_receipt(&self) -> (r: Option<PresentedReceipt<C>>)
        ensures
            r == self@.presented.projected_cache,
    {
        self.presented.projected_cache
    }

    pub fn presented_resident_sh_receipt(&self) -> (r: Option<PresentedReceipt<L>>)
        ensures
            r == self@.presented.resident_sh,
    {
        self.presented.resident_sh
    }

    /// Frames presented so far.
    pub fn presented_commit_count(&self) -> (r: u64)
        ensures
            r == self@.commit_count,
    {
        self.presented_commit_count
    }

    pub fn arm_capture_precision(&mut self) -> (r: bool)
        requires
            old(self).wf(),
        ensures
            final(self).wf(),
            (final(self)@.capture, r) == arm_spec(old(self)@.capture),
            final(self)@ == (SessionPublicationView { capture: final(self)@.capture, ..old(self)@ }),
    {
        self.capture.arm()
    }

    pub fn cancel_capture_precision(&mut self)
        requires
            old(self).wf(),
        ensures
            final(self).wf(),
            final(self)@ == (SessionPublicationView {
                capture: cancel_spec(old(self)@.capture),
                ..old(self)@
            }),
    {
        self.capture.cancel()
    }

    pub fn observe_presented_capture(
        &mut self,
        presentation_sequence: Option<u64>,
        precision: PresentedFramePrecisionReceipts<D, C, L>,
    )
        requires
            old(self).wf(),
        ensures
            final(self).wf(),
            final(self)@ == (SessionPublicationView {
                capture: crate::evidence::presentation::observe_spec(
                    old(self)@.capture,
                    presentation_sequence,
                    precision,
                ),
                ..old(self)@
            }),
    {
        self.capture.observe_presented(presentation_sequence, precision)
    }

    pub fn take_capture_precision(&mut self) -> (r: Option<PresentedCapturePrecisionReceipt<D, C, L>>)
        requires
            old(self).wf(),
        ensures
            final(self).wf(),
            (final(self)@.capture, r) == take_spec(old(self)@.capture),
            final(self)@ == (SessionPublicationView { capture: final(self)@.capture, ..old(self)@ }),
    {
        self.capture.take()
    }

    /// The last presented statistics, when they are current.
    pub fn legacy_stats(&self) -> (r: Option<FrameStats<T>>)
        ensures
            r == if self@.availability == LegacySurfaceStatsAvailability::Current {
                Some(self@.last_stats)
            } else {
                None
            },
    {
        self.legacy_stats_availability.get(self.last_stats)
    }

    /// Resolves the awaited current-stats receipt of the last presented frame.
    pub fn observe_current_stats_poll(&mut self, poll: SurfaceCurrentStatsPoll)
        requires
            old(self).wf(),
        ensures
            final(self).wf(),
            ({
                let (availability, stats) = observe_poll_spec(
                    old(self)@.availability,
                    old(self)@.current_stats_submission,
                    poll,
                    old(self)@.last_stats,
                );
                final(self)@ == (SessionPublicationView {
                    availability,
                    last_stats: stats,
                    ..old(self)@
                })
            }),
    {
        let submission = self.current_stats_submission;
        self.legacy_stats_availability.observe_poll(submission, poll, &mut self.last_stats);
    }

    /// Retains consumed telemetry until the next presentation.
    pub fn retain_consumed_telemetry(&mut self, telemetry: SurfaceTelemetryBatch<A, B, P, E>)
        requires
            old(self).wf(),
            telemetry.wf(),
        ensures
            final(self).wf(),
            final(self)@ == (SessionPublicationView {
                pending: append_batch_spec(old(self)@.pending, telemetry@),
                ..old(self)@
            }),
    {
        self.pending_telemetry.append(telemetry);
    }

    /// Takes the retained telemetry for the frame about to be presented.
    pub fn prepare_presented_telemetry(&mut self) -> (r: SurfaceTelemetryBatch<A, B, P, E>)
        requires
            old(self).wf(),
        ensures
            final(self).wf(),
            r.wf(),
            r@ == old(self)@.pending,
            final(self)@ == (SessionPublicationView {
                pending: empty_batch::<A, B, P, E>(),
                ..old(self)@
            }),
    {
        let r = self.pending_telemetry.take();
        proof {
            assert(self@.pending =~= empty_batch::<A, B, P, E>());
        }
        r
    }

    /// Commits a presented frame.
    pub fn publish_presented_frame(
        &mut self,
        publication: PresentedFramePublication<T, D, C, L, A, B, P, E>,
    )
        requires
            old(self).wf(),
            publication.telemetry.wf(),
            old(self)@.evidence.producer_success.len() + publication.telemetry@.producer.len()
                < usize::MAX - 1,
            old(self)@.evidence.producer_failure.len()
                + publication.telemetry@.producer_failures.len() < usize::MAX - 1,
            old(self)@.commit_count < u64::MAX,
        ensures
            final(self).wf(),
            final(self)@ == publish_presented_spec(
                old(self)@,
                publication.stats,
                publication.current_stats,
                publication.precision,
                publication.order,
                publication.projected,
                publication.producer,
                publication.telemetry@,
            ),
            publication.order.measurement.spec_ticket() matches Some(t) ==> take_counts_result_spec(
                final(self)@.evidence,
                SurfaceCompatibilityCountFamily::Order,
                t,
            ) == SurfaceCompatibilityCountsTake::Unavailable(
                SurfaceCompatibilityCountsUnavailable {
                    family: SurfaceCompatibilityCountFamily::Order,
                    ticket: t,
                    reason: SurfaceCompatibilityCountsUnavailableReason::Pending,
                },
            ),
    {
        let PresentedFramePublication {
            stats,
            current_stats,
            precision,
            order,
            projected,
            producer,
            telemetry,
        } = publication;
        self.last_stats = stats;
        self.presented.retain_presented(precision);
        match current_stats {
            PresentedCurrentStats::Exact { submission, counts_current } => {
                self.current_stats_submission = submission;
                self.legacy_stats_availability = LegacySurfaceStatsAvailability::for_presented_frame(
                    counts_current,
                    submission,
                );
            },
            PresentedCurrentStats::Preserve => {},
        }
        publish_telemetry(&mut self.evidence, &telemetry);
        let ghost published = self.evidence@;
        proof {
            self.evidence.lemma_view_wf();
        }
        self.evidence.observe_submissions(order, projected, producer);
        proof {
            match order.measurement.spec_ticket() {
                Some(t) => {
                    lemma_issued_ticket_counts_are_pending(published, order, projected, producer, t);
                },
                None => {},
            }
        }
        self.presented_commit_count = self.presented_commit_count + 1;
    }

    /// Publishes every retained receipt now, without a presented frame.
    pub fn terminalize_deferred_telemetry(&mut self)
        requires
            old(self).wf(),
            old(self)@.evidence.producer_success.len() + old(self)@.pending.producer.len()
                < usize::MAX - 1,
            old(self)@.evidence.producer_failure.len() + old(self)@.pending.producer_failures.len()
                < usize::MAX - 1,
        ensures
            final(self).wf(),
            final(self)@ == (SessionPublicationView {
                pending: empty_batch::<A, B, P, E>(),
                evidence: publish_batch_spec(old(self)@.evidence, old(self)@.pending),
                ..old(self)@
            }),
    {
        let batch = self.pending_telemetry.take();
        publish_telemetry(&mut self.evidence, &batch);
        proof {
            assert(self@.pending =~= empty_batch::<A, B, P, E>());
        }
    }

    /// Retains `telemetry` after the held receipts and publishes them all.
    pub fn publish_polled_telemetry(&mut self, telemetry: SurfaceTelemetryBatch<A, B, P, E>)
        requires
            old(self).wf(),
            telemetry.wf(),
            old(self)@.evidence.producer_success.len() + old(self)@.pending.producer.len()
                + telemetry@.producer.len() < usize::MAX - 1,
            old(self)@.evidence.producer_failure.len() + old(self)@.pending.producer_failures.len()
                + telemetry@.producer_failures.len() < usize::MAX - 1,
        ensures
            final(self).wf(),
            final(self)@ == (SessionPublicationView {
                pending: empty_batch::<A, B, P, E>(),
                evidence: publish_batch_spec(
                    old(self)@.evidence,
                    append_batch_spec(old(self)@.pending, telemetry@),
                ),
                ..old(self)@
            }),
    {
        self.pending_telemetry.append(telemetry);
        self.terminalize_deferred_telemetry();
    }

    /// The compatibility evidence store.
    pub fn evidence(&self) -> (r: &CompatibilityEvidenceStore<A, B, P, E>)
        requires
            self.wf(),
        ensures
            r.wf(),
            r@ == self@.evidence,
    {
        &self.evidence
    }

    /// Installs submissions directly into the evidence store.
    pub fn observe_submissions(
        &mut self,
        order: SurfaceCompatibilityOrderSubmission,
        projected: SurfaceCompatibilityProjectedSubmission,
        producer: SurfaceCompatibilityProducerSubmission,
    )
        requires
            old(self).wf(),
        ensures
            final(self).wf(),
            final(self)@ == (SessionPublicationView {
                evidence: crate::evidence::store::observe_spec(
                    old(self)@.evidence,
                    order,
                    projected,
                    producer,
                ),
                ..old(self)@
            }),
    {
        self.evidence.observe_submissions(order, projected, producer);
    }

    /// Delivers the oldest compatibility receipt named by `selector`.
    pub fn poll_terminal(&mut self, selector: SurfaceCompatibilityTerminalSelector) -> (r:
        SurfaceCompatibilityTerminalPoll<A, B, P, E>)
        requires
            old(self).wf(),
        ensures
            final(self).wf(),
            r == poll_result_spec(old(self)@.evidence, selector),
            final(self)@ == (SessionPublicationView {
                evidence: poll_state_spec(old(self)@.evidence, selector),
                ..old(self)@
            }),
    {
        self.evidence.poll_terminal(selector)
    }

    /// Takes the counts of `ticket` from the ledger of `family`.
    pub fn take_counts(&mut self, family: SurfaceCompatibilityCountFamily, ticket: u64) -> (r:
        SurfaceCompatibilityCountsTake)
        requires
            old(self).wf(),
        ensures
            final(self).wf(),
            r == take_counts_result_spec(old(self)@.evidence, family, ticket),
            final(self)@ == (SessionPublicationView {
                evidence: take_counts_state_spec(old(self)@.evidence, family, ticket),
                ..old(self)@
            }),
    {
        self.evidence.take_counts(family, ticket)
    }
}

} // verus!
