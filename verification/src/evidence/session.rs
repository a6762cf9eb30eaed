//! Presentation-fenced publication of consumed telemetry.
//!
//! Terminal receipts that a surface session has already consumed are
//! retained in a batch across unavailable or failed frame attempts, and are
//! published into the compatibility store only when a frame is presented (or
//! when an explicit drain terminalizes them). A presented frame publishes the
//! retained receipts before it installs its own submissions, so a retained
//! receipt resolves against the issue context it was issued with and never
//! against the new frame's.

use crate::evidence::compatibility::{
    SurfaceCompatibilityCountFamily, SurfaceCompatibilityCounts, SurfaceCompatibilityOrderSubmission,
    SurfaceCompatibilityProducerSubmission, SurfaceCompatibilityProjectedSubmission,
};
use crate::evidence::keyed::first_key_index;
use crate::evidence::receipts::{
    SurfaceGpuProducerMeasurementFailure, SurfaceOrderMeasurementFailure,
    SurfaceProjectedDrawMeasurementFailure,
};
use crate::evidence::store::{
    CompatibilityEvidenceStore, EvidenceStoreView, observe_spec, publish_cpu_order_spec, publish_gpu_order_spec, publish_order_failure_spec,
    publish_producer_failure_spec, publish_producer_success_spec,
    publish_projected_failure_spec, publish_projected_success_spec,
};
use crate::evidence::producer_queue::{ProducerEntry, lemma_first_visible, producer_push_spec};
use vstd::prelude::*;

verus! {

proof fn lemma_producer_push_len<T, C>(s: Seq<ProducerEntry<T, C>>, payload: T, issue: C)
    ensures
        producer_push_spec(s, payload, issue).len() == s.len() + 1,
{
    lemma_first_visible(s);
}

/// Model of a telemetry batch: each lane in arrival order. Successes carry
/// the counts they report (or, for the producer lane, their ticket).
#[verifier::ext_equal]
pub struct TelemetryBatchView<A, B, D, E> {
    pub cpu_order: Seq<(SurfaceCompatibilityCounts, A)>,
    pub gpu_order: Seq<(SurfaceCompatibilityCounts, B)>,
    pub order_failures: Seq<SurfaceOrderMeasurementFailure>,
    pub projected: Seq<(SurfaceCompatibilityCounts, D)>,
    pub projected_failures: Seq<SurfaceProjectedDrawMeasurementFailure>,
    pub producer: Seq<(u64, E)>,
    pub producer_failures: Seq<SurfaceGpuProducerMeasurementFailure>,
}

/// Order successes carry order counts and projected successes projected
/// counts.
pub open spec fn batch_wf<A, B, D, E>(b: TelemetryBatchView<A, B, D, E>) -> bool {
    &&& forall|i: int|
        0 <= i < b.cpu_order.len() ==> (#[trigger] b.cpu_order[i]).0.family
            == SurfaceCompatibilityCountFamily::Order
    &&& forall|i: int|
        0 <= i < b.gpu_order.len() ==> (#[trigger] b.gpu_order[i]).0.family
            == SurfaceCompatibilityCountFamily::Order
    &&& forall|i: int|
        0 <= i < b.projected.len() ==> (#[trigger] b.projected[i]).0.family
            == SurfaceCompatibilityCountFamily::Projected
}

/// The store after publishing the CPU-order successes `s` in order.
pub open spec fn publish_cpu_all<A, B, D, E>(
    v: EvidenceStoreView<A, B, D, E>,
    s: Seq<(SurfaceCompatibilityCounts, A)>,
) -> EvidenceStoreView<A, B, D, E>
    decreases s.len(),
{
    if s.len() == 0 {
        v
    } else {
        publish_cpu_order_spec(publish_cpu_all(v, s.drop_last()), s.last().0, s.last().1)
    }
}

/// The store after publishing the GPU-order successes `s` in order.
pub open spec fn publish_gpu_all<A, B, D, E>(
    v: EvidenceStoreView<A, B, D, E>,
    s: Seq<(SurfaceCompatibilityCounts, B)>,
) -> EvidenceStoreView<A, B, D, E>
    decreases s.len(),
{
    if s.len() == 0 {
        v
    } else {
        publish_gpu_order_spec(publish_gpu_all(v, s.drop_last()), s.last().0, s.last().1)
    }
}

/// The store after publishing the order failures `s` in order.
pub open spec fn publish_order_failures_all<A, B, D, E>(
    v: EvidenceStoreView<A, B, D, E>,
    s: Seq<SurfaceOrderMeasurementFailure>,
) -> EvidenceStoreView<A, B, D, E>
    decreases s.len(),
{
    if s.len() == 0 {
        v
    } else {
        publish_order_failure_spec(publish_order_failures_all(v, s.drop_last()), s.last())
    }
}

/// The store after publishing the projected successes `s` in order.
pub open spec fn publish_projected_all<A, B, D, E>(
    v: EvidenceStoreView<A, B, D, E>,
    s: Seq<(SurfaceCompatibilityCounts, D)>,
) -> EvidenceStoreView<A, B, D, E>
    decreases s.len(),
{
    if s.len() == 0 {
        v
    } else {
        publish_projected_success_spec(
            publish_projected_all(v, s.drop_last()),
            s.last().0,
            s.last().1,
        )
    }
}

/// The store after publishing the projected failures `s` in order.
pub open spec fn publish_projected_failures_all<A, B, D, E>(
    v: EvidenceStoreView<A, B, D, E>,
    s: Seq<SurfaceProjectedDrawMeasurementFailure>,
) -> EvidenceStoreView<A, B, D, E>
    decreases s.len(),
{
    if s.len() == 0 {
        v
    } else {
        publish_projected_failure_spec(publish_projected_failures_all(v, s.drop_last()), s.last())
    }
}

/// The store after publishing the producer successes `s` in order.
pub open spec fn publish_producer_all<A, B, D, E>(
    v: EvidenceStoreView<A, B, D, E>,
    s: Seq<(u64, E)>,
) -> EvidenceStoreView<A, B, D, E>
    decreases s.len(),
{
    if s.len() == 0 {
        v
    } else {
        publish_producer_success_spec(publish_producer_all(v, s.drop_last()), s.last().0, s.last().1)
    }
}

/// The store after publishing the producer failures `s` in order.
pub open spec fn publish_producer_failures_all<A, B, D, E>(
    v: EvidenceStoreView<A, B, D, E>,
    s: Seq<SurfaceGpuProducerMeasurementFailure>,
) -> EvidenceStoreView<A, B, D, E>
    decreases s.len(),
{
    if s.len() == 0 {
        v
    } else {
        publish_producer_failure_spec(publish_producer_failures_all(v, s.drop_last()), s.last())
    }
}

/// The store after publishing a whole batch: CPU-order successes, GPU-order
/// successes, order failures, projected successes and failures, then
/// producer successes and failures, each lane in arrival order.
pub open spec fn publish_batch_spec<A, B, D, E>(
    v: EvidenceStoreView<A, B, D, E>,
    b: TelemetryBatchView<A, B, D, E>,
) -> EvidenceStoreView<A, B, D, E> {
    let v1 = publish_cpu_all(v, b.cpu_order);
    let v2 = publish_gpu_all(v1, b.gpu_order);
    let v3 = publish_order_failures_all(v2, b.order_failures);
    let v4 = publish_projected_all(v3, b.projected);
    let v5 = publish_projected_failures_all(v4, b.projected_failures);
    let v6 = publish_producer_all(v5, b.producer);
    publish_producer_failures_all(v6, b.producer_failures)
}

/// Terminal receipts consumed by a session and not yet published.
pub struct SurfaceTelemetryBatch<A, B, D, E> {
    cpu_order: Vec<(SurfaceCompatibilityCounts, A)>,
    gpu_order: Vec<(SurfaceCompatibilityCounts, B)>,
    order_failures: Vec<SurfaceOrderMeasurementFailure>,
    projected: Vec<(SurfaceCompatibilityCounts, D)>,
    projected_failures: Vec<SurfaceProjectedDrawMeasurementFailure>,
    producer: Vec<(u64, E)>,
    producer_failures: Vec<SurfaceGpuProducerMeasurementFailure>,
}

impl<A, B, D, E> View for SurfaceTelemetryBatch<A, B, D, E> {
    type V = TelemetryBatchView<A, B, D, E>;

    closed spec fn view(&self) -> TelemetryBatchView<A, B, D, E> {
        TelemetryBatchView {
            cpu_order: self.cpu_order@,
            gpu_order: self.gpu_order@,
            order_failures: self.order_failures@,
            projected: self.projected@,
            projected_failures: self.projected_failures@,
            producer: self.producer@,
            producer_failures: self.producer_failures@,
        }
    }
}

impl<A: Copy, B: Copy, D: Copy, E: Copy> SurfaceTelemetryBatch<A, B, D, E> {
    pub open spec fn wf(&self) -> bool {
        batch_wf(self@)
    }

    pub fn new() -> (r: Self)
        ensures
            r.wf(),
            r@.cpu_order.len() == 0,
            r@.gpu_order.len() == 0,
            r@.order_failures.len() == 0,
            r@.projected.len() == 0,
            r@.projected_failures.len() == 0,
            r@.producer.len() == 0,
            r@.producer_failures.len() == 0,
    {
        SurfaceTelemetryBatch {
            cpu_order: Vec::new(),
            gpu_order: Vec::new(),
            order_failures: Vec::new(),
            projected: Vec::new(),
            projected_failures: Vec::new(),
            producer: Vec::new(),
            producer_failures: Vec::new(),
        }
    }

    pub fn record_cpu_order(&mut self, counts: SurfaceCompatibilityCounts, measurement: A)
        requires
            old(self).wf(),
            counts.family == SurfaceCompatibilityCountFamily::Order,
        ensures
            final(self).wf(),
            final(self)@ == (TelemetryBatchView {
                cpu_order: old(self)@.cpu_order.push((counts, measurement)),
                ..old(self)@
            }),
    {
        self.cpu_order.push((counts, measurement));
    }

    pub fn record_gpu_order(&mut self, counts: SurfaceCompatibilityCounts, measurement: B)
        requires
            old(self).wf(),
            counts.family == SurfaceCompatibilityCountFamily::Order,
        ensures
            final(self).wf(),
            final(self)@ == (TelemetryBatchView {
                gpu_order: old(self)@.gpu_order.push((counts, measurement)),
                ..old(self)@
            }),
    {
        self.gpu_order.push((counts, measurement));
    }

    pub fn record_order_failure(&mut self, failure: SurfaceOrderMeasurementFailure)
        requires
            old(self).wf(),
        ensures
            final(self).wf(),
            final(self)@ == (TelemetryBatchView {
                order_failures: old(self)@.order_failures.push(failure),
                ..old(self)@
            }),
    {
        self.order_failures.push(failure);
    }

    pub fn record_projected_success(&mut self, counts: SurfaceCompatibilityCounts, measurement: D)
        requires
            old(self).wf(),
            counts.family == SurfaceCompatibilityCountFamily::Projected,
        ensures
            final(self).wf(),
            final(self)@ == (TelemetryBatchView {
                projected: old(self)@.projected.push((counts, measurement)),
                ..old(self)@
            }),
    {
        self.projected.push((counts, measurement));
    }

    pub fn record_projected_failure(&mut self, failure: SurfaceProjectedDrawMeasurementFailure)
        requires
            old(self).wf(),
        ensures
            final(self).wf(),
            final(self)@ == (TelemetryBatchView {
                projected_failures: old(self)@.projected_failures.push(failure),
                ..old(self)@
            }),
    {
        self.projected_failures.push(failure);
    }

    pub fn record_producer_success(&mut self, ticket: u64, measurement: E)
        requires
            old(self).wf(),
        ensures
            final(self).wf(),
            final(self)@ == (TelemetryBatchView {
                producer: old(self)@.producer.push((ticket, measurement)),
                ..old(self)@
            }),
    {
        self.producer.push((ticket, measurement));
    }

    pub fn record_producer_failure(&mut self, failure: SurfaceGpuProducerMeasurementFailure)
        requires
            old(self).wf(),
        ensures
            final(self).wf(),
            final(self)@ == (TelemetryBatchView {
                producer_failures: old(self)@.producer_failures.push(failure),
                ..old(self)@
            }),
    {
        self.producer_failures.push(failure);
    }

    /// Appends every lane of `other` after the same lane of this batch.
    pub fn append(&mut self, other: Self)
        requires
            old(self).wf(),
            other.wf(),
        ensures
            final(self).wf(),
            final(self)@ == (TelemetryBatchView {
                cpu_order: old(self)@.cpu_order + other@.cpu_order,
                gpu_order: old(self)@.gpu_order + other@.gpu_order,
                order_failures: old(self)@.order_failures + other@.order_failures,
                projected: old(self)@.projected + other@.projected,
                projected_failures: old(self)@.projected_failures + other@.projected_failures,
                producer: old(self)@.producer + other@.producer,
                producer_failures: old(self)@.producer_failures + other@.producer_failures,
            }),
    {
        let mut other = other;
        self.cpu_order.append(&mut other.cpu_order);
        self.gpu_order.append(&mut other.gpu_order);
        self.order_failures.append(&mut other.order_failures);
        self.projected.append(&mut other.projected);
        self.projected_failures.append(&mut other.projected_failures);
        self.producer.append(&mut other.producer);
        self.producer_failures.append(&mut other.producer_failures);
    }

    /// Takes the whole batch, leaving this one empty.
    pub fn take(&mut self) -> (r: Self)
        requires
            old(self).wf(),
        ensures
            final(self).wf(),
            r.wf(),
            r@ == old(self)@,
            final(self)@.cpu_order.len() == 0,
            final(self)@.gpu_order.len() == 0,
            final(self)@.order_failures.len() == 0,
            final(self)@.projected.len() == 0,
            final(self)@.projected_failures.len() == 0,
            final(self)@.producer.len() == 0,
            final(self)@.producer_failures.len() == 0,
    {
        let mut taken = Self::new();
        std::mem::swap(self, &mut taken);
        taken
    }

    /// The latest GPU-order success of the batch.
    pub fn latest_gpu_order(&self) -> (r: Option<B>)
        ensures
            r == if self@.gpu_order.len() == 0 {
                None
            } else {
                Some(self@.gpu_order.last().1)
            },
    {
        let n = self.gpu_order.len();
        if n == 0 {
            None
        } else {
            Some(self.gpu_order[n - 1].1)
        }
    }

    /// The latest order failure of the batch.
    pub fn latest_order_failure(&self) -> (r: Option<SurfaceOrderMeasurementFailure>)
        ensures
            r == if self@.order_failures.len() == 0 {
                None
            } else {
                Some(self@.order_failures.last())
            },
    {
        let n = self.order_failures.len();
        if n == 0 {
            None
        } else {
            Some(self.order_failures[n - 1])
        }
    }

    /// The latest projected success of the batch.
    pub fn latest_projected(&self) -> (r: Option<D>)
        ensures
            r == if self@.projected.len() == 0 {
                None
            } else {
                Some(self@.projected.last().1)
            },
    {
        let n = self.projected.len();
        if n == 0 {
            None
        } else {
            Some(self.projected[n - 1].1)
        }
    }

    /// The latest projected failure of the batch.
    pub fn latest_projected_failure(&self) -> (r: Option<SurfaceProjectedDrawMeasurementFailure>)
        ensures
            r == if self@.projected_failures.len() == 0 {
                None
            } else {
                Some(self@.projected_failures.last())
            },
    {
        let n = self.projected_failures.len();
        if n == 0 {
            None
        } else {
            Some(self.projected_failures[n - 1])
        }
    }

    /// The latest producer success of the batch.
    pub fn latest_producer(&self) -> (r: Option<E>)
        ensures
            r == if self@.producer.len() == 0 {
                None
            } else {
                Some(self@.producer.last().1)
            },
    {
        let n = self.producer.len();
        if n == 0 {
            None
        } else {
            Some(self.producer[n - 1].1)
        }
    }

    /// The latest producer failure of the batch.
    pub fn latest_producer_failure(&self) -> (r: Option<SurfaceGpuProducerMeasurementFailure>)
        ensures
            r == if self@.producer_failures.len() == 0 {
                None
            } else {
                Some(self@.producer_failures.last())
            },
    {
        let n = self.producer_failures.len();
        if n == 0 {
            None
        } else {
            Some(self.producer_failures[n - 1])
        }
    }
}

/// Publishes every receipt of `batch` into `store`, lane by lane.
pub fn publish_telemetry<A: Copy, B: Copy, D: Copy, E: Copy>(
    store: &mut CompatibilityEvidenceStore<A, B, D, E>,
    batch: &SurfaceTelemetryBatch<A, B, D, E>,
)
    requires
        old(store).wf(),
        batch.wf(),
        old(store)@.producer_success.len() + batch@.producer.len() < usize::MAX - 1,
        old(store)@.producer_failure.len() + batch@.producer_failures.len() < usize::MAX - 1,
    ensures
        final(store).wf(),
        final(store)@ == publish_batch_spec(old(store)@, batch@),
{
    let ghost v0 = store@;
    let mut i: usize = 0;
    while i < batch.cpu_order.len()
        invariant
            store.wf(),
            batch.wf(),
            i <= batch@.cpu_order.len(),
            batch@.cpu_order == batch.cpu_order@,
            store@.producer_success == v0.producer_success,
            store@.producer_failure == v0.producer_failure,
            v0.producer_success.len() + batch@.producer.len() < usize::MAX - 1,
            v0.producer_failure.len() + batch@.producer_failures.len() < usize::MAX - 1,
            store@ == publish_cpu_all(v0, batch@.cpu_order.take(i as int)),
        decreases batch@.cpu_order.len() - i,
    {
        let (counts, measurement) = batch.cpu_order[i];
        store.publish_cpu_order(counts, measurement);
        proof {
            assert(batch@.cpu_order.take(i as int + 1).drop_last() =~= batch@.cpu_order.take(
                i as int,
            ));
        }
        i += 1;
    }
    proof {
        assert(batch@.cpu_order.take(i as int) =~= batch@.cpu_order);
    }
    let ghost v1 = store@;
    let mut i: usize = 0;
    while i < batch.gpu_order.len()
        invariant
            store.wf(),
            batch.wf(),
            i <= batch@.gpu_order.len(),
            batch@.gpu_order == batch.gpu_order@,
            store@.producer_success == v0.producer_success,
            store@.producer_failure == v0.producer_failure,
            v0.producer_success.len() + batch@.producer.len() < usize::MAX - 1,
            v0.producer_failure.len() + batch@.producer_failures.len() < usize::MAX - 1,
            store@ == publish_gpu_all(v1, batch@.gpu_order.take(i as int)),
        decreases batch@.gpu_order.len() - i,
    {
        let (counts, measurement) = batch.gpu_order[i];
        store.publish_gpu_order(counts, measurement);
        proof {
            assert(batch@.gpu_order.take(i as int + 1).drop_last() =~= batch@.gpu_order.take(
                i as int,
            ));
        }
        i += 1;
    }
    proof {
        assert(batch@.gpu_order.take(i as int) =~= batch@.gpu_order);
    }
    let ghost v2 = store@;
    let mut i: usize = 0;
    while i < batch.order_failures.len()
        invariant
            store.wf(),
            i <= batch@.order_failures.len(),
            batch@.order_failures == batch.order_failures@,
            store@.producer_success == v0.producer_success,
            store@.producer_failure == v0.producer_failure,
            v0.producer_success.len() + batch@.producer.len() < usize::MAX - 1,
            v0.producer_failure.len() + batch@.producer_failures.len() < usize::MAX - 1,
            store@ == publish_order_failures_all(v2, batch@.order_failures.take(i as int)),
        decreases batch@.order_failures.len() - i,
    {
        store.publish_order_failure(batch.order_failures[i]);
        proof {
            assert(batch@.order_failures.take(i as int + 1).drop_last()
                =~= batch@.order_failures.take(i as int));
        }
        i += 1;
    }
    proof {
        assert(batch@.order_failures.take(i as int) =~= batch@.order_failures);
    }
    let ghost v3 = store@;
    let mut i: usize = 0;
    while i < batch.projected.len()
        invariant
            store.wf(),
            batch.wf(),
            i <= batch@.projected.len(),
            batch@.projected == batch.projected@,
            store@.producer_success == v0.producer_success,
            store@.producer_failure == v0.producer_failure,
            v0.producer_success.len() + batch@.producer.len() < usize::MAX - 1,
            v0.producer_failure.len() + batch@.producer_failures.len() < usize::MAX - 1,
            store@ == publish_projected_all(v3, batch@.projected.take(i as int)),
        decreases batch@.projected.len() - i,
    {
        let (counts, measurement) = batch.projected[i];
        store.publish_projected_success(counts, measurement);
        proof {
            assert(batch@.projected.take(i as int + 1).drop_last() =~= batch@.projected.take(
                i as int,
            ));
        }
        i += 1;
    }
    proof {
        assert(batch@.projected.take(i as int) =~= batch@.projected);
    }
    let ghost v4 = store@;
    let mut i: usize = 0;
    while i < batch.projected_failures.len()
        invariant
            store.wf(),
            i <= batch@.projected_failures.len(),
            batch@.projected_failures == batch.projected_failures@,
            store@.producer_success == v0.producer_success,
            store@.producer_failure == v0.producer_failure,
            v0.producer_success.len() + batch@.producer.len() < usize::MAX - 1,
            v0.producer_failure.len() + batch@.producer_failures.len() < usize::MAX - 1,
            store@ == publish_projected_failures_all(
                v4,
                batch@.projected_failures.take(i as int),
            ),
        decreases batch@.projected_failures.len() - i,
    {
        store.publish_projected_failure(batch.projected_failures[i]);
        proof {
            assert(batch@.projected_failures.take(i as int + 1).drop_last()
                =~= batch@.projected_failures.take(i as int));
        }
        i += 1;
    }
    proof {
        assert(batch@.projected_failures.take(i as int) =~= batch@.projected_failures);
    }
    let ghost v5 = store@;
    let mut i: usize = 0;
    while i < batch.producer.len()
        invariant
            store.wf(),
            i <= batch@.producer.len(),
            batch@.producer == batch.producer@,
            store@.producer_success.len() <= v0.producer_success.len() + i,
            store@.producer_failure == v0.producer_failure,
            v0.producer_success.len() + batch@.producer.len() < usize::MAX - 1,
            v0.producer_failure.len() + batch@.producer_failures.len() < usize::MAX - 1,
            store@ == publish_producer_all(v5, batch@.producer.take(i as int)),
        decreases batch@.producer.len() - i,
    {
        let (ticket, measurement) = batch.producer[i];
        let ghost before = store@;
        store.publish_producer_success(ticket, measurement);
        proof {
            match first_key_index(before.pending_producer, ticket) {
                Some(k) => {
                    lemma_producer_push_len(
                        before.producer_success,
                        measurement,
                        before.pending_producer[k].1,
                    );
                },
                None => {},
            }
            assert(batch@.producer.take(i as int + 1).drop_last() =~= batch@.producer.take(
                i as int,
            ));
        }
        i += 1;
    }
    proof {
        assert(batch@.producer.take(i as int) =~= batch@.producer);
    }
    let ghost v6 = store@;
    let mut i: usize = 0;
    while i < batch.producer_failures.len()
        invariant
            store.wf(),
            i <= batch@.producer_failures.len(),
            batch@.producer_failures == batch.producer_failures@,
            store@.producer_failure.len() <= v0.producer_failure.len() + i,
            v0.producer_failure.len() + batch@.producer_failures.len() < usize::MAX - 1,
            store@ == publish_producer_failures_all(v6, batch@.producer_failures.take(i as int)),
        decreases batch@.producer_failures.len() - i,
    {
        let failure = batch.producer_failures[i];
        let ghost before = store@;
        store.publish_producer_failure(failure);
        proof {
            match first_key_index(before.pending_producer, failure.ticket) {
                Some(k) => {
                    lemma_producer_push_len(
                        before.producer_failure,
                        failure,
                        before.pending_producer[k].1,
                    );
                },
                None => {},
            }
            assert(batch@.producer_failures.take(i as int + 1).drop_last()
                =~= batch@.producer_failures.take(i as int));
        }
        i += 1;
    }
    proof {
        assert(batch@.producer_failures.take(i as int) =~= batch@.producer_failures);
    }
}

/// Installing a frame's submissions never touches the terminal queues:
/// every receipt a presented frame publishes was resolved before the frame's
/// own submissions existed.
pub proof fn lemma_submissions_leave_terminals_alone<A, B, D, E>(
    v: EvidenceStoreView<A, B, D, E>,
    order: SurfaceCompatibilityOrderSubmission,
    projected: SurfaceCompatibilityProjectedSubmission,
    producer: SurfaceCompatibilityProducerSubmission,
)
    ensures
        ({
            let w = observe_spec(v, order, projected, producer);
            &&& w.order_cpu_success == v.order_cpu_success
            &&& w.order_gpu_success == v.order_gpu_success
            &&& w.order_failure == v.order_failure
            &&& w.projected_success == v.projected_success
            &&& w.projected_failure == v.projected_failure
            &&& w.producer_success == v.producer_success
            &&& w.producer_failure == v.producer_failure
        }),
{
}

} // verus!
