//! Compatibility evidence store: joins every terminal receipt to the issue
//! context its ticket was published with, retains receipts in bounded queues
//! and counts in take-once ledgers.
//!
//! Success receipts carry timing values that this library does not inspect;
//! they are the type parameters `A` (CPU order), `B` (GPU order), `D`
//! (projected draw) and `E` (GPU producer). Their ticket and counts are passed
//! alongside them.

use std::collections::VecDeque;
use vstd::prelude::*;

use crate::evidence::compatibility::{
    AtomicTerminal, SurfaceCompatibilityChannel, SurfaceCompatibilityCountFamily,
    SurfaceCompatibilityCounts, SurfaceCompatibilityCountsTake, SurfaceCompatibilityOrderFailure,
    SurfaceCompatibilityOrderIssueContext, SurfaceCompatibilityOrderSubmission,
    SurfaceCompatibilityProducerFailure, SurfaceCompatibilityProducerIssueContext,
    SurfaceCompatibilityProducerSubmission, SurfaceCompatibilityProjectedFailure,
    SurfaceCompatibilityProjectedIssueContext, SurfaceCompatibilityProjectedSubmission,
    SurfaceCompatibilitySubmission, SurfaceCompatibilityTerminalSelector,
    SurfaceCompatibilityTerminalUnavailable,
};
use crate::evidence::keyed::{
    first_key_index, has_key, keeps_other, lemma_first_key_index, lemma_unique_after_remove,
    lemma_unique_after_replace, position_of_ticket, replace_pending, take_pending, unique_keys,
};
use crate::evidence::ledger::{
    CountLedger, CountLedgerView, begin_spec, fail_spec, ledger_wf, publish_spec,
    take_result_spec, take_state_spec,
};
use crate::evidence::producer_queue::{
    ProducerEntry, ProducerTerminalQueue, first_visible, producer_push_spec, visible_count,
};
use crate::evidence::receipts::{
    SurfaceGpuProducerMeasurementFailure, SurfaceOrderMeasurementFailure,
    SurfaceProjectedDrawMeasurementFailure,
};
use crate::evidence::ring::{EVIDENCE_RING_CAPACITY, ring_push};
use crate::evidence::terminal_queue::{BoundedTerminalQueue, admitted_terminal};

verus! {

/// Receipts each compatibility queue retains.
pub const TERMINAL_CAPACITY: usize = 64;

/// Order counts retained: one full CPU window plus one full GPU window.
pub const ORDER_COUNT_CAPACITY: usize = 128;

/// Projected counts retained.
pub const PROJECTED_COUNT_CAPACITY: usize = 64;

type OrderIssue = SurfaceCompatibilityOrderIssueContext;

type ProjectedIssue = SurfaceCompatibilityProjectedIssueContext;

type ProducerIssue = SurfaceCompatibilityProducerIssueContext;

/// A terminal receipt delivered by the compatibility view.
#[derive(Debug, Clone, Copy)]
pub enum SurfaceCompatibilityTerminal<A, B, D, E> {
    OrderCpuSuccess(AtomicTerminal<A, SurfaceCompatibilityOrderIssueContext>),
    OrderGpuSuccess(AtomicTerminal<B, SurfaceCompatibilityOrderIssueContext>),
    OrderFailure(SurfaceCompatibilityOrderFailure),
    ProjectedSuccess(AtomicTerminal<D, SurfaceCompatibilityProjectedIssueContext>),
    ProjectedFailure(SurfaceCompatibilityProjectedFailure),
    ProducerSuccess(AtomicTerminal<E, SurfaceCompatibilityProducerIssueContext>),
    ProducerFailure(SurfaceCompatibilityProducerFailure),
}

#[derive(Debug, Clone, Copy)]
pub enum SurfaceCompatibilityTerminalPoll<A, B, D, E> {
    Ready(SurfaceCompatibilityTerminal<A, B, D, E>),
    Unavailable(SurfaceCompatibilityTerminalUnavailable),
}

/// Abstract state of a [`CompatibilityEvidenceStore`].
pub struct EvidenceStoreView<A, B, D, E> {
    pub last_order: Option<SurfaceCompatibilityOrderSubmission>,
    pub last_projected: Option<SurfaceCompatibilityProjectedSubmission>,
    pub last_producer: Option<SurfaceCompatibilityProducerSubmission>,
    pub pending_order: Seq<(u64, SurfaceCompatibilityOrderIssueContext)>,
    pub pending_projected: Seq<(u64, SurfaceCompatibilityProjectedIssueContext)>,
    pub pending_producer: Seq<(u64, SurfaceCompatibilityProducerIssueContext)>,
    pub order_cpu_success: Seq<AtomicTerminal<A, SurfaceCompatibilityOrderIssueContext>>,
    pub order_gpu_success: Seq<AtomicTerminal<B, SurfaceCompatibilityOrderIssueContext>>,
    pub order_failure: Seq<
        AtomicTerminal<SurfaceOrderMeasurementFailure, SurfaceCompatibilityOrderIssueContext>,
    >,
    pub projected_success: Seq<AtomicTerminal<D, SurfaceCompatibilityProjectedIssueContext>>,
    pub projected_failure: Seq<
        AtomicTerminal<
            SurfaceProjectedDrawMeasurementFailure,
            SurfaceCompatibilityProjectedIssueContext,
        >,
    >,
    pub producer_success: Seq<ProducerEntry<E, SurfaceCompatibilityProducerIssueContext>>,
    pub producer_failure: Seq<
        ProducerEntry<
            SurfaceGpuProducerMeasurementFailure,
            SurfaceCompatibilityProducerIssueContext,
        >,
    >,
    pub order_counts: CountLedgerView,
    pub projected_counts: CountLedgerView,
}

/// State after a presented frame installs its three submissions. Each issued
/// ticket replaces any pending context of the same ticket, and its counts
/// start afresh.
pub open spec fn observe_spec<A, B, D, E>(
    v: EvidenceStoreView<A, B, D, E>,
    order: SurfaceCompatibilityOrderSubmission,
    projected: SurfaceCompatibilityProjectedSubmission,
    producer: SurfaceCompatibilityProducerSubmission,
) -> EvidenceStoreView<A, B, D, E> {
    let v1 = EvidenceStoreView {
        last_order: Some(order),
        last_projected: Some(projected),
        last_producer: Some(producer),
        ..v
    };
    let v2 = match order.measurement.spec_ticket() {
        Some(t) => EvidenceStoreView {
            order_counts: begin_spec(v1.order_counts, t),
            pending_order: v1.pending_order.filter(keeps_other::<OrderIssue>(t)).push(
                (t, order.spec_issued_context(t)->0),
            ),
            ..v1
        },
        None => v1,
    };
    let v3 = match projected.measurement.spec_ticket() {
        Some(t) => EvidenceStoreView {
            projected_counts: begin_spec(v2.projected_counts, t),
            pending_projected: v2.pending_projected.filter(keeps_other::<ProjectedIssue>(t)).push(
                (t, projected.spec_issued_context(t)->0),
            ),
            ..v2
        },
        None => v2,
    };
    match producer.measurement.spec_ticket() {
        Some(t) => EvidenceStoreView {
            pending_producer: v3.pending_producer.filter(keeps_other::<ProducerIssue>(t)).push(
                (t, producer.spec_issued_context(t)->0),
            ),
            ..v3
        },
        None => v3,
    }
}

/// State after the CPU-order success of `counts.ticket` completes; a ticket
/// with no pending issue context leaves the store unchanged.
pub open spec fn publish_cpu_order_spec<A, B, D, E>(
    v: EvidenceStoreView<A, B, D, E>,
    counts: SurfaceCompatibilityCounts,
    measurement: A,
) -> EvidenceStoreView<A, B, D, E> {
    match first_key_index(v.pending_order, counts.ticket) {
        Some(i) => EvidenceStoreView {
            pending_order: v.pending_order.remove(i),
            order_counts: publish_spec(v.order_counts, counts),
            order_cpu_success: ring_push(
                v.order_cpu_success,
                admitted_terminal(v.order_cpu_success, measurement, v.pending_order[i].1),
            ),
            ..v
        },
        None => v,
    }
}

/// State after the GPU-order success of `counts.ticket` completes.
pub open spec fn publish_gpu_order_spec<A, B, D, E>(
    v: EvidenceStoreView<A, B, D, E>,
    counts: SurfaceCompatibilityCounts,
    measurement: B,
) -> EvidenceStoreView<A, B, D, E> {
    match first_key_index(v.pending_order, counts.ticket) {
        Some(i) => EvidenceStoreView {
            pending_order: v.pending_order.remove(i),
            order_counts: publish_spec(v.order_counts, counts),
            order_gpu_success: ring_push(
                v.order_gpu_success,
                admitted_terminal(v.order_gpu_success, measurement, v.pending_order[i].1),
            ),
            ..v
        },
        None => v,
    }
}

/// State after an order measurement fails.
pub open spec fn publish_order_failure_spec<A, B, D, E>(
    v: EvidenceStoreView<A, B, D, E>,
    failure: SurfaceOrderMeasurementFailure,
) -> EvidenceStoreView<A, B, D, E> {
    match first_key_index(v.pending_order, failure.ticket) {
        Some(i) => EvidenceStoreView {
            pending_order: v.pending_order.remove(i),
            order_counts: fail_spec(v.order_counts, failure.ticket),
            order_failure: ring_push(
                v.order_failure,
                admitted_terminal(v.order_failure, failure, v.pending_order[i].1),
            ),
            ..v
        },
        None => v,
    }
}

/// State after the projected-draw success of `counts.ticket` completes.
pub open spec fn publish_projected_success_spec<A, B, D, E>(
    v: EvidenceStoreView<A, B, D, E>,
    counts: SurfaceCompatibilityCounts,
    measurement: D,
) -> EvidenceStoreView<A, B, D, E> {
    match first_key_index(v.pending_projected, counts.ticket) {
        Some(i) => EvidenceStoreView {
            pending_projected: v.pending_projected.remove(i),
            projected_counts: publish_spec(v.projected_counts, counts),
            projected_success: ring_push(
                v.projected_success,
                admitted_terminal(v.projected_success, measurement, v.pending_projected[i].1),
            ),
            ..v
        },
        None => v,
    }
}

/// State after a projected-draw measurement fails.
pub open spec fn publish_projected_failure_spec<A, B, D, E>(
    v: EvidenceStoreView<A, B, D, E>,
    failure: SurfaceProjectedDrawMeasurementFailure,
) -> EvidenceStoreView<A, B, D, E> {
    match first_key_index(v.pending_projected, failure.ticket) {
        Some(i) => EvidenceStoreView {
            pending_projected: v.pending_projected.remove(i),
            projected_counts: fail_spec(v.projected_counts, failure.ticket),
            projected_failure: ring_push(
                v.projected_failure,
                admitted_terminal(v.projected_failure, failure, v.pending_projected[i].1),
            ),
            ..v
        },
        None => v,
    }
}

/// State after the GPU-producer success of `ticket` completes.
pub open spec fn publish_producer_success_spec<A, B, D, E>(
    v: EvidenceStoreView<A, B, D, E>,
    ticket: u64,
    measurement: E,
) -> EvidenceStoreView<A, B, D, E> {
    match first_key_index(v.pending_producer, ticket) {
        Some(i) => EvidenceStoreView {
            pending_producer: v.pending_producer.remove(i),
            producer_success: producer_push_spec(
                v.producer_success,
                measurement,
                v.pending_producer[i].1,
            ),
            ..v
        },
        None => v,
    }
}

/// State after a GPU-producer measurement fails.
pub open spec fn publish_producer_failure_spec<A, B, D, E>(
    v: EvidenceStoreView<A, B, D, E>,
    failure: SurfaceGpuProducerMeasurementFailure,
) -> EvidenceStoreView<A, B, D, E> {
    match first_key_index(v.pending_producer, failure.ticket) {
        Some(i) => EvidenceStoreView {
            pending_producer: v.pending_producer.remove(i),
            producer_failure: producer_push_spec(
                v.producer_failure,
                failure,
                v.pending_producer[i].1,
            ),
            ..v
        },
        None => v,
    }
}

/// Whether the compatibility queue named by `selector` is empty.
pub open spec fn terminal_is_empty_spec<A, B, D, E>(
    v: EvidenceStoreView<A, B, D, E>,
    selector: SurfaceCompatibilityTerminalSelector,
) -> bool {
    match selector {
        SurfaceCompatibilityTerminalSelector::OrderCpuSuccess => v.order_cpu_success.len() == 0,
        SurfaceCompatibilityTerminalSelector::OrderGpuSuccess => v.order_gpu_success.len() == 0,
        SurfaceCompatibilityTerminalSelector::OrderFailure => v.order_failure.len() == 0,
        SurfaceCompatibilityTerminalSelector::ProjectedSuccess => v.projected_success.len() == 0,
        SurfaceCompatibilityTerminalSelector::ProjectedFailure => v.projected_failure.len() == 0,
        SurfaceCompatibilityTerminalSelector::ProducerSuccess => visible_count(v.producer_success)
            == 0,
        SurfaceCompatibilityTerminalSelector::ProducerFailure => visible_count(v.producer_failure)
            == 0,
    }
}

/// What `poll_terminal(selector)` delivers: the oldest receipt of the queue.
pub open spec fn poll_result_spec<A, B, D, E>(
    v: EvidenceStoreView<A, B, D, E>,
    selector: SurfaceCompatibilityTerminalSelector,
) -> SurfaceCompatibilityTerminalPoll<A, B, D, E> {
    let empty = SurfaceCompatibilityTerminalPoll::Unavailable(
        SurfaceCompatibilityTerminalUnavailable::Empty,
    );
    match selector {
        SurfaceCompatibilityTerminalSelector::OrderCpuSuccess => if v.order_cpu_success.len() > 0 {
            SurfaceCompatibilityTerminalPoll::Ready(
                SurfaceCompatibilityTerminal::OrderCpuSuccess(v.order_cpu_success[0]),
            )
        } else {
            empty
        },
        SurfaceCompatibilityTerminalSelector::OrderGpuSuccess => if v.order_gpu_success.len() > 0 {
            SurfaceCompatibilityTerminalPoll::Ready(
                SurfaceCompatibilityTerminal::OrderGpuSuccess(v.order_gpu_success[0]),
            )
        } else {
            empty
        },
        SurfaceCompatibilityTerminalSelector::OrderFailure => if v.order_failure.len() > 0 {
            SurfaceCompatibilityTerminalPoll::Ready(
                SurfaceCompatibilityTerminal::OrderFailure(
                    SurfaceCompatibilityOrderFailure::spec_from_terminal(v.order_failure[0]),
                ),
            )
        } else {
            empty
        },
        SurfaceCompatibilityTerminalSelector::ProjectedSuccess => if v.projected_success.len()
            > 0 {
            SurfaceCompatibilityTerminalPoll::Ready(
                SurfaceCompatibilityTerminal::ProjectedSuccess(v.projected_success[0]),
            )
        } else {
            empty
        },
        SurfaceCompatibilityTerminalSelector::ProjectedFailure => if v.projected_failure.len()
            > 0 {
            SurfaceCompatibilityTerminalPoll::Ready(
                SurfaceCompatibilityTerminal::ProjectedFailure(
                    SurfaceCompatibilityProjectedFailure::spec_from_terminal(
                        v.projected_failure[0],
                    ),
                ),
            )
        } else {
            empty
        },
        SurfaceCompatibilityTerminalSelector::ProducerSuccess => match first_visible(
            v.producer_success,
        ) {
            Some(i) => SurfaceCompatibilityTerminalPoll::Ready(
                SurfaceCompatibilityTerminal::ProducerSuccess(v.producer_success[i].terminal),
            ),
            None => empty,
        },
        SurfaceCompatibilityTerminalSelector::ProducerFailure => match first_visible(
            v.producer_failure,
        ) {
            Some(i) => SurfaceCompatibilityTerminalPoll::Ready(
                SurfaceCompatibilityTerminal::ProducerFailure(
                    SurfaceCompatibilityProducerFailure::spec_from_terminal(
                        v.producer_failure[i].terminal,
                    ),
                ),
            ),
            None => empty,
        },
    }
}

/// State after `poll_terminal(selector)`: the delivered receipt leaves its
/// queue; every other part of the store is unchanged.
pub open spec fn poll_state_spec<A, B, D, E>(
    v: EvidenceStoreView<A, B, D, E>,
    selector: SurfaceCompatibilityTerminalSelector,
) -> EvidenceStoreView<A, B, D, E> {
    match selector {
        SurfaceCompatibilityTerminalSelector::OrderCpuSuccess => if v.order_cpu_success.len() > 0 {
            EvidenceStoreView { order_cpu_success: v.order_cpu_success.drop_first(), ..v }
        } else {
            v
        },
        SurfaceCompatibilityTerminalSelector::OrderGpuSuccess => if v.order_gpu_success.len() > 0 {
            EvidenceStoreView { order_gpu_success: v.order_gpu_success.drop_first(), ..v }
        } else {
            v
        },
        SurfaceCompatibilityTerminalSelector::OrderFailure => if v.order_failure.len() > 0 {
            EvidenceStoreView { order_failure: v.order_failure.drop_first(), ..v }
        } else {
            v
        },
        SurfaceCompatibilityTerminalSelector::ProjectedSuccess => if v.projected_success.len()
            > 0 {
            EvidenceStoreView { projected_success: v.projected_success.drop_first(), ..v }
        } else {
            v
        },
        SurfaceCompatibilityTerminalSelector::ProjectedFailure => if v.projected_failure.len()
            > 0 {
            EvidenceStoreView { projected_failure: v.projected_failure.drop_first(), ..v }
        } else {
            v
        },
        SurfaceCompatibilityTerminalSelector::ProducerSuccess => match first_visible(
            v.producer_success,
        ) {
            Some(i) => EvidenceStoreView { producer_success: v.producer_success.remove(i), ..v },
            None => v,
        },
        SurfaceCompatibilityTerminalSelector::ProducerFailure => match first_visible(
            v.producer_failure,
        ) {
            Some(i) => EvidenceStoreView { producer_failure: v.producer_failure.remove(i), ..v },
            None => v,
        },
    }
}

/// What `take_counts(family, ticket)` answers: the family's ledger decides,
/// told whether the ticket still awaits its terminal.
pub open spec fn take_counts_result_spec<A, B, D, E>(
    v: EvidenceStoreView<A, B, D, E>,
    family: SurfaceCompatibilityCountFamily,
    ticket: u64,
) -> SurfaceCompatibilityCountsTake {
    match family {
        SurfaceCompatibilityCountFamily::Order => take_result_spec(
            v.order_counts,
            ticket,
            has_key(v.pending_order, ticket),
        ),
        SurfaceCompatibilityCountFamily::Projected => take_result_spec(
            v.projected_counts,
            ticket,
            has_key(v.pending_projected, ticket),
        ),
    }
}

pub open spec fn take_counts_state_spec<A, B, D, E>(
    v: EvidenceStoreView<A, B, D, E>,
    family: SurfaceCompatibilityCountFamily,
    ticket: u64,
) -> EvidenceStoreView<A, B, D, E> {
    match family {
        SurfaceCompatibilityCountFamily::Order => EvidenceStoreView {
            order_counts: take_state_spec(v.order_counts, ticket),
            ..v
        },
        SurfaceCompatibilityCountFamily::Projected => EvidenceStoreView {
            projected_counts: take_state_spec(v.projected_counts, ticket),
            ..v
        },
    }
}

/// The payloads of `records`, oldest first.
pub open spec fn payloads_of<T, C>(records: Seq<AtomicTerminal<T, C>>) -> Seq<T> {
    records.map_values(|r: AtomicTerminal<T, C>| r.payload)
}

/// Payloads of drained receipts, in order.
fn payloads<T: Copy, C: Copy>(records: Vec<AtomicTerminal<T, C>>) -> (r: Vec<T>)
    ensures
        r@ == payloads_of(records@),
{
    let mut out: Vec<T> = Vec::with_capacity(records.len());
    let mut index: usize = 0;
    while index < records.len()
        invariant
            index <= records@.len(),
            out@ == payloads_of(records@.take(index as int)),
        decreases records@.len() - index,
    {
        out.push(records[index].payload);
        proof {
            assert(records@.take(index + 1) =~= records@.take(index as int).push(
                records@[index as int],
            ));
            assert(out@ =~= payloads_of(records@.take(index + 1)));
        }
        index += 1;
    }
    proof {
        assert(records@.take(index as int) =~= records@);
    }
    out
}

/// Invariant of a store state that the laws below rely on.
pub open spec fn store_wf<A, B, D, E>(v: EvidenceStoreView<A, B, D, E>) -> bool {
    &&& ledger_wf(v.order_counts)
    &&& ledger_wf(v.projected_counts)
    &&& v.order_counts.family == SurfaceCompatibilityCountFamily::Order
    &&& v.projected_counts.family == SurfaceCompatibilityCountFamily::Projected
    &&& unique_keys(v.pending_order)
    &&& unique_keys(v.pending_projected)
    &&& unique_keys(v.pending_producer)
}

pub struct CompatibilityEvidenceStore<A, B, D, E> {
    last_order_submission: Option<SurfaceCompatibilityOrderSubmission>,
    last_projected_submission: Option<SurfaceCompatibilityProjectedSubmission>,
    last_producer_submission: Option<SurfaceCompatibilityProducerSubmission>,
    pending_order: VecDeque<(u64, SurfaceCompatibilityOrderIssueContext)>,
    pending_projected: VecDeque<(u64, SurfaceCompatibilityProjectedIssueContext)>,
    pending_producer: VecDeque<(u64, SurfaceCompatibilityProducerIssueContext)>,
    order_cpu_success: BoundedTerminalQueue<A, SurfaceCompatibilityOrderIssueContext>,
    order_gpu_success: BoundedTerminalQueue<B, SurfaceCompatibilityOrderIssueContext>,
    order_failure: BoundedTerminalQueue<
        SurfaceOrderMeasurementFailure,
        SurfaceCompatibilityOrderIssueContext,
    >,
    projected_success: BoundedTerminalQueue<D, SurfaceCompatibilityProjectedIssueContext>,
    projected_failure: BoundedTerminalQueue<
        SurfaceProjectedDrawMeasurementFailure,
        SurfaceCompatibilityProjectedIssueContext,
    >,
    producer_success: ProducerTerminalQueue<E, SurfaceCompatibilityProducerIssueContext>,
    producer_failure: ProducerTerminalQueue<
        SurfaceGpuProducerMeasurementFailure,
        SurfaceCompatibilityProducerIssueContext,
    >,
    order_counts: CountLedger,
    projected_counts: CountLedger,
}

impl<A, B, D, E> View for CompatibilityEvidenceStore<A, B, D, E> {
    type V = EvidenceStoreView<A, B, D, E>;

    closed spec fn view(&self) -> EvidenceStoreView<A, B, D, E> {
        EvidenceStoreView {
            last_order: self.last_order_submission,
            last_projected: self.last_projected_submission,
            last_producer: self.last_producer_submission,
            pending_order: self.pending_order@,
            pending_projected: self.pending_projected@,
            pending_producer: self.pending_producer@,
            order_cpu_success: self.order_cpu_success@,
            order_gpu_success: self.order_gpu_success@,
            order_failure: self.order_failure@,
            projected_success: self.projected_success@,
            projected_failure: self.projected_failure@,
            producer_success: self.producer_success@,
            producer_failure: self.producer_failure@,
            order_counts: self.order_counts@,
            projected_counts: self.projected_counts@,
        }
    }
}

impl<A: Copy, B: Copy, D: Copy, E: Copy> CompatibilityEvidenceStore<A, B, D, E> {
    pub closed spec fn wf(&self) -> bool {
        &&& self.order_cpu_success.wf()
        &&& self.order_gpu_success.wf()
        &&& self.order_failure.wf()
        &&& self.projected_success.wf()
        &&& self.projected_failure.wf()
        &&& self.producer_success.wf()
        &&& self.producer_failure.wf()
        &&& self.order_counts.wf()
        &&& self.projected_counts.wf()
        &&& unique_keys(self.pending_order@)
        &&& unique_keys(self.pending_projected@)
        &&& unique_keys(self.pending_producer@)
        &&& self.order_counts@.family == SurfaceCompatibilityCountFamily::Order
        &&& self.projected_counts@.family == SurfaceCompatibilityCountFamily::Projected
    }

    /// A well-formed store has a well-formed view.
    pub proof fn lemma_view_wf(&self)
        requires
            self.wf(),
        ensures
            store_wf(self@),
    {
    }

    pub fn new() -> (s: Self)
        ensures
            s.wf(),
            s@.last_order is None,
            s@.last_projected is None,
            s@.last_producer is None,
            s@.pending_order.len() == 0,
            s@.pending_projected.len() == 0,
            s@.pending_producer.len() == 0,
            s@.order_cpu_success.len() == 0,
            s@.order_gpu_success.len() == 0,
            s@.order_failure.len() == 0,
            s@.projected_success.len() == 0,
            s@.projected_failure.len() == 0,
            s@.producer_success.len() == 0,
            s@.producer_failure.len() == 0,
            s@.order_counts.family == SurfaceCompatibilityCountFamily::Order,
            s@.projected_counts.family == SurfaceCompatibilityCountFamily::Projected,
            s@.order_counts.capacity == ORDER_COUNT_CAPACITY,
            s@.order_counts.ready.len() == 0,
            s@.order_counts.outcomes.len() == 0,
            s@.projected_counts.capacity == PROJECTED_COUNT_CAPACITY,
            s@.projected_counts.ready.len() == 0,
            s@.projected_counts.outcomes.len() == 0,
    {
        Self {
            last_order_submission: None,
            last_projected_submission: None,
            last_producer_submission: None,
            pending_order: VecDeque::new(),
            pending_projected: VecDeque::new(),
            pending_producer: VecDeque::new(),
            order_cpu_success: BoundedTerminalQueue::new(),
            order_gpu_success: BoundedTerminalQueue::new(),
            order_failure: BoundedTerminalQueue::new(),
            projected_success: BoundedTerminalQueue::new(),
            projected_failure: BoundedTerminalQueue::new(),
            producer_success: ProducerTerminalQueue::new(),
            producer_failure: ProducerTerminalQueue::new(),
            order_counts: CountLedger::new(
                SurfaceCompatibilityCountFamily::Order,
                ORDER_COUNT_CAPACITY,
            ),
            projected_counts: CountLedger::new(
                SurfaceCompatibilityCountFamily::Projected,
                PROJECTED_COUNT_CAPACITY,
            ),
        }
    }

    /// Installs the submissions of a presented frame.
    pub fn observe_submissions(
        &mut self,
        order: SurfaceCompatibilityOrderSubmission,
        projected: SurfaceCompatibilityProjectedSubmission,
        producer: SurfaceCompatibilityProducerSubmission,
    )
        requires
            old(self).wf(),
        ensures
            final(self).wf(),
            final(self)@ == observe_spec(old(self)@, order, projected, producer),
    {
        self.last_order_submission = Some(order);
        self.last_projected_submission = Some(projected);
        self.last_producer_submission = Some(producer);
        match order.measurement.ticket() {
            Some(ticket) => match order.issued_context(ticket) {
                Some(issue) => {
                    self.order_counts.begin(ticket);
                    proof {
                        lemma_unique_after_replace(self.pending_order@, ticket, issue);
                    }
                    replace_pending(&mut self.pending_order, ticket, issue);
                },
                None => {},
            },
            None => {},
        }
        match projected.measurement.ticket() {
            Some(ticket) => match projected.issued_context(ticket) {
                Some(issue) => {
                    self.projected_counts.begin(ticket);
                    proof {
                        lemma_unique_after_replace(self.pending_projected@, ticket, issue);
                    }
                    replace_pending(&mut self.pending_projected, ticket, issue);
                },
                None => {},
            },
            None => {},
        }
        match producer.measurement.ticket() {
            Some(ticket) => match producer.issued_context(ticket) {
                Some(issue) => {
                    proof {
                        lemma_unique_after_replace(self.pending_producer@, ticket, issue);
                    }
                    replace_pending(&mut self.pending_producer, ticket, issue);
                },
                None => {},
            },
            None => {},
        }
    }

    /// The latest submission of `channel`.
    pub fn submission(&self, channel: SurfaceCompatibilityChannel) -> (r: Option<
        SurfaceCompatibilitySubmission,
    >)
        ensures
            r == match channel {
                SurfaceCompatibilityChannel::Order => match self@.last_order {
                    Some(s) => Some(SurfaceCompatibilitySubmission::Order(s)),
                    None => None,
                },
                SurfaceCompatibilityChannel::Projected => match self@.last_projected {
                    Some(s) => Some(SurfaceCompatibilitySubmission::Projected(s)),
                    None => None,
                },
                SurfaceCompatibilityChannel::Producer => match self@.last_producer {
                    Some(s) => Some(SurfaceCompatibilitySubmission::Producer(s)),
                    None => None,
                },
            },
    {
        match channel {
            SurfaceCompatibilityChannel::Order => match self.last_order_submission {
                Some(s) => Some(SurfaceCompatibilitySubmission::Order(s)),
                None => None,
            },
            SurfaceCompatibilityChannel::Projected => match self.last_projected_submission {
                Some(s) => Some(SurfaceCompatibilitySubmission::Projected(s)),
                None => None,
            },
            SurfaceCompatibilityChannel::Producer => match self.last_producer_submission {
                Some(s) => Some(SurfaceCompatibilitySubmission::Producer(s)),
                None => None,
            },
        }
    }

    /// Publishes a CPU-order success with its counts.
    pub fn publish_cpu_order(&mut self, counts: SurfaceCompatibilityCounts, measurement: A)
        requires
            old(self).wf(),
            counts.family == SurfaceCompatibilityCountFamily::Order,
        ensures
            final(self).wf(),
            final(self)@ == publish_cpu_order_spec(old(self)@, counts, measurement),
    {
        proof {
            lemma_first_key_index(self.pending_order@, counts.ticket);
            if has_key(self.pending_order@, counts.ticket) {
                lemma_unique_after_remove(self.pending_order@, first_key_index(self.pending_order@, counts.ticket)->0);
            }
        }
        match take_pending(&mut self.pending_order, counts.ticket) {
            Some(issue) => {
                self.order_counts.publish(counts);
                self.order_cpu_success.push(measurement, issue);
            },
            None => {},
        }
    }

    /// Publishes a GPU-order success with its counts.
    pub fn publish_gpu_order(&mut self, counts: SurfaceCompatibilityCounts, measurement: B)
        requires
            old(self).wf(),
            counts.family == SurfaceCompatibilityCountFamily::Order,
        ensures
            final(self).wf(),
            final(self)@ == publish_gpu_order_spec(old(self)@, counts, measurement),
    {
        proof {
            lemma_first_key_index(self.pending_order@, counts.ticket);
            if has_key(self.pending_order@, counts.ticket) {
                lemma_unique_after_remove(self.pending_order@, first_key_index(self.pending_order@, counts.ticket)->0);
            }
        }
        match take_pending(&mut self.pending_order, counts.ticket) {
            Some(issue) => {
                self.order_counts.publish(counts);
                self.order_gpu_success.push(measurement, issue);
            },
            None => {},
        }
    }

    pub fn publish_order_failure(&mut self, failure: SurfaceOrderMeasurementFailure)
        requires
            old(self).wf(),
        ensures
            final(self).wf(),
            final(self)@ == publish_order_failure_spec(old(self)@, failure),
    {
        proof {
            lemma_first_key_index(self.pending_order@, failure.ticket);
            if has_key(self.pending_order@, failure.ticket) {
                lemma_unique_after_remove(self.pending_order@, first_key_index(self.pending_order@, failure.ticket)->0);
            }
        }
        match take_pending(&mut self.pending_order, failure.ticket) {
            Some(issue) => {
                self.order_counts.fail(failure.ticket);
                self.order_failure.push(failure, issue);
            },
            None => {},
        }
    }

    /// Publishes a projected-draw success with its counts.
    pub fn publish_projected_success(&mut self, counts: SurfaceCompatibilityCounts, measurement: D)
        requires
            old(self).wf(),
            counts.family == SurfaceCompatibilityCountFamily::Projected,
        ensures
            final(self).wf(),
            final(self)@ == publish_projected_success_spec(old(self)@, counts, measurement),
    {
        proof {
            lemma_first_key_index(self.pending_projected@, counts.ticket);
            if has_key(self.pending_projected@, counts.ticket) {
                lemma_unique_after_remove(self.pending_projected@, first_key_index(self.pending_projected@, counts.ticket)->0);
            }
        }
        match take_pending(&mut self.pending_projected, counts.ticket) {
            Some(issue) => {
                self.projected_counts.publish(counts);
                self.projected_success.push(measurement, issue);
            },
            None => {},
        }
    }

    pub fn publish_projected_failure(&mut self, failure: SurfaceProjectedDrawMeasurementFailure)
        requires
            old(self).wf(),
        ensures
            final(self).wf(),
            final(self)@ == publish_projected_failure_spec(old(self)@, failure),
    {
        proof {
            lemma_first_key_index(self.pending_projected@, failure.ticket);
            if has_key(self.pending_projected@, failure.ticket) {
                lemma_unique_after_remove(self.pending_projected@, first_key_index(self.pending_projected@, failure.ticket)->0);
            }
        }
        match take_pending(&mut self.pending_projected, failure.ticket) {
            Some(issue) => {
                self.projected_counts.fail(failure.ticket);
                self.projected_failure.push(failure, issue);
            },
            None => {},
        }
    }

    /// Publishes a GPU-producer success of `ticket`.
    pub fn publish_producer_success(&mut self, ticket: u64, measurement: E)
        requires
            old(self).wf(),
            old(self)@.producer_success.len() < usize::MAX - 1,
        ensures
            final(self).wf(),
            final(self)@ == publish_producer_success_spec(old(self)@, ticket, measurement),
    {
        proof {
            lemma_first_key_index(self.pending_producer@, ticket);
            if has_key(self.pending_producer@, ticket) {
                lemma_unique_after_remove(self.pending_producer@, first_key_index(self.pending_producer@, ticket)->0);
            }
        }
        match take_pending(&mut self.pending_producer, ticket) {
            Some(issue) => {
                self.producer_success.push(measurement, issue);
            },
            None => {},
        }
    }

    pub fn publish_producer_failure(&mut self, failure: SurfaceGpuProducerMeasurementFailure)
        requires
            old(self).wf(),
            old(self)@.producer_failure.len() < usize::MAX - 1,
        ensures
            final(self).wf(),
            final(self)@ == publish_producer_failure_spec(old(self)@, failure),
    {
        proof {
            lemma_first_key_index(self.pending_producer@, failure.ticket);
            if has_key(self.pending_producer@, failure.ticket) {
                lemma_unique_after_remove(self.pending_producer@, first_key_index(self.pending_producer@, failure.ticket)->0);
            }
        }
        match take_pending(&mut self.pending_producer, failure.ticket) {
            Some(issue) => {
                self.producer_failure.push(failure, issue);
            },
            None => {},
        }
    }

    pub fn terminal_is_empty(&self, selector: SurfaceCompatibilityTerminalSelector) -> (r: bool)
        requires
            self.wf(),
        ensures
            r == terminal_is_empty_spec(self@, selector),
    {
        match selector {
            SurfaceCompatibilityTerminalSelector::OrderCpuSuccess => self.order_cpu_success.is_empty(),
            SurfaceCompatibilityTerminalSelector::OrderGpuSuccess => self.order_gpu_success.is_empty(),
            SurfaceCompatibilityTerminalSelector::OrderFailure => self.order_failure.is_empty(),
            SurfaceCompatibilityTerminalSelector::ProjectedSuccess => self.projected_success.is_empty(),
            SurfaceCompatibilityTerminalSelector::ProjectedFailure => self.projected_failure.is_empty(),
            SurfaceCompatibilityTerminalSelector::ProducerSuccess => {
                self.producer_success.compatibility_is_empty()
            },
            SurfaceCompatibilityTerminalSelector::ProducerFailure => {
                self.producer_failure.compatibility_is_empty()
            },
        }
    }

    /// Delivers the oldest receipt of the queue named by `selector`.
    pub fn poll_terminal(&mut self, selector: SurfaceCompatibilityTerminalSelector) -> (r:
        SurfaceCompatibilityTerminalPoll<A, B, D, E>)
        requires
            old(self).wf(),
        ensures
            final(self).wf(),
            r == poll_result_spec(old(self)@, selector),
            final(self)@ == poll_state_spec(old(self)@, selector),
    {
        let terminal = match selector {
            SurfaceCompatibilityTerminalSelector::OrderCpuSuccess => match self.order_cpu_success.pop() {
                Some(record) => Some(SurfaceCompatibilityTerminal::OrderCpuSuccess(record)),
                None => None,
            },
            SurfaceCompatibilityTerminalSelector::OrderGpuSuccess => match self.order_gpu_success.pop() {
                Some(record) => Some(SurfaceCompatibilityTerminal::OrderGpuSuccess(record)),
                None => None,
            },
            SurfaceCompatibilityTerminalSelector::OrderFailure => match self.order_failure.pop() {
                Some(record) => Some(
                    SurfaceCompatibilityTerminal::OrderFailure(
                        SurfaceCompatibilityOrderFailure::from_terminal(record),
                    ),
                ),
                None => None,
            },
            SurfaceCompatibilityTerminalSelector::ProjectedSuccess => match self.projected_success.pop() {
                Some(record) => Some(SurfaceCompatibilityTerminal::ProjectedSuccess(record)),
                None => None,
            },
            SurfaceCompatibilityTerminalSelector::ProjectedFailure => match self.projected_failure.pop() {
                Some(record) => Some(
                    SurfaceCompatibilityTerminal::ProjectedFailure(
                        SurfaceCompatibilityProjectedFailure::from_terminal(record),
                    ),
                ),
                None => None,
            },
            SurfaceCompatibilityTerminalSelector::ProducerSuccess => match self.producer_success.poll() {
                Some(record) => Some(SurfaceCompatibilityTerminal::ProducerSuccess(record)),
                None => None,
            },
            SurfaceCompatibilityTerminalSelector::ProducerFailure => match self.producer_failure.poll() {
                Some(record) => Some(
                    SurfaceCompatibilityTerminal::ProducerFailure(
                        SurfaceCompatibilityProducerFailure::from_terminal(record),
                    ),
                ),
                None => None,
            },
        };
        match terminal {
            Some(terminal) => SurfaceCompatibilityTerminalPoll::Ready(terminal),
            None => SurfaceCompatibilityTerminalPoll::Unavailable(
                SurfaceCompatibilityTerminalUnavailable::Empty,
            ),
        }
    }

    /// Takes the counts of `ticket` from the ledger of `family`.
    pub fn take_counts(&mut self, family: SurfaceCompatibilityCountFamily, ticket: u64) -> (r:
        SurfaceCompatibilityCountsTake)
        requires
            old(self).wf(),
        ensures
            final(self).wf(),
            r == take_counts_result_spec(old(self)@, family, ticket),
            final(self)@ == take_counts_state_spec(old(self)@, family, ticket),
    {
        match family {
            SurfaceCompatibilityCountFamily::Order => {
                proof {
                    lemma_first_key_index(self.pending_order@, ticket);
                }
                let pending = position_of_ticket(&self.pending_order, ticket).is_some();
                self.order_counts.take(ticket, pending)
            },
            SurfaceCompatibilityCountFamily::Projected => {
                proof {
                    lemma_first_key_index(self.pending_projected@, ticket);
                }
                let pending = position_of_ticket(&self.pending_projected, ticket).is_some();
                self.projected_counts.take(ticket, pending)
            },
        }
    }

    /// Drains CPU-order successes for callers that read receipts in bulk.
    pub fn drain_cpu_order(&mut self) -> (r: Vec<A>)
        requires
            old(self).wf(),
        ensures
            final(self).wf(),
            r@ == payloads_of(old(self)@.order_cpu_success),
            final(self)@ == (EvidenceStoreView {
                order_cpu_success: Seq::<AtomicTerminal<A, OrderIssue>>::empty(),
                ..old(self)@
            }),
    {
        payloads(self.order_cpu_success.drain())
    }

    pub fn drain_gpu_order(&mut self) -> (r: Vec<B>)
        requires
            old(self).wf(),
        ensures
            final(self).wf(),
            r@ == payloads_of(old(self)@.order_gpu_success),
            final(self)@ == (EvidenceStoreView {
                order_gpu_success: Seq::<AtomicTerminal<B, OrderIssue>>::empty(),
                ..old(self)@
            }),
    {
        payloads(self.order_gpu_success.drain())
    }

    pub fn drain_order_failures(&mut self) -> (r: Vec<SurfaceOrderMeasurementFailure>)
        requires
            old(self).wf(),
        ensures
            final(self).wf(),
            r@ == payloads_of(old(self)@.order_failure),
            final(self)@ == (EvidenceStoreView {
                order_failure: Seq::<
                    AtomicTerminal<SurfaceOrderMeasurementFailure, OrderIssue>,
                >::empty(),
                ..old(self)@
            }),
    {
        payloads(self.order_failure.drain())
    }

    pub fn drain_projected_successes(&mut self) -> (r: Vec<D>)
        requires
            old(self).wf(),
        ensures
            final(self).wf(),
            r@ == payloads_of(old(self)@.projected_success),
            final(self)@ == (EvidenceStoreView {
                projected_success: Seq::<AtomicTerminal<D, ProjectedIssue>>::empty(),
                ..old(self)@
            }),
    {
        payloads(self.projected_success.drain())
    }

    pub fn drain_projected_failures(&mut self) -> (r: Vec<SurfaceProjectedDrawMeasurementFailure>)
        requires
            old(self).wf(),
        ensures
            final(self).wf(),
            r@ == payloads_of(old(self)@.projected_failure),
            final(self)@ == (EvidenceStoreView {
                projected_failure: Seq::<
                    AtomicTerminal<SurfaceProjectedDrawMeasurementFailure, ProjectedIssue>,
                >::empty(),
                ..old(self)@
            }),
    {
        payloads(self.projected_failure.drain())
    }

    /// Drains every retained producer success through the lossless raw view.
    pub fn drain_producer_successes(&mut self) -> (r: Vec<E>)
        requires
            old(self).wf(),
        ensures
            final(self).wf(),
            r@ == old(self)@.producer_success.map_values(
                |e: ProducerEntry<E, ProducerIssue>| e.terminal.payload,
            ),
            final(self)@ == (EvidenceStoreView {
                producer_success: Seq::<ProducerEntry<E, ProducerIssue>>::empty(),
                ..old(self)@
            }),
    {
        self.producer_success.drain_raw()
    }

    pub fn drain_producer_failures(&mut self) -> (r: Vec<SurfaceGpuProducerMeasurementFailure>)
        requires
            old(self).wf(),
        ensures
            final(self).wf(),
            r@ == old(self)@.producer_failure.map_values(
                |e: ProducerEntry<SurfaceGpuProducerMeasurementFailure, ProducerIssue>|
                    e.terminal.payload,
            ),
            final(self)@ == (EvidenceStoreView {
                producer_failure: Seq::<
                    ProducerEntry<SurfaceGpuProducerMeasurementFailure, ProducerIssue>,
                >::empty(),
                ..old(self)@
            }),
    {
        self.producer_failure.drain_raw()
    }
}

proof fn lemma_remove_clears_key<C>(s: Seq<(u64, C)>, ticket: u64)
    requires
        unique_keys(s),
        has_key(s, ticket),
    ensures
        !has_key(s.remove(first_key_index(s, ticket)->0), ticket),
{
    lemma_first_key_index(s, ticket);
    let i = first_key_index(s, ticket)->0;
    let r = s.remove(i);
    if has_key(r, ticket) {
        let k = choose|k: int| 0 <= k < r.len() && r[k].0 == ticket;
        if k < i {
            assert(r[k] == s[k]);
        } else {
            assert(r[k] == s[k + 1]);
        }
    }
}

proof fn lemma_replace_is_last<C>(s: Seq<(u64, C)>, ticket: u64, value: C)
    ensures
        first_key_index(s.filter(keeps_other::<C>(ticket)).push((ticket, value)), ticket)
            == Some(s.filter(keeps_other::<C>(ticket)).len() as int),
{
    let f = s.filter(keeps_other::<C>(ticket));
    let p = f.push((ticket, value));
    crate::evidence::keyed::lemma_filter_removes_key(s, ticket);
    assert forall|j: int| 0 <= j < f.len() implies p[j].0 != ticket by {
        assert(p[j] == f[j]);
        if f[j].0 == ticket {
            assert(has_key(f, ticket));
        }
    }
    assert(crate::evidence::keyed::is_first_key_index(p, ticket, f.len() as int));
    lemma_first_key_index(p, ticket);
}

/// Each order ticket gets at most one terminal: once a CPU success of a
/// ticket is published, a repeated success (CPU or GPU) or a failure of that
/// ticket leaves the store unchanged.
pub proof fn lemma_order_ticket_terminates_once<A, B, D, E>(
    v: EvidenceStoreView<A, B, D, E>,
    counts: SurfaceCompatibilityCounts,
    measurement: A,
    again: A,
    gpu: B,
    failure: SurfaceOrderMeasurementFailure,
)
    requires
        store_wf(v),
        counts.family == SurfaceCompatibilityCountFamily::Order,
        failure.ticket == counts.ticket,
    ensures
        ({
            let v1 = publish_cpu_order_spec(v, counts, measurement);
            &&& publish_cpu_order_spec(v1, counts, again) == v1
            &&& publish_gpu_order_spec(v1, counts, gpu) == v1
            &&& publish_order_failure_spec(v1, failure) == v1
        }),
{
    lemma_first_key_index(v.pending_order, counts.ticket);
    if has_key(v.pending_order, counts.ticket) {
        lemma_remove_clears_key(v.pending_order, counts.ticket);
        let i = first_key_index(v.pending_order, counts.ticket)->0;
        lemma_first_key_index(v.pending_order.remove(i), counts.ticket);
    }
}

/// Each projected ticket gets at most one terminal: after its success, a
/// failure of the same ticket leaves the store unchanged, and after its
/// failure, a success is ignored.
pub proof fn lemma_projected_ticket_terminates_once<A, B, D, E>(
    v: EvidenceStoreView<A, B, D, E>,
    counts: SurfaceCompatibilityCounts,
    measurement: D,
    failure: SurfaceProjectedDrawMeasurementFailure,
)
    requires
        store_wf(v),
        counts.family == SurfaceCompatibilityCountFamily::Projected,
        failure.ticket == counts.ticket,
    ensures
        ({
            let v1 = publish_projected_success_spec(v, counts, measurement);
            publish_projected_failure_spec(v1, failure) == v1
        }),
        ({
            let v2 = publish_projected_failure_spec(v, failure);
            publish_projected_success_spec(v2, counts, measurement) == v2
        }),
{
    lemma_first_key_index(v.pending_projected, counts.ticket);
    if has_key(v.pending_projected, counts.ticket) {
        lemma_remove_clears_key(v.pending_projected, counts.ticket);
        let i = first_key_index(v.pending_projected, counts.ticket)->0;
        lemma_first_key_index(v.pending_projected.remove(i), counts.ticket);
    }
}

/// Each producer ticket gets at most one terminal.
pub proof fn lemma_producer_ticket_terminates_once<A, B, D, E>(
    v: EvidenceStoreView<A, B, D, E>,
    ticket: u64,
    measurement: E,
    again: E,
    failure: SurfaceGpuProducerMeasurementFailure,
)
    requires
        store_wf(v),
        failure.ticket == ticket,
    ensures
        ({
            let v1 = publish_producer_success_spec(v, ticket, measurement);
            &&& publish_producer_success_spec(v1, ticket, again) == v1
            &&& publish_producer_failure_spec(v1, failure) == v1
        }),
{
    lemma_first_key_index(v.pending_producer, ticket);
    if has_key(v.pending_producer, ticket) {
        lemma_remove_clears_key(v.pending_producer, ticket);
        let i = first_key_index(v.pending_producer, ticket)->0;
        lemma_first_key_index(v.pending_producer.remove(i), ticket);
    }
}

/// A ticket just issued by a presented frame has pending counts: stale
/// counts of an earlier use of the same ticket number are never returned.
pub proof fn lemma_issued_ticket_counts_are_pending<A, B, D, E>(
    v: EvidenceStoreView<A, B, D, E>,
    order: SurfaceCompatibilityOrderSubmission,
    projected: SurfaceCompatibilityProjectedSubmission,
    producer: SurfaceCompatibilityProducerSubmission,
    ticket: u64,
)
    requires
        store_wf(v),
        order.measurement.spec_ticket() == Some(ticket),
    ensures
        take_counts_result_spec(
            observe_spec(v, order, projected, producer),
            SurfaceCompatibilityCountFamily::Order,
            ticket,
        ) == SurfaceCompatibilityCountsTake::Unavailable(
            crate::evidence::compatibility::SurfaceCompatibilityCountsUnavailable {
                family: SurfaceCompatibilityCountFamily::Order,
                ticket,
                reason: crate::evidence::compatibility::SurfaceCompatibilityCountsUnavailableReason::Pending,
            },
        ),
{
    let ctx = order.spec_issued_context(ticket)->0;
    lemma_replace_is_last(v.pending_order, ticket, ctx);
    crate::evidence::ledger::lemma_begin_then_take_is_pending(v.order_counts, ticket, true);
}

/// Counts published with an order success are what the next take of their
/// ticket returns.
pub proof fn lemma_published_order_counts_are_ready<A, B, D, E>(
    v: EvidenceStoreView<A, B, D, E>,
    counts: SurfaceCompatibilityCounts,
    measurement: A,
)
    requires
        store_wf(v),
        counts.family == SurfaceCompatibilityCountFamily::Order,
        has_key(v.pending_order, counts.ticket),
    ensures
        take_counts_result_spec(
            publish_cpu_order_spec(v, counts, measurement),
            SurfaceCompatibilityCountFamily::Order,
            counts.ticket,
        ) == SurfaceCompatibilityCountsTake::Ready(counts),
{
    lemma_first_key_index(v.pending_order, counts.ticket);
    let p = has_key(
        publish_cpu_order_spec(v, counts, measurement).pending_order,
        counts.ticket,
    );
    crate::evidence::ledger::lemma_publish_then_take_is_ready(v.order_counts, counts, p);
}

/// A failed order measurement is terminal without usable counts.
pub proof fn lemma_failed_order_has_no_counts<A, B, D, E>(
    v: EvidenceStoreView<A, B, D, E>,
    failure: SurfaceOrderMeasurementFailure,
)
    requires
        store_wf(v),
        has_key(v.pending_order, failure.ticket),
    ensures
        take_counts_result_spec(
            publish_order_failure_spec(v, failure),
            SurfaceCompatibilityCountFamily::Order,
            failure.ticket,
        ) == SurfaceCompatibilityCountsTake::Unavailable(
            crate::evidence::compatibility::SurfaceCompatibilityCountsUnavailable {
                family: SurfaceCompatibilityCountFamily::Order,
                ticket: failure.ticket,
                reason: crate::evidence::compatibility::SurfaceCompatibilityCountsUnavailableReason::Failed,
            },
        ),
{
    lemma_first_key_index(v.pending_order, failure.ticket);
    let p = has_key(publish_order_failure_spec(v, failure).pending_order, failure.ticket);
    crate::evidence::ledger::lemma_fail_then_take_is_failed(v.order_counts, failure.ticket, p);
}

/// A terminal receipt is joined to the issue context of the submission that
/// issued its ticket: publishing a CPU-order success right after the frame
/// that issued the ticket appends a receipt carrying exactly that context.
pub proof fn lemma_terminal_carries_issue_context<A, B, D, E>(
    v: EvidenceStoreView<A, B, D, E>,
    order: SurfaceCompatibilityOrderSubmission,
    projected: SurfaceCompatibilityProjectedSubmission,
    producer: SurfaceCompatibilityProducerSubmission,
    counts: SurfaceCompatibilityCounts,
    measurement: A,
)
    requires
        store_wf(v),
        order.measurement.spec_ticket() == Some(counts.ticket),
    ensures
        ({
            let v1 = observe_spec(v, order, projected, producer);
            let v2 = publish_cpu_order_spec(v1, counts, measurement);
            &&& v2.order_cpu_success.last().issue == order.spec_issued_context(counts.ticket)->0
            &&& v2.order_cpu_success.last().payload == measurement
            &&& !has_key(v2.pending_order, counts.ticket)
        }),
{
    let t = counts.ticket;
    let ctx = order.spec_issued_context(t)->0;
    lemma_replace_is_last(v.pending_order, t, ctx);
    let v1 = observe_spec(v, order, projected, producer);
    crate::evidence::keyed::lemma_unique_after_replace(v.pending_order, t, ctx);
    lemma_remove_clears_key(v1.pending_order, t);
}

} // verus!
