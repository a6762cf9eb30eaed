//! What an order-measurement ring reports over any run of operations.
//!
//! A run interleaves reservations, invalidations and polls, with the slot
//! states and completion times the device reports at each step taken as
//! arbitrary inputs. Over every such run, each issued ticket is reported at
//! most once, as a completion or as a failure, and a sample reserved before
//! an invalidation is never reported as completed after it.

use crate::evidence::receipts::{
    SurfaceOrderMeasurementFailure, SurfaceOrderMeasurementFailureReason,
};
use crate::gpu_telemetry::{LAST_ORDER_TICKET, RING_SLOTS};
use crate::order_ring::{
    CompletedSlot, OrderRingView, TicketKeyed, insert_by_ticket, sort_by_ticket_spec, RingSlot, RingSlotState, emits_completion, emits_failure,
    invalidate_spec, invalidates, invalidation_failures, lemma_completions_are_current_and_first,
    lemma_reservation_ticket_in_namespace, order_ring_wf, poll_completions, poll_failures,
    poll_spec, reserve_spec,
};
use vstd::prelude::*;

verus! {

/// No nonzero ticket occurs twice.
pub open spec fn once_each(tickets: Seq<u64>) -> bool {
    forall|i: int, j: int|
        0 <= i < j < tickets.len() && tickets[i] != 0 ==> #[trigger] tickets[i] != #[trigger] tickets[j]
}

/// Whether the sample in slot `i` has not been reported yet.
pub open spec fn live(v: OrderRingView, i: int) -> bool {
    !v.slots[i].terminal_reported
}

/// Whether `t` is the ticket of a slot below `n` that an invalidation fails.
pub open spec fn invalidated_slot_ticket(
    slots: Seq<RingSlot>,
    states: Seq<RingSlotState>,
    n: int,
    t: u64,
) -> bool {
    exists|j: int| 0 <= j < n && invalidates(slots[j], states[j]) && t == #[trigger] slots[j].ticket
}

/// Whether `t` is the ticket of a slot below `n` that a poll fails.
pub open spec fn failed_slot_ticket(
    slots: Seq<RingSlot>,
    states: Seq<RingSlotState>,
    n: int,
    t: u64,
) -> bool {
    exists|j: int| 0 <= j < n && emits_failure(slots[j], states[j]) && t == #[trigger] slots[j].ticket
}

proof fn lemma_invalidation_failures_from(slots: Seq<RingSlot>, states: Seq<RingSlotState>, n: int)
    requires
        0 <= n <= slots.len(),
        n <= states.len(),
    ensures
        forall|k: int|
            0 <= k < invalidation_failures(slots, states, n).len() ==> invalidated_slot_ticket(
                slots,
                states,
                n,
                #[trigger] invalidation_failures(slots, states, n)[k].ticket,
            ),
        (forall|a: int, b: int|
            0 <= a < n && 0 <= b < n && a != b && invalidates(slots[a], states[a]) && invalidates(
                slots[b],
                states[b],
            ) && slots[a].ticket != 0 ==> #[trigger] slots[a].ticket != #[trigger] slots[b].ticket)
            ==> once_each(
            invalidation_failures(slots, states, n).map_values(
                |f: SurfaceOrderMeasurementFailure| f.ticket,
            ),
        ),
    decreases n,
{
    if n > 0 {
        lemma_invalidation_failures_from(slots, states, n - 1);
        let prev = invalidation_failures(slots, states, n - 1);
        let all = invalidation_failures(slots, states, n);
        assert forall|k: int| 0 <= k < all.len() implies invalidated_slot_ticket(
            slots,
            states,
            n,
            #[trigger] all[k].ticket,
        ) by {
            if k < prev.len() {
                assert(all[k] == prev[k]);
                assert(invalidated_slot_ticket(slots, states, n - 1, prev[k].ticket));
                let j = choose|j: int|
                    0 <= j < n - 1 && invalidates(slots[j], states[j]) && prev[k].ticket
                        == slots[j].ticket;
                assert(0 <= j < n && invalidates(slots[j], states[j]) && all[k].ticket
                    == slots[j].ticket);
            } else {
                assert(all =~= prev + seq![all[k]]);
                assert(0 <= n - 1 < n && all[k].ticket == slots[n - 1].ticket);
            }
        }
        if forall|a: int, b: int|
            0 <= a < n && 0 <= b < n && a != b && invalidates(slots[a], states[a]) && invalidates(
                slots[b],
                states[b],
            ) && slots[a].ticket != 0 ==> #[trigger] slots[a].ticket != #[trigger] slots[b].ticket {
            let t = all.map_values(|f: SurfaceOrderMeasurementFailure| f.ticket);
            let tp = prev.map_values(|f: SurfaceOrderMeasurementFailure| f.ticket);
            assert forall|i: int, j: int| 0 <= i < j < t.len() && t[i] != 0 implies #[trigger] t[i]
                != #[trigger] t[j] by {
                if j < prev.len() {
                    assert(t[i] == tp[i] && t[j] == tp[j]);
                } else {
                    assert(all[i] == prev[i]);
                    assert(invalidated_slot_ticket(slots, states, n - 1, prev[i].ticket));
                    let a = choose|a: int|
                        0 <= a < n - 1 && invalidates(slots[a], states[a]) && prev[i].ticket
                            == slots[a].ticket;
                    assert(t[j] == slots[n - 1].ticket);
                    assert(slots[a].ticket != slots[n - 1].ticket);
                }
            }
        }
    }
}

proof fn lemma_poll_failures_from(slots: Seq<RingSlot>, states: Seq<RingSlotState>, n: int)
    requires
        0 <= n <= slots.len(),
        n <= states.len(),
    ensures
        forall|k: int|
            0 <= k < poll_failures(slots, states, n).len() ==> failed_slot_ticket(
                slots,
                states,
                n,
                #[trigger] poll_failures(slots, states, n)[k].ticket,
            ),
        (forall|a: int, b: int|
            0 <= a < n && 0 <= b < n && a != b && emits_failure(slots[a], states[a])
                && emits_failure(slots[b], states[b]) && slots[a].ticket != 0
                ==> #[trigger] slots[a].ticket != #[trigger] slots[b].ticket) ==> once_each(
            poll_failures(slots, states, n).map_values(|f: SurfaceOrderMeasurementFailure| f.ticket),
        ),
    decreases n,
{
    if n > 0 {
        lemma_poll_failures_from(slots, states, n - 1);
        let prev = poll_failures(slots, states, n - 1);
        let all = poll_failures(slots, states, n);
        assert forall|k: int| 0 <= k < all.len() implies failed_slot_ticket(
            slots,
            states,
            n,
            #[trigger] all[k].ticket,
        ) by {
            if k < prev.len() {
                assert(all[k] == prev[k]);
                assert(failed_slot_ticket(slots, states, n - 1, prev[k].ticket));
                let j = choose|j: int|
                    0 <= j < n - 1 && emits_failure(slots[j], states[j]) && prev[k].ticket
                        == slots[j].ticket;
                assert(0 <= j < n && emits_failure(slots[j], states[j]) && all[k].ticket
                    == slots[j].ticket);
            } else {
                assert(all =~= prev + seq![all[k]]);
                assert(0 <= n - 1 < n && all[k].ticket == slots[n - 1].ticket);
            }
        }
        if forall|a: int, b: int|
            0 <= a < n && 0 <= b < n && a != b && emits_failure(slots[a], states[a])
                && emits_failure(slots[b], states[b]) && slots[a].ticket != 0
                ==> #[trigger] slots[a].ticket != #[trigger] slots[b].ticket {
            let t = all.map_values(|f: SurfaceOrderMeasurementFailure| f.ticket);
            let tp = prev.map_values(|f: SurfaceOrderMeasurementFailure| f.ticket);
            assert forall|i: int, j: int| 0 <= i < j < t.len() && t[i] != 0 implies #[trigger] t[i]
                != #[trigger] t[j] by {
                if j < prev.len() {
                    assert(t[i] == tp[i] && t[j] == tp[j]);
                } else {
                    assert(all[i] == prev[i]);
                    assert(failed_slot_ticket(slots, states, n - 1, prev[i].ticket));
                    let a = choose|a: int|
                        0 <= a < n - 1 && emits_failure(slots[a], states[a]) && prev[i].ticket
                            == slots[a].ticket;
                    assert(t[j] == slots[n - 1].ticket);
                    assert(slots[a].ticket != slots[n - 1].ticket);
                }
            }
        }
    }
}

proof fn lemma_poll_completions_once(
    v: OrderRingView,
    states: Seq<RingSlotState>,
    ready: Seq<bool>,
    n: int,
)
    requires
        order_ring_wf(v),
        states.len() == RING_SLOTS,
        ready.len() == RING_SLOTS,
        0 <= n <= RING_SLOTS,
        forall|a: int, b: int|
            0 <= a < RING_SLOTS && 0 <= b < RING_SLOTS && a != b && live(v, a) && live(v, b)
                && v.slots[a].ticket != 0 ==> #[trigger] v.slots[a].ticket
                != #[trigger] v.slots[b].ticket,
    ensures
        once_each(
            poll_completions(v.slots, states, ready, v.generation, n).map_values(
                |c: CompletedSlot| c.ticket,
            ),
        ),
    decreases n,
{
    if n > 0 {
        lemma_poll_completions_once(v, states, ready, n - 1);
        lemma_completions_are_current_and_first(v, states, ready, n - 1);
        let prev = poll_completions(v.slots, states, ready, v.generation, n - 1);
        let all = poll_completions(v.slots, states, ready, v.generation, n);
        let t = all.map_values(|c: CompletedSlot| c.ticket);
        let tp = prev.map_values(|c: CompletedSlot| c.ticket);
        assert forall|i: int, j: int| 0 <= i < j < t.len() && t[i] != 0 implies #[trigger] t[i]
            != #[trigger] t[j] by {
            if j < prev.len() {
                assert(t[i] == tp[i] && t[j] == tp[j]);
            } else {
                assert(all[i] == prev[i]);
                let c = prev[i];
                assert(0 <= c.slot < n - 1);
                assert(t[j] == v.slots[n - 1].ticket);
                assert(v.slots[c.slot as int].ticket != v.slots[n - 1].ticket);
            }
        }
    }
}

/// One operation on a ring, with what the device reported for it: the
/// reservation of `slot` (whichever idle slot `begin_sample` picked), an
/// invalidation, or a poll.
pub enum RingStep {
    Begin { slot: nat, camera_revision: u64 },
    Invalidate { states: Seq<RingSlotState> },
    Poll { states: Seq<RingSlotState>, ready: Seq<bool> },
}

/// The ring a fresh `OrderTelemetryRing::new(first_ticket)` models.
pub open spec fn fresh_ring(first_ticket: u64) -> OrderRingView {
    OrderRingView {
        slots: Seq::new(
            RING_SLOTS as nat,
            |i: int| RingSlot { ticket: 0, generation: 0, camera_revision: 0, terminal_reported: false },
        ),
        next_slot: 0,
        next_ticket: first_ticket,
        first_ticket,
        generation: 1,
        pending_failures: Seq::empty(),
    }
}

/// Whether `step` is one the ring's functions accept in state `v`, with
/// tickets that have not wrapped around their namespace.
pub open spec fn step_admitted(v: OrderRingView, step: RingStep) -> bool {
    match step {
        RingStep::Begin { slot, .. } => slot < RING_SLOTS && v.next_ticket + 2 <= LAST_ORDER_TICKET,
        RingStep::Invalidate { states } => states.len() == RING_SLOTS,
        RingStep::Poll { states, ready } => states.len() == RING_SLOTS && ready.len() == RING_SLOTS,
    }
}

pub open spec fn ring_step(v: OrderRingView, step: RingStep) -> OrderRingView {
    match step {
        RingStep::Begin { slot, camera_revision } => reserve_spec(v, slot, camera_revision),
        RingStep::Invalidate { states } => invalidate_spec(v, states),
        RingStep::Poll { states, ready } => poll_spec(v, states, ready),
    }
}

/// Tickets of the receipts one poll decides, before it orders them: the
/// failures of the last invalidations, the readback failures and the
/// completions.
pub open spec fn poll_decided_tickets(
    v: OrderRingView,
    states: Seq<RingSlotState>,
    ready: Seq<bool>,
) -> Seq<u64> {
    v.pending_failures.map_values(|f: SurfaceOrderMeasurementFailure| f.ticket) + poll_failures(
        v.slots,
        states,
        RING_SLOTS as int,
    ).map_values(|f: SurfaceOrderMeasurementFailure| f.ticket) + poll_completions(
        v.slots,
        states,
        ready,
        v.generation,
        RING_SLOTS as int,
    ).map_values(|c: CompletedSlot| c.ticket)
}

/// Tickets of the receipts one poll hands back, in the order it hands them
/// back: its failures in ticket order, then its completions in ticket order
/// (what `OrderTelemetryRing::poll` returns as `failures` and `completed`).
pub open spec fn poll_receipt_tickets(
    v: OrderRingView,
    states: Seq<RingSlotState>,
    ready: Seq<bool>,
) -> Seq<u64> {
    sort_by_ticket_spec(
        v.pending_failures + poll_failures(v.slots, states, RING_SLOTS as int),
    ).map_values(|f: SurfaceOrderMeasurementFailure| f.ticket) + sort_by_ticket_spec(
        poll_completions(v.slots, states, ready, v.generation, RING_SLOTS as int),
    ).map_values(|c: CompletedSlot| c.ticket)
}

pub open spec fn step_receipts(v: OrderRingView, step: RingStep) -> Seq<u64> {
    match step {
        RingStep::Poll { states, ready } => poll_receipt_tickets(v, states, ready),
        _ => Seq::empty(),
    }
}

/// The ring after running `steps` from `v`.
pub open spec fn run_ring(v: OrderRingView, steps: Seq<RingStep>) -> OrderRingView
    decreases steps.len(),
{
    if steps.len() == 0 {
        v
    } else {
        ring_step(run_ring(v, steps.drop_last()), steps.last())
    }
}

/// Tickets of every receipt reported while running `steps` from `v`, in
/// the order the polls reported them.
pub open spec fn run_receipts(v: OrderRingView, steps: Seq<RingStep>) -> Seq<u64>
    decreases steps.len(),
{
    if steps.len() == 0 {
        Seq::empty()
    } else {
        run_receipts(v, steps.drop_last()) + step_receipts(
            run_ring(v, steps.drop_last()),
            steps.last(),
        )
    }
}

pub open spec fn run_admitted(v: OrderRingView, steps: Seq<RingStep>) -> bool
    decreases steps.len(),
{
    if steps.len() == 0 {
        true
    } else {
        run_admitted(v, steps.drop_last()) && step_admitted(
            run_ring(v, steps.drop_last()),
            steps.last(),
        )
    }
}

/// What a run keeps true: every ticket held, pending or reported is below
/// the next ticket; the samples not yet reported hold distinct tickets, none
/// of them pending or reported; pending failures are distinct and not
/// reported; and no ticket was reported twice.
pub open spec fn trace_inv(v: OrderRingView, e: Seq<u64>) -> bool {
    &&& order_ring_wf(v)
    &&& forall|i: int| 0 <= i < RING_SLOTS ==> (#[trigger] v.slots[i]).ticket < v.next_ticket
    &&& forall|k: int| 0 <= k < e.len() ==> #[trigger] e[k] < v.next_ticket
    &&& forall|k: int|
        0 <= k < v.pending_failures.len() ==> (#[trigger] v.pending_failures[k]).ticket
            < v.next_ticket
    &&& forall|a: int, b: int|
        0 <= a < RING_SLOTS && 0 <= b < RING_SLOTS && a != b && live(v, a) && live(v, b)
            && v.slots[a].ticket != 0 ==> #[trigger] v.slots[a].ticket != #[trigger] v.slots[b].ticket
    &&& forall|a: int, k: int|
        0 <= a < RING_SLOTS && 0 <= k < e.len() && live(v, a) && v.slots[a].ticket != 0
            ==> #[trigger] v.slots[a].ticket != #[trigger] e[k]
    &&& forall|a: int, k: int|
        0 <= a < RING_SLOTS && 0 <= k < v.pending_failures.len() && live(v, a)
            && v.slots[a].ticket != 0 ==> #[trigger] v.slots[a].ticket
            != (#[trigger] v.pending_failures[k]).ticket
    &&& forall|k: int, m: int|
        0 <= k < v.pending_failures.len() && 0 <= m < e.len() && v.pending_failures[k].ticket != 0
            ==> (#[trigger] v.pending_failures[k]).ticket != #[trigger] e[m]
    &&& once_each(v.pending_failures.map_values(|f: SurfaceOrderMeasurementFailure| f.ticket))
    &&& once_each(e)
}

proof fn lemma_once_each_concat(a: Seq<u64>, b: Seq<u64>)
    requires
        once_each(a),
        once_each(b),
        forall|i: int, j: int|
            0 <= i < a.len() && 0 <= j < b.len() && a[i] != 0 ==> #[trigger] a[i] != #[trigger] b[j],
    ensures
        once_each(a + b),
{
    let c = a + b;
    assert forall|i: int, j: int| 0 <= i < j < c.len() && c[i] != 0 implies #[trigger] c[i]
        != #[trigger] c[j] by {
        if j < a.len() {
            assert(c[i] == a[i] && c[j] == a[j]);
        } else if i < a.len() {
            assert(c[i] == a[i] && c[j] == b[j - a.len()]);
        } else {
            assert(c[i] == b[i - a.len()] && c[j] == b[j - a.len()]);
        }
    }
}

proof fn lemma_begin_keeps(v: OrderRingView, e: Seq<u64>, slot: nat, camera_revision: u64)
    requires
        trace_inv(v, e),
        slot < RING_SLOTS,
        v.next_ticket + 2 <= LAST_ORDER_TICKET,
    ensures
        trace_inv(reserve_spec(v, slot, camera_revision), e),
{
    lemma_reservation_ticket_in_namespace(v, slot, camera_revision);
    let w = reserve_spec(v, slot, camera_revision);
    assert(w.next_ticket == v.next_ticket + 2);
    assert forall|i: int| 0 <= i < RING_SLOTS implies (#[trigger] w.slots[i]).ticket
        < w.next_ticket by {
        if i != slot {
            assert(w.slots[i] == v.slots[i]);
        }
    }
    assert forall|a: int, b: int|
        0 <= a < RING_SLOTS && 0 <= b < RING_SLOTS && a != b && live(w, a) && live(w, b)
            && w.slots[a].ticket != 0 implies #[trigger] w.slots[a].ticket
        != #[trigger] w.slots[b].ticket by {
        if a == slot {
            assert(w.slots[b] == v.slots[b]);
            assert(v.slots[b].ticket < v.next_ticket);
        } else if b == slot {
            assert(w.slots[a] == v.slots[a]);
            assert(v.slots[a].ticket < v.next_ticket);
        } else {
            assert(w.slots[a] == v.slots[a] && w.slots[b] == v.slots[b]);
        }
    }
    assert forall|a: int, k: int|
        0 <= a < RING_SLOTS && 0 <= k < e.len() && live(w, a) && w.slots[a].ticket != 0 implies #[trigger] w.slots[a].ticket
        != #[trigger] e[k] by {
        if a != slot {
            assert(w.slots[a] == v.slots[a]);
        } else {
            assert(e[k] < v.next_ticket);
        }
    }
    assert forall|a: int, k: int|
        0 <= a < RING_SLOTS && 0 <= k < w.pending_failures.len() && live(w, a)
            && w.slots[a].ticket != 0 implies #[trigger] w.slots[a].ticket
        != (#[trigger] w.pending_failures[k]).ticket by {
        if a != slot {
            assert(w.slots[a] == v.slots[a]);
        } else {
            assert(v.pending_failures[k].ticket < v.next_ticket);
        }
    }
}

proof fn lemma_invalidate_keeps(v: OrderRingView, e: Seq<u64>, states: Seq<RingSlotState>)
    requires
        trace_inv(v, e),
        states.len() == RING_SLOTS,
    ensures
        trace_inv(invalidate_spec(v, states), e),
{
    let w = invalidate_spec(v, states);
    let n = RING_SLOTS as int;
    let fresh = invalidation_failures(v.slots, states, n);
    let old_t = v.pending_failures.map_values(|f: SurfaceOrderMeasurementFailure| f.ticket);
    let new_t = fresh.map_values(|f: SurfaceOrderMeasurementFailure| f.ticket);
    lemma_invalidation_failures_from(v.slots, states, n);
    assert forall|i: int| 0 <= i < RING_SLOTS implies #[trigger] w.slots[i].ticket
        == v.slots[i].ticket && (live(w, i) ==> live(v, i) && states[i] == RingSlotState::Idle) by {
    }
    assert forall|k: int| 0 <= k < fresh.len() implies ({
        let t = (#[trigger] fresh[k]).ticket;
        &&& t < v.next_ticket
        &&& (t != 0 ==> forall|m: int| 0 <= m < e.len() ==> t != #[trigger] e[m])
        &&& (t != 0 ==> forall|m: int|
            0 <= m < v.pending_failures.len() ==> t != (#[trigger] v.pending_failures[m]).ticket)
        &&& (t != 0 ==> forall|a: int| 0 <= a < RING_SLOTS && live(w, a) ==> t
            != #[trigger] v.slots[a].ticket)
    }) by {
        assert(invalidated_slot_ticket(v.slots, states, n, fresh[k].ticket));
        let j = choose|j: int|
            0 <= j < n && invalidates(v.slots[j], states[j]) && fresh[k].ticket
                == #[trigger] v.slots[j].ticket;
        assert(live(v, j));
        assert forall|a: int| 0 <= a < RING_SLOTS && live(w, a) && fresh[k].ticket != 0 implies fresh[k].ticket
            != #[trigger] v.slots[a].ticket by {
            assert(w.slots[a].ticket == v.slots[a].ticket);
            assert(a != j);
        }
    }
    assert(w.pending_failures.map_values(|f: SurfaceOrderMeasurementFailure| f.ticket) =~= old_t
        + new_t);
    assert forall|i: int, j: int|
        0 <= i < old_t.len() && 0 <= j < new_t.len() && old_t[i] != 0 implies #[trigger] old_t[i]
        != #[trigger] new_t[j] by {
        assert(new_t[j] == fresh[j].ticket);
        assert(old_t[i] == v.pending_failures[i].ticket);
    }
    lemma_once_each_concat(old_t, new_t);
    assert forall|k: int| 0 <= k < w.pending_failures.len() implies (#[trigger] w.pending_failures[k]).ticket
        < w.next_ticket by {
        if k >= v.pending_failures.len() {
            assert(w.pending_failures[k] == fresh[k - v.pending_failures.len()]);
        }
    }
    assert forall|a: int, k: int|
        0 <= a < RING_SLOTS && 0 <= k < w.pending_failures.len() && live(w, a)
            && w.slots[a].ticket != 0 implies #[trigger] w.slots[a].ticket
        != (#[trigger] w.pending_failures[k]).ticket by {
        if k >= v.pending_failures.len() {
            assert(w.pending_failures[k] == fresh[k - v.pending_failures.len()]);
        } else {
            assert(w.pending_failures[k] == v.pending_failures[k]);
        }
    }
    assert forall|k: int, m: int|
        0 <= k < w.pending_failures.len() && 0 <= m < e.len() && w.pending_failures[k].ticket != 0 implies (#[trigger] w.pending_failures[k]).ticket
        != #[trigger] e[m] by {
        if k >= v.pending_failures.len() {
            assert(w.pending_failures[k] == fresh[k - v.pending_failures.len()]);
        } else {
            assert(w.pending_failures[k] == v.pending_failures[k]);
        }
    }
}

proof fn lemma_poll_keeps(
    v: OrderRingView,
    e: Seq<u64>,
    states: Seq<RingSlotState>,
    ready: Seq<bool>,
)
    requires
        trace_inv(v, e),
        states.len() == RING_SLOTS,
        ready.len() == RING_SLOTS,
    ensures
        trace_inv(poll_spec(v, states, ready), e + poll_decided_tickets(v, states, ready)),
{
    let w = poll_spec(v, states, ready);
    let n = RING_SLOTS as int;
    let pf = poll_failures(v.slots, states, n);
    let pc = poll_completions(v.slots, states, ready, v.generation, n);
    let p_t = v.pending_failures.map_values(|f: SurfaceOrderMeasurementFailure| f.ticket);
    let f_t = pf.map_values(|f: SurfaceOrderMeasurementFailure| f.ticket);
    let c_t = pc.map_values(|c: CompletedSlot| c.ticket);
    lemma_poll_failures_from(v.slots, states, n);
    lemma_poll_completions_once(v, states, ready, n);
    lemma_completions_are_current_and_first(v, states, ready, n);
    // Each reported failure or completion names a sample not yet reported.
    assert forall|k: int| 0 <= k < f_t.len() implies exists|j: int|
        0 <= j < n && emits_failure(v.slots[j], states[j]) && #[trigger] f_t[k]
            == v.slots[j].ticket by {
        assert(f_t[k] == pf[k].ticket);
        assert(failed_slot_ticket(v.slots, states, n, pf[k].ticket));
    }
    assert forall|k: int| 0 <= k < c_t.len() implies ({
        let j = pc[k].slot as int;
        &&& 0 <= j < n
        &&& emits_completion(v.slots[j], states[j], ready[j], v.generation)
        &&& #[trigger] c_t[k] == v.slots[j].ticket
    }) by {
        assert(c_t[k] == pc[k].ticket);
    }
    assert forall|i: int, j: int|
        0 <= i < p_t.len() && 0 <= j < f_t.len() && p_t[i] != 0 implies #[trigger] p_t[i]
        != #[trigger] f_t[j] by {
        let a = choose|a: int|
            0 <= a < n && emits_failure(v.slots[a], states[a]) && #[trigger] f_t[j]
                == v.slots[a].ticket;
        assert(p_t[i] == v.pending_failures[i].ticket);
        assert(live(v, a));
    }
    lemma_once_each_concat(p_t, f_t);
    let pf_t = p_t + f_t;
    assert forall|i: int, j: int|
        0 <= i < pf_t.len() && 0 <= j < c_t.len() && pf_t[i] != 0 implies #[trigger] pf_t[i]
        != #[trigger] c_t[j] by {
        let b = pc[j].slot as int;
        assert(live(v, b));
        if i < p_t.len() {
            assert(pf_t[i] == v.pending_failures[i].ticket);
        } else {
            let k = i - p_t.len();
            assert(pf_t[i] == f_t[k]);
            let a = choose|a: int|
                0 <= a < n && emits_failure(v.slots[a], states[a]) && #[trigger] f_t[k]
                    == v.slots[a].ticket;
            assert(a != b);
        }
    }
    lemma_once_each_concat(pf_t, c_t);
    let r = pf_t + c_t;
    assert(r == poll_decided_tickets(v, states, ready));
    assert forall|i: int, j: int|
        0 <= i < e.len() && 0 <= j < r.len() && e[i] != 0 implies #[trigger] e[i]
        != #[trigger] r[j] by {
        if j < p_t.len() {
            assert(r[j] == v.pending_failures[j].ticket);
        } else if j < pf_t.len() {
            let k = j - p_t.len();
            assert(r[j] == f_t[k]);
            let a = choose|a: int|
                0 <= a < n && emits_failure(v.slots[a], states[a]) && #[trigger] f_t[k]
                    == v.slots[a].ticket;
            assert(live(v, a));
        } else {
            let k = j - pf_t.len();
            assert(r[j] == c_t[k]);
            assert(live(v, pc[k].slot as int));
        }
    }
    lemma_once_each_concat(e, r);
    let e2 = e + r;
    assert forall|i: int| 0 <= i < RING_SLOTS implies #[trigger] w.slots[i].ticket
        == v.slots[i].ticket && (live(w, i) ==> live(v, i) && !emits_failure(v.slots[i], states[i])
        && !emits_completion(v.slots[i], states[i], ready[i], v.generation)) by {
    }
    assert forall|k: int| 0 <= k < e2.len() implies #[trigger] e2[k] < w.next_ticket by {
        if k < e.len() {
            assert(e2[k] == e[k]);
        } else {
            let j = k - e.len();
            assert(e2[k] == r[j]);
            if j < p_t.len() {
                assert(r[j] == v.pending_failures[j].ticket);
            } else if j < pf_t.len() {
                let m = j - p_t.len();
                assert(r[j] == f_t[m]);
                let a = choose|a: int|
                    0 <= a < n && emits_failure(v.slots[a], states[a]) && #[trigger] f_t[m]
                        == v.slots[a].ticket;
                assert(v.slots[a].ticket < v.next_ticket);
            } else {
                let m = j - pf_t.len();
                assert(r[j] == c_t[m]);
                assert(v.slots[pc[m].slot as int].ticket < v.next_ticket);
            }
        }
    }
    assert forall|a: int, k: int|
        0 <= a < RING_SLOTS && 0 <= k < e2.len() && live(w, a) && w.slots[a].ticket != 0 implies #[trigger] w.slots[a].ticket
        != #[trigger] e2[k] by {
        if k < e.len() {
            assert(e2[k] == e[k]);
        } else {
            let j = k - e.len();
            assert(e2[k] == r[j]);
            if j < p_t.len() {
                assert(r[j] == v.pending_failures[j].ticket);
            } else if j < pf_t.len() {
                let m = j - p_t.len();
                assert(r[j] == f_t[m]);
                let b = choose|b: int|
                    0 <= b < n && emits_failure(v.slots[b], states[b]) && #[trigger] f_t[m]
                        == v.slots[b].ticket;
                assert(live(v, b) && a != b);
            } else {
                let m = j - pf_t.len();
                assert(r[j] == c_t[m]);
                let b = pc[m].slot as int;
                assert(live(v, b) && a != b);
            }
        }
    }
    assert(w.pending_failures.map_values(|f: SurfaceOrderMeasurementFailure| f.ticket)
        =~= Seq::<u64>::empty());
}

/// No nonzero key occurs twice in `s`.
pub open spec fn key_once<T: TicketKeyed>(s: Seq<T>) -> bool {
    forall|i: int, j: int|
        0 <= i < j < s.len() && s[i].key() != 0 ==> #[trigger] s[i].key() != #[trigger] s[j].key()
}

/// Some item of `s` has key `t`.
pub open spec fn holds_key<T: TicketKeyed>(s: Seq<T>, t: u64) -> bool {
    exists|i: int| 0 <= i < s.len() && #[trigger] s[i].key() == t
}

proof fn lemma_insert_by_ticket_is_insert<T: TicketKeyed>(s: Seq<T>, x: T) -> (p: int)
    ensures
        0 <= p <= s.len(),
        insert_by_ticket(s, x) == s.insert(p, x),
    decreases s.len(),
{
    if s.len() == 0 {
        assert(s.insert(0, x) =~= seq![x]);
        0
    } else if s.last().key() <= x.key() {
        assert(s.insert(s.len() as int, x) =~= s.push(x));
        s.len() as int
    } else {
        let d = s.drop_last();
        let p = lemma_insert_by_ticket_is_insert(d, x);
        assert(d.insert(p, x).push(s.last()) =~= s.insert(p, x));
        p
    }
}

proof fn lemma_sort_keeps_keys<T: TicketKeyed>(s: Seq<T>)
    ensures
        sort_by_ticket_spec(s).len() == s.len(),
        forall|t: u64| holds_key(sort_by_ticket_spec(s), t) <==> holds_key(s, t),
        key_once(s) ==> key_once(sort_by_ticket_spec(s)),
    decreases s.len(),
{
    if s.len() > 0 {
        let d = s.drop_last();
        let x = s.last();
        lemma_sort_keeps_keys(d);
        let u = sort_by_ticket_spec(d);
        let p = lemma_insert_by_ticket_is_insert(u, x);
        let w = u.insert(p, x);
        u.insert_ensures(p, x);
        assert(sort_by_ticket_spec(s) == w);
        assert forall|t: u64| holds_key(w, t) <==> holds_key(s, t) by {
            if holds_key(w, t) {
                let k = choose|k: int| 0 <= k < w.len() && #[trigger] w[k].key() == t;
                if k < p {
                    assert(w[k] == u[k]);
                    assert(holds_key(u, t));
                    assert(holds_key(d, t));
                    let m = choose|m: int| 0 <= m < d.len() && #[trigger] d[m].key() == t;
                    assert(s[m] == d[m]);
                } else if k == p {
                    assert(s[s.len() - 1].key() == t);
                } else {
                    assert(w[k] == u[k - 1]);
                    assert(holds_key(u, t));
                    assert(holds_key(d, t));
                    let m = choose|m: int| 0 <= m < d.len() && #[trigger] d[m].key() == t;
                    assert(s[m] == d[m]);
                }
            }
            if holds_key(s, t) {
                let k = choose|k: int| 0 <= k < s.len() && #[trigger] s[k].key() == t;
                if k == s.len() - 1 {
                    assert(w[p].key() == t);
                } else {
                    assert(d[k] == s[k]);
                    assert(holds_key(d, t));
                    assert(holds_key(u, t));
                    let m = choose|m: int| 0 <= m < u.len() && #[trigger] u[m].key() == t;
                    if m < p {
                        assert(w[m] == u[m]);
                    } else {
                        assert(w[m + 1] == u[m]);
                    }
                }
            }
        }
        if key_once(s) {
            assert forall|i: int, j: int| 0 <= i < j < d.len() && d[i].key() != 0 implies #[trigger] d[i].key()
                != #[trigger] d[j].key() by {
                assert(d[i] == s[i] && d[j] == s[j]);
            }
            assert(x.key() != 0 ==> !holds_key(d, x.key())) by {
                if x.key() != 0 && holds_key(d, x.key()) {
                    let m = choose|m: int| 0 <= m < d.len() && #[trigger] d[m].key() == x.key();
                    assert(s[m] == d[m]);
                    assert(s[s.len() - 1] == x);
                }
            }
            assert forall|i: int, j: int| 0 <= i < j < w.len() && w[i].key() != 0 implies #[trigger] w[i].key()
                != #[trigger] w[j].key() by {
                if i == p {
                    let jj = j - 1;
                    assert(w[j] == u[jj]);
                    assert(holds_key(u, u[jj].key()));
                } else if j == p {
                    assert(w[i] == u[i]);
                    assert(holds_key(u, u[i].key()));
                } else {
                    let ii = if i < p { i } else { i - 1 };
                    let jj = if j < p { j } else { j - 1 };
                    assert(w[i] == u[ii] && w[j] == u[jj]);
                }
            }
        }
    }
}

proof fn lemma_once_each_split(a: Seq<u64>, b: Seq<u64>)
    requires
        once_each(a + b),
    ensures
        once_each(a),
        once_each(b),
        forall|i: int, j: int|
            0 <= i < a.len() && 0 <= j < b.len() && a[i] != 0 ==> #[trigger] a[i] != #[trigger] b[j],
{
    let c = a + b;
    assert forall|i: int, j: int| 0 <= i < j < a.len() && a[i] != 0 implies #[trigger] a[i]
        != #[trigger] a[j] by {
        assert(c[i] == a[i] && c[j] == a[j]);
    }
    assert forall|i: int, j: int| 0 <= i < j < b.len() && b[i] != 0 implies #[trigger] b[i]
        != #[trigger] b[j] by {
        assert(c[a.len() + i] == b[i] && c[a.len() + j] == b[j]);
    }
    assert forall|i: int, j: int| 0 <= i < a.len() && 0 <= j < b.len() && a[i] != 0 implies #[trigger] a[i]
        != #[trigger] b[j] by {
        assert(c[i] == a[i] && c[a.len() + j] == b[j]);
    }
}

/// Tickets of `s`, for items keyed by their ticket.
proof fn lemma_sorted_tickets<T: TicketKeyed>(s: Seq<T>, tickets: Seq<u64>, sorted: Seq<u64>)
    requires
        tickets.len() == s.len(),
        forall|k: int| 0 <= k < s.len() ==> #[trigger] tickets[k] == s[k].key(),
        sorted.len() == sort_by_ticket_spec(s).len(),
        forall|k: int|
            0 <= k < sorted.len() ==> #[trigger] sorted[k] == sort_by_ticket_spec(s)[k].key(),
        once_each(tickets),
    ensures
        once_each(sorted),
        forall|k: int| 0 <= k < sorted.len() ==> tickets.contains(#[trigger] sorted[k]),
{
    lemma_sort_keeps_keys(s);
    let u = sort_by_ticket_spec(s);
    assert forall|i: int, j: int| 0 <= i < j < s.len() && s[i].key() != 0 implies #[trigger] s[i].key()
        != #[trigger] s[j].key() by {
        assert(tickets[i] == s[i].key() && tickets[j] == s[j].key());
    }
    assert(key_once(s));
    assert forall|i: int, j: int| 0 <= i < j < sorted.len() && sorted[i] != 0 implies #[trigger] sorted[i]
        != #[trigger] sorted[j] by {
        assert(sorted[i] == u[i].key() && sorted[j] == u[j].key());
    }
    assert forall|k: int| 0 <= k < sorted.len() implies tickets.contains(#[trigger] sorted[k]) by {
        assert(holds_key(u, u[k].key()));
        assert(holds_key(s, u[k].key()));
        let m = choose|m: int| 0 <= m < s.len() && #[trigger] s[m].key() == u[k].key();
        assert(tickets[m] == sorted[k]);
    }
}

/// Reporting the same receipts in another order keeps what a run holds true.
proof fn lemma_reordered_receipts(w: OrderRingView, e: Seq<u64>, u: Seq<u64>, s: Seq<u64>)
    requires
        trace_inv(w, e + u),
        once_each(s),
        forall|k: int| 0 <= k < s.len() ==> u.contains(#[trigger] s[k]),
    ensures
        trace_inv(w, e + s),
{
    let eu = e + u;
    let es = e + s;
    lemma_once_each_split(e, u);
    assert forall|i: int, j: int| 0 <= i < e.len() && 0 <= j < s.len() && e[i] != 0 implies #[trigger] e[i]
        != #[trigger] s[j] by {
        let m = choose|m: int| 0 <= m < u.len() && u[m] == s[j];
    }
    lemma_once_each_concat(e, s);
    assert forall|k: int| 0 <= k < es.len() implies #[trigger] es[k] < w.next_ticket by {
        if k < e.len() {
            assert(es[k] == eu[k]);
        } else {
            let m = choose|m: int| 0 <= m < u.len() && u[m] == s[k - e.len()];
            assert(es[k] == eu[e.len() + m]);
        }
    }
    assert forall|a: int, k: int|
        0 <= a < RING_SLOTS && 0 <= k < es.len() && live(w, a) && w.slots[a].ticket != 0 implies #[trigger] w.slots[a].ticket
        != #[trigger] es[k] by {
        if k < e.len() {
            assert(es[k] == eu[k]);
        } else {
            let m = choose|m: int| 0 <= m < u.len() && u[m] == s[k - e.len()];
            assert(es[k] == eu[e.len() + m]);
        }
    }
    assert forall|k: int, m: int|
        0 <= k < w.pending_failures.len() && 0 <= m < es.len() && w.pending_failures[k].ticket != 0 implies (#[trigger] w.pending_failures[k]).ticket
        != #[trigger] es[m] by {
        if m < e.len() {
            assert(es[m] == eu[m]);
        } else {
            let n = choose|n: int| 0 <= n < u.len() && u[n] == s[m - e.len()];
            assert(es[m] == eu[e.len() + n]);
        }
    }
}

proof fn lemma_poll_keeps_sorted(
    v: OrderRingView,
    e: Seq<u64>,
    states: Seq<RingSlotState>,
    ready: Seq<bool>,
)
    requires
        trace_inv(v, e),
        states.len() == RING_SLOTS,
        ready.len() == RING_SLOTS,
    ensures
        trace_inv(poll_spec(v, states, ready), e + poll_receipt_tickets(v, states, ready)),
{
    lemma_poll_keeps(v, e, states, ready);
    let w = poll_spec(v, states, ready);
    let fs = v.pending_failures + poll_failures(v.slots, states, RING_SLOTS as int);
    let cs = poll_completions(v.slots, states, ready, v.generation, RING_SLOTS as int);
    let uf = fs.map_values(|f: SurfaceOrderMeasurementFailure| f.ticket);
    let uc = cs.map_values(|c: CompletedSlot| c.ticket);
    let sf = sort_by_ticket_spec(fs).map_values(|f: SurfaceOrderMeasurementFailure| f.ticket);
    let sc = sort_by_ticket_spec(cs).map_values(|c: CompletedSlot| c.ticket);
    let u = uf + uc;
    assert(uf =~= v.pending_failures.map_values(|f: SurfaceOrderMeasurementFailure| f.ticket)
        + poll_failures(v.slots, states, RING_SLOTS as int).map_values(
        |f: SurfaceOrderMeasurementFailure| f.ticket,
    ));
    assert(u == poll_decided_tickets(v, states, ready));
    lemma_once_each_split(e, u);
    lemma_once_each_split(uf, uc);
    lemma_sort_keeps_keys(fs);
    lemma_sort_keeps_keys(cs);
    lemma_sorted_tickets(fs, uf, sf);
    lemma_sorted_tickets(cs, uc, sc);
    assert forall|i: int, j: int| 0 <= i < sf.len() && 0 <= j < sc.len() && sf[i] != 0 implies #[trigger] sf[i]
        != #[trigger] sc[j] by {
        let a = choose|m: int| 0 <= m < uf.len() && uf[m] == sf[i];
        let b = choose|m: int| 0 <= m < uc.len() && uc[m] == sc[j];
    }
    lemma_once_each_concat(sf, sc);
    let s = sf + sc;
    assert(s == poll_receipt_tickets(v, states, ready));
    assert forall|k: int| 0 <= k < s.len() implies u.contains(#[trigger] s[k]) by {
        if k < sf.len() {
            let a = choose|m: int| 0 <= m < uf.len() && uf[m] == sf[k];
            assert(u[a] == uf[a]);
        } else {
            let b = choose|m: int| 0 <= m < uc.len() && uc[m] == sc[k - sf.len()];
            assert(u[uf.len() + b] == uc[b]);
        }
    }
    lemma_reordered_receipts(w, e, u, s);
}

proof fn lemma_run_keeps(first_ticket: u64, steps: Seq<RingStep>)
    requires
        1 <= first_ticket <= LAST_ORDER_TICKET,
        run_admitted(fresh_ring(first_ticket), steps),
    ensures
        trace_inv(
            run_ring(fresh_ring(first_ticket), steps),
            run_receipts(fresh_ring(first_ticket), steps),
        ),
    decreases steps.len(),
{
    let v0 = fresh_ring(first_ticket);
    if steps.len() == 0 {
        assert(v0.pending_failures.map_values(|f: SurfaceOrderMeasurementFailure| f.ticket)
            =~= Seq::<u64>::empty());
    } else {
        let prefix = steps.drop_last();
        lemma_run_keeps(first_ticket, prefix);
        let v = run_ring(v0, prefix);
        let e = run_receipts(v0, prefix);
        match steps.last() {
            RingStep::Begin { slot, camera_revision } => {
                lemma_begin_keeps(v, e, slot, camera_revision);
                assert(e + Seq::<u64>::empty() =~= e);
            },
            RingStep::Invalidate { states } => {
                lemma_invalidate_keeps(v, e, states);
                assert(e + Seq::<u64>::empty() =~= e);
            },
            RingStep::Poll { states, ready } => {
                lemma_poll_keeps_sorted(v, e, states, ready);
            },
        }
    }
}

/// Over any run of reservations, invalidations and polls on a fresh ring,
/// whatever slot states and completion times the device reports, no issued
/// ticket is reported twice among everything the polls hand back (their
/// `failures` and `completed`, in the order they return them): each gets at
/// most one terminal receipt, a completion or a failure. (Ticket 0 is never
/// issued.)
pub proof fn lemma_each_ticket_reported_once(first_ticket: u64, steps: Seq<RingStep>)
    requires
        1 <= first_ticket <= LAST_ORDER_TICKET,
        run_admitted(fresh_ring(first_ticket), steps),
    ensures
        once_each(run_receipts(fresh_ring(first_ticket), steps)),
{
    lemma_run_keeps(first_ticket, steps);
}

/// Whether a step names a slot of the ring, as every reservation does.
pub open spec fn step_in_ring(step: RingStep) -> bool {
    step matches RingStep::Begin { slot, .. } ==> slot < RING_SLOTS
}

/// The ring after the first `m` steps of a run from a fresh ring.
pub open spec fn ring_after(first_ticket: u64, steps: Seq<RingStep>, m: int) -> OrderRingView {
    run_ring(fresh_ring(first_ticket), steps.take(m))
}

proof fn lemma_ring_after_step(first_ticket: u64, steps: Seq<RingStep>, m: int)
    requires
        0 <= m < steps.len(),
    ensures
        ring_after(first_ticket, steps, m + 1) == ring_step(
            ring_after(first_ticket, steps, m),
            steps[m],
        ),
{
    assert(steps.take(m + 1).drop_last() =~= steps.take(m));
    assert(steps.take(m + 1).last() == steps[m]);
}

/// Every state of a run has its slots, and a generation that grew by at most
/// one per step.
proof fn lemma_ring_after_shape(first_ticket: u64, steps: Seq<RingStep>, m: int)
    requires
        0 <= m <= steps.len(),
        steps.len() < u64::MAX,
        forall|n: int| 0 <= n < steps.len() ==> step_in_ring(#[trigger] steps[n]),
    ensures
        ring_after(first_ticket, steps, m).slots.len() == RING_SLOTS,
        1 <= ring_after(first_ticket, steps, m).generation <= m + 1,
    decreases m,
{
    if m == 0 {
        assert(steps.take(0) =~= Seq::<RingStep>::empty());
    } else {
        lemma_ring_after_shape(first_ticket, steps, m - 1);
        lemma_ring_after_step(first_ticket, steps, m - 1);
        assert(step_in_ring(steps[m - 1]));
    }
}

/// Generations never go back along a run, and each invalidation moves on.
proof fn lemma_generation_grows(first_ticket: u64, steps: Seq<RingStep>, a: int, b: int)
    requires
        0 <= a <= b <= steps.len(),
        steps.len() < u64::MAX,
        forall|n: int| 0 <= n < steps.len() ==> step_in_ring(#[trigger] steps[n]),
    ensures
        ring_after(first_ticket, steps, a).generation <= ring_after(first_ticket, steps, b).generation,
        a < b && steps[a] is Invalidate ==> ring_after(first_ticket, steps, a).generation < ring_after(
            first_ticket,
            steps,
            b,
        ).generation,
    decreases b - a,
{
    if a < b {
        lemma_generation_grows(first_ticket, steps, a + 1, b);
        lemma_ring_after_step(first_ticket, steps, a);
        lemma_ring_after_shape(first_ticket, steps, a);
    }
}

/// A slot that no later step reserves again keeps the generation it was
/// reserved in.
proof fn lemma_slot_generation_kept(
    first_ticket: u64,
    steps: Seq<RingStep>,
    i: int,
    slot: nat,
    m: int,
)
    requires
        0 <= i < m <= steps.len(),
        steps.len() < u64::MAX,
        forall|n: int| 0 <= n < steps.len() ==> step_in_ring(#[trigger] steps[n]),
        slot < RING_SLOTS,
        steps[i] matches RingStep::Begin { slot: s, .. } && s == slot,
        forall|n: int|
            i < n < m ==> !(#[trigger] steps[n] matches RingStep::Begin { slot: s, .. } && s == slot),
    ensures
        ring_after(first_ticket, steps, m).slots[slot as int].generation == ring_after(
            first_ticket,
            steps,
            i,
        ).generation,
    decreases m - i,
{
    lemma_ring_after_step(first_ticket, steps, m - 1);
    lemma_ring_after_shape(first_ticket, steps, m - 1);
    assert(step_in_ring(steps[m - 1]));
    if m - 1 > i {
        lemma_slot_generation_kept(first_ticket, steps, i, slot, m - 1);
        assert(!(steps[m - 1] matches RingStep::Begin { slot: s, .. } && s == slot));
    }
}

/// A sample reserved before an invalidation is never completed after it:
/// over any run from a fresh ring, when a slot is reserved at step `i`, the
/// generation is invalidated at a later step `j`, and the slot is not
/// reserved again before the poll at step `k`, that poll reports no
/// completion from the slot, whatever the device reports. (Runs are shorter
/// than 2^64 steps, so the generation does not wrap.)
pub proof fn lemma_invalidated_samples_never_complete(
    first_ticket: u64,
    steps: Seq<RingStep>,
    i: int,
    j: int,
    k: int,
    slot: nat,
)
    requires
        steps.len() < u64::MAX,
        forall|n: int| 0 <= n < steps.len() ==> step_in_ring(#[trigger] steps[n]),
        0 <= i < j < k < steps.len(),
        slot < RING_SLOTS,
        steps[i] matches RingStep::Begin { slot: s, .. } && s == slot,
        steps[j] is Invalidate,
        forall|n: int|
            i < n < k ==> !(#[trigger] steps[n] matches RingStep::Begin { slot: s, .. } && s == slot),
    ensures
        steps[k] matches RingStep::Poll { states, ready } ==> !emits_completion(
            ring_after(first_ticket, steps, k).slots[slot as int],
            states[slot as int],
            ready[slot as int],
            ring_after(first_ticket, steps, k).generation,
        ),
{
    lemma_slot_generation_kept(first_ticket, steps, i, slot, k);
    lemma_generation_grows(first_ticket, steps, i, j);
    lemma_generation_grows(first_ticket, steps, j, k);
}

} // verus!
