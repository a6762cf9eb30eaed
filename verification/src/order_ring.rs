//! Bookkeeping of the non-blocking order-measurement rings.
//!
//! A ring has a fixed number of slots. Each slot is driven through
//! idle → encoding → submitted → mapped (or error) by the command buffer that
//! produced its sample; those transitions happen in device callbacks, so the
//! caller observes the slot states and hands them to these functions, which
//! decide reservations, terminal receipts and recycling. Every issued ticket
//! receives at most one terminal receipt.

use crate::evidence::receipts::{
    SurfaceOrderMeasurementFailure, SurfaceOrderMeasurementFailureReason,
};
use crate::gpu_telemetry::{
    lemma_ticket_namespace, next_namespaced_ticket, next_namespaced_ticket_spec, LAST_ORDER_TICKET,
    RING_SLOTS,
};
use crate::ring_trace::fresh_ring;
use vstd::prelude::*;

verus! {

broadcast use vstd::seq_lib::group_to_multiset_ensures;

/// Observed state of one ring slot.
#[derive(Debug, Clone, Copy, PartialEq, Eq, Structural)]
pub enum RingSlotState {
    Idle,
    Encoding,
    Submitted,
    Mapped,
    Error,
}

/// What the ring remembers of the sample in one slot.
#[derive(Debug, Clone, Copy, PartialEq, Eq, Structural)]
pub struct RingSlot {
    pub ticket: u64,
    pub generation: u64,
    pub camera_revision: u64,
    pub terminal_reported: bool,
}

/// A reserved slot and the ticket issued for it.
#[derive(Debug, Clone, Copy, PartialEq, Eq, Structural)]
pub struct RingReservation {
    pub slot: usize,
    pub ticket: u64,
}

/// A slot whose sample completed, with its ticket.
#[derive(Debug, Clone, Copy, PartialEq, Eq, Structural)]
pub struct CompletedSlot {
    pub ticket: u64,
    pub slot: usize,
}

/// Items ordered by a ticket.
pub trait TicketKeyed {
    spec fn key(&self) -> u64;

    fn ticket_key(&self) -> (r: u64)
        ensures
            r == self.key(),
    ;
}

impl TicketKeyed for CompletedSlot {
    open spec fn key(&self) -> u64 {
        self.ticket
    }

    fn ticket_key(&self) -> (r: u64) {
        self.ticket
    }
}

impl TicketKeyed for SurfaceOrderMeasurementFailure {
    open spec fn key(&self) -> u64 {
        self.ticket
    }

    fn ticket_key(&self) -> (r: u64) {
        self.ticket
    }
}

/// Tickets never decrease along `s`.
pub open spec fn sorted_by_ticket<T: TicketKeyed>(s: Seq<T>) -> bool {
    forall|i: int, j: int| 0 <= i <= j < s.len() ==> #[trigger] s[i].key() <= #[trigger] s[j].key()
}

/// `s` with `x` inserted after every item whose ticket is at most `x`'s.
pub open spec fn insert_by_ticket<T: TicketKeyed>(s: Seq<T>, x: T) -> Seq<T>
    decreases s.len(),
{
    if s.len() == 0 {
        seq![x]
    } else if s.last().key() <= x.key() {
        s.push(x)
    } else {
        insert_by_ticket(s.drop_last(), x).push(s.last())
    }
}

/// Stable insertion sort by ticket: items with equal tickets keep their
/// order.
pub open spec fn sort_by_ticket_spec<T: TicketKeyed>(s: Seq<T>) -> Seq<T>
    decreases s.len(),
{
    if s.len() == 0 {
        s
    } else {
        insert_by_ticket(sort_by_ticket_spec(s.drop_last()), s.last())
    }
}

proof fn lemma_insert_by_ticket_at<T: TicketKeyed>(s: Seq<T>, x: T, p: int)
    requires
        0 <= p <= s.len(),
        forall|j: int| p <= j < s.len() ==> #[trigger] s[j].key() > x.key(),
        forall|j: int| 0 <= j < p ==> #[trigger] s[j].key() <= x.key(),
    ensures
        insert_by_ticket(s, x) == s.insert(p, x),
    decreases s.len(),
{
    if s.len() == 0 {
        assert(s.insert(p, x) =~= seq![x]);
    } else if s.last().key() <= x.key() {
        assert(p == s.len());
        assert(s.insert(p, x) =~= s.push(x));
    } else {
        let t = s.drop_last();
        assert forall|j: int| p <= j < t.len() implies #[trigger] t[j].key() > x.key() by {
            assert(t[j] == s[j]);
        }
        assert forall|j: int| 0 <= j < p implies #[trigger] t[j].key() <= x.key() by {
            assert(t[j] == s[j]);
        }
        lemma_insert_by_ticket_at(t, x, p);
        assert(t.insert(p, x).push(s.last()) =~= s.insert(p, x));
    }
}

/// The items of `items` in ticket order, equal tickets in their input order.
pub fn sort_by_ticket<T: TicketKeyed + Copy>(items: Vec<T>) -> (r: Vec<T>)
    ensures
        r@ == sort_by_ticket_spec(items@),
        sorted_by_ticket(r@),
        r@.to_multiset() == items@.to_multiset(),
        r@.len() == items@.len(),
{
    let mut out: Vec<T> = Vec::new();
    let mut i: usize = 0;
    while i < items.len()
        invariant
            i <= items@.len(),
            out@.len() == i,
            out@ == sort_by_ticket_spec(items@.take(i as int)),
            sorted_by_ticket(out@),
            out@.to_multiset() == items@.take(i as int).to_multiset(),
        decreases items@.len() - i,
    {
        let x = items[i];
        let k = x.ticket_key();
        let mut p: usize = out.len();
        while p > 0 && out[p - 1].ticket_key() > k
            invariant
                p <= out@.len(),
                sorted_by_ticket(out@),
                forall|j: int| p <= j < out@.len() ==> #[trigger] out@[j].key() > k,
            decreases p,
        {
            p -= 1;
        }
        let ghost before = out@;
        proof {
            assert forall|j: int| 0 <= j < p implies #[trigger] before[j].key() <= k by {
                assert(before[j].key() <= before[p - 1].key());
            }
            lemma_insert_by_ticket_at(before, x, p as int);
            assert(items@.take(i as int + 1).drop_last() =~= items@.take(i as int));
            assert(items@.take(i as int + 1).last() == x);
        }
        out.insert(p, x);
        proof {
            assert(out@ == before.insert(p as int, x));
            assert forall|a: int, b: int| 0 <= a <= b < out@.len() implies #[trigger] out@[a].key()
                <= #[trigger] out@[b].key() by {
                if a < p {
                    if b < p {
                        assert(before[a].key() <= before[b].key());
                    } else if b > p {
                        assert(before[a].key() <= before[b - 1].key());
                    }
                } else if a == p {
                    if b > p {
                        assert(before[b - 1].key() > k);
                    }
                } else {
                    assert(before[a - 1].key() <= before[b - 1].key());
                }
            }
            assert(items@.take(i as int + 1) =~= items@.take(i as int).push(x));
        }
        i += 1;
    }
    proof {
        assert(items@.take(i as int) =~= items@);
    }
    out
}

/// Mathematical model of a ring.
pub struct OrderRingView {
    pub slots: Seq<RingSlot>,
    pub next_slot: nat,
    pub next_ticket: u64,
    pub first_ticket: u64,
    pub generation: u64,
    /// Failures decided by an invalidation and not yet polled.
    pub pending_failures: Seq<SurfaceOrderMeasurementFailure>,
}

/// Invariant: the ring has its fixed slot count, the rotation cursor is a
/// slot, tickets stay in the namespace of `first_ticket`, and generation 0
/// is never current.
pub open spec fn order_ring_wf(v: OrderRingView) -> bool {
    &&& v.slots.len() == RING_SLOTS
    &&& v.next_slot < RING_SLOTS
    &&& v.generation >= 1
    &&& 1 <= v.first_ticket <= LAST_ORDER_TICKET
    &&& v.next_ticket % 2 == v.first_ticket % 2
    &&& 1 <= v.next_ticket <= LAST_ORDER_TICKET
}

/// The slot `k` positions after `start`, around the ring.
pub open spec fn rotated(start: nat, k: nat) -> nat {
    (start + k) % (RING_SLOTS as nat)
}

/// The ring after reserving `slot` for a sample of `camera_revision`: the
/// slot takes the next ticket and the current generation, and the cursor
/// moves past it.
pub open spec fn reserve_spec(v: OrderRingView, slot: nat, camera_revision: u64) -> OrderRingView {
    OrderRingView {
        slots: v.slots.update(
            slot as int,
            RingSlot {
                ticket: v.next_ticket,
                generation: v.generation,
                camera_revision,
                terminal_reported: false,
            },
        ),
        next_slot: (slot + 1) % (RING_SLOTS as nat),
        next_ticket: next_namespaced_ticket_spec(v.next_ticket, v.first_ticket),
        ..v
    }
}

/// The failure receipt of the sample in `slot`.
pub open spec fn failure_of(slot: RingSlot, reason: SurfaceOrderMeasurementFailureReason)
    -> SurfaceOrderMeasurementFailure {
    SurfaceOrderMeasurementFailure {
        ticket: slot.ticket,
        camera_revision: slot.camera_revision,
        reason,
    }
}

/// An invalidation fails every outstanding sample not yet terminal.
pub open spec fn invalidates(slot: RingSlot, state: RingSlotState) -> bool {
    state != RingSlotState::Idle && !slot.terminal_reported
}

/// Failures an invalidation decides for the slots below `n`, in slot order.
pub open spec fn invalidation_failures(
    slots: Seq<RingSlot>,
    states: Seq<RingSlotState>,
    n: int,
) -> Seq<SurfaceOrderMeasurementFailure>
    decreases n,
{
    if n <= 0 {
        Seq::empty()
    } else {
        invalidation_failures(slots, states, n - 1) + if invalidates(slots[n - 1], states[n - 1]) {
            seq![failure_of(slots[n - 1], SurfaceOrderMeasurementFailureReason::GenerationInvalidated)]
        } else {
            Seq::empty()
        }
    }
}

/// Slots below `n` still being encoded, in slot order.
pub open spec fn encoding_slots(states: Seq<RingSlotState>, n: int) -> Seq<usize>
    decreases n,
{
    if n <= 0 {
        Seq::empty()
    } else {
        encoding_slots(states, n - 1) + if states[n - 1] == RingSlotState::Encoding {
            seq![(n - 1) as usize]
        } else {
            Seq::empty()
        }
    }
}

/// Generation after an invalidation: the next one, skipping 0 on wrap.
pub open spec fn next_ring_generation(generation: u64) -> u64 {
    if generation == u64::MAX {
        1
    } else {
        (generation + 1) as u64
    }
}

/// The ring after invalidating its generation.
pub open spec fn invalidate_spec(v: OrderRingView, states: Seq<RingSlotState>) -> OrderRingView {
    OrderRingView {
        slots: Seq::new(
            v.slots.len(),
            |i: int|
                RingSlot {
                    terminal_reported: v.slots[i].terminal_reported || states[i]
                        != RingSlotState::Idle,
                    ..v.slots[i]
                },
        ),
        generation: next_ring_generation(v.generation),
        pending_failures: v.pending_failures + invalidation_failures(
            v.slots,
            states,
            v.slots.len() as int,
        ),
        ..v
    }
}

/// A slot in error reports a readback failure unless it is already terminal.
pub open spec fn emits_failure(slot: RingSlot, state: RingSlotState) -> bool {
    state == RingSlotState::Error && !slot.terminal_reported
}

/// A mapped slot whose completion time arrived reports its sample when the
/// sample belongs to `generation` and is not yet terminal.
pub open spec fn emits_completion(
    slot: RingSlot,
    state: RingSlotState,
    completion_ready: bool,
    generation: u64,
) -> bool {
    state == RingSlotState::Mapped && completion_ready && slot.generation == generation
        && !slot.terminal_reported
}

/// A mapped or failed slot returns to idle once both of its callbacks ran.
pub open spec fn recycles(state: RingSlotState, completion_ready: bool) -> bool {
    (state == RingSlotState::Mapped || state == RingSlotState::Error) && completion_ready
}

/// Slots below `n` that a poll returns to idle, in slot order.
pub open spec fn recycled_slots(states: Seq<RingSlotState>, ready: Seq<bool>, n: int) -> Seq<usize>
    decreases n,
{
    if n <= 0 {
        Seq::empty()
    } else {
        recycled_slots(states, ready, n - 1) + if recycles(states[n - 1], ready[n - 1]) {
            seq![(n - 1) as usize]
        } else {
            Seq::empty()
        }
    }
}

/// Readback failures a poll decides for the slots below `n`, in slot order.
pub open spec fn poll_failures(slots: Seq<RingSlot>, states: Seq<RingSlotState>, n: int) -> Seq<
    SurfaceOrderMeasurementFailure,
>
    decreases n,
{
    if n <= 0 {
        Seq::empty()
    } else {
        poll_failures(slots, states, n - 1) + if emits_failure(slots[n - 1], states[n - 1]) {
            seq![failure_of(slots[n - 1], SurfaceOrderMeasurementFailureReason::ReadbackMap)]
        } else {
            Seq::empty()
        }
    }
}

/// Completions a poll decides for the slots below `n`, in slot order.
pub open spec fn poll_completions(
    slots: Seq<RingSlot>,
    states: Seq<RingSlotState>,
    ready: Seq<bool>,
    generation: u64,
    n: int,
) -> Seq<CompletedSlot>
    decreases n,
{
    if n <= 0 {
        Seq::empty()
    } else {
        poll_completions(slots, states, ready, generation, n - 1) + if emits_completion(
            slots[n - 1],
            states[n - 1],
            ready[n - 1],
            generation,
        ) {
            seq![CompletedSlot { ticket: slots[n - 1].ticket, slot: (n - 1) as usize }]
        } else {
            Seq::empty()
        }
    }
}

/// The ring after a poll: emitted samples become terminal and the pending
/// failures are handed out.
pub open spec fn poll_spec(v: OrderRingView, states: Seq<RingSlotState>, ready: Seq<bool>) -> OrderRingView {
    OrderRingView {
        slots: Seq::new(
            v.slots.len(),
            |i: int|
                RingSlot {
                    terminal_reported: v.slots[i].terminal_reported || emits_failure(
                        v.slots[i],
                        states[i],
                    ) || emits_completion(v.slots[i], states[i], ready[i], v.generation),
                    ..v.slots[i]
                },
        ),
        pending_failures: Seq::empty(),
        ..v
    }
}

/// What a poll hands back: completed slots and failures in ticket order,
/// and the slots to return to idle in slot order.
pub struct RingPoll {
    pub completed: Vec<CompletedSlot>,
    pub failures: Vec<SurfaceOrderMeasurementFailure>,
    pub recycled: Vec<usize>,
}

/// A non-blocking measurement ring whose tickets start at `first_ticket` and
/// step by two.
pub struct OrderTelemetryRing {
    slots: Vec<RingSlot>,
    next_slot: usize,
    next_ticket: u64,
    first_ticket: u64,
    generation: u64,
    pending_failures: Vec<SurfaceOrderMeasurementFailure>,
}

impl View for OrderTelemetryRing {
    type V = OrderRingView;

    closed spec fn view(&self) -> OrderRingView {
        OrderRingView {
            slots: self.slots@,
            next_slot: self.next_slot as nat,
            next_ticket: self.next_ticket,
            first_ticket: self.first_ticket,
            generation: self.generation,
            pending_failures: self.pending_failures@,
        }
    }
}

impl OrderTelemetryRing {
    pub open spec fn wf(&self) -> bool {
        order_ring_wf(self@)
    }

    /// An idle ring of generation 1 whose first ticket is `first_ticket`.
    pub fn new(first_ticket: u64) -> (r: Self)
        requires
            1 <= first_ticket <= LAST_ORDER_TICKET,
        ensures
            r.wf(),
            r@.slots == Seq::new(
                RING_SLOTS as nat,
                |i: int| RingSlot { ticket: 0, generation: 0, camera_revision: 0, terminal_reported: false },
            ),
            r@.next_slot == 0,
            r@.next_ticket == first_ticket,
            r@.first_ticket == first_ticket,
            r@.generation == 1,
            r@.pending_failures.len() == 0,
            r@ == fresh_ring(first_ticket),
    {
        let mut slots: Vec<RingSlot> = Vec::new();
        let mut i: usize = 0;
        while i < RING_SLOTS
            invariant
                i <= RING_SLOTS,
                slots@.len() == i,
                forall|j: int|
                    0 <= j < i ==> #[trigger] slots@[j] == (RingSlot {
                        ticket: 0,
                        generation: 0,
                        camera_revision: 0,
                        terminal_reported: false,
                    }),
            decreases RING_SLOTS - i,
        {
            slots.push(RingSlot { ticket: 0, generation: 0, camera_revision: 0, terminal_reported: false });
            i += 1;
        }
        let ring = OrderTelemetryRing {
            slots,
            next_slot: 0,
            next_ticket: first_ticket,
            first_ticket,
            generation: 1,
            pending_failures: Vec::new(),
        };
        assert(ring@.slots =~= Seq::new(
            RING_SLOTS as nat,
            |i: int| RingSlot { ticket: 0, generation: 0, camera_revision: 0, terminal_reported: false },
        ));
        assert(ring@ =~= fresh_ring(first_ticket));
        ring
    }

    pub fn generation(&self) -> (r: u64)
        ensures
            r == self@.generation,
    {
        self.generation
    }

    pub fn slot(&self, index: usize) -> (r: RingSlot)
        requires
            index < self@.slots.len(),
        ensures
            r == self@.slots[index as int],
    {
        self.slots[index]
    }

    /// Reserves the first idle slot at or after the cursor, around the ring,
    /// and issues the next ticket for it; `None` when every slot is busy.
    pub fn begin_sample(&mut self, states: &Vec<RingSlotState>, camera_revision: u64) -> (r: Option<
        RingReservation,
    >)
        requires
            old(self).wf(),
            states@.len() == RING_SLOTS,
        ensures
            final(self).wf(),
            r is None <==> forall|i: int| 0 <= i < RING_SLOTS ==> states@[i] != RingSlotState::Idle,
            r is None ==> final(self)@ == old(self)@,
            r matches Some(res) ==> {
                &&& exists|k: nat|
                    k < RING_SLOTS && res.slot == rotated(old(self)@.next_slot, k) && forall|j: nat|
                        j < k ==> states@[rotated(old(self)@.next_slot, j) as int]
                            != RingSlotState::Idle
                &&& states@[res.slot as int] == RingSlotState::Idle
                &&& res.ticket == old(self)@.next_ticket
                &&& final(self)@ == reserve_spec(old(self)@, res.slot as nat, camera_revision)
            },
    {
        let ghost v = self@;
        let n = self.slots.len();
        let mut offset: usize = 0;
        let mut found: Option<usize> = None;
        let ghost mut found_k: nat = 0;
        while offset < n && found.is_none()
            invariant
                n == RING_SLOTS,
                states@.len() == RING_SLOTS,
                self@ == v,
                order_ring_wf(v),
                offset <= n,
                found is None ==> forall|j: nat|
                    j < offset ==> states@[rotated(v.next_slot, j) as int] != RingSlotState::Idle,
                found matches Some(s) ==> {
                    &&& found_k < RING_SLOTS
                    &&& s == rotated(v.next_slot, found_k)
                    &&& forall|j: nat|
                        j < found_k ==> states@[rotated(v.next_slot, j) as int]
                            != RingSlotState::Idle
                    &&& states@[s as int] == RingSlotState::Idle
                },
            decreases n - offset,
        {
            let index = (self.next_slot + offset) % n;
            if states[index] == RingSlotState::Idle {
                found = Some(index);
                proof {
                    found_k = offset as nat;
                }
            }
            offset += 1;
        }
        match found {
            None => {
                proof {
                    assert forall|i: int| 0 <= i < RING_SLOTS implies states@[i]
                        != RingSlotState::Idle by {
                        let k: nat = if i >= v.next_slot {
                            (i - v.next_slot) as nat
                        } else {
                            (i + RING_SLOTS - v.next_slot) as nat
                        };
                        assert(rotated(v.next_slot, k) == i);
                        assert(states@[rotated(v.next_slot, k) as int] != RingSlotState::Idle);
                    }
                }
                None
            },
            Some(index) => {
                let ticket = self.next_ticket;
                proof {
                    lemma_ticket_namespace(self.next_ticket, self.first_ticket);
                    assert(found_k < RING_SLOTS && index == rotated(v.next_slot, found_k));
                }
                self.next_slot = (index + 1) % n;
                self.next_ticket = next_namespaced_ticket(self.next_ticket, self.first_ticket);
                self.slots.set(
                    index,
                    RingSlot {
                        ticket,
                        generation: self.generation,
                        camera_revision,
                        terminal_reported: false,
                    },
                );
                Some(RingReservation { slot: index, ticket })
            },
        }
    }

    /// Fails every outstanding sample that is not yet terminal, moves to the
    /// next generation, and returns the slots still being encoded, which the
    /// caller returns to idle at once.
    pub fn invalidate_generation(&mut self, states: &Vec<RingSlotState>) -> (r: Vec<usize>)
        requires
            old(self).wf(),
            states@.len() == RING_SLOTS,
        ensures
            final(self).wf(),
            final(self)@ == invalidate_spec(old(self)@, states@),
            r@ == encoding_slots(states@, RING_SLOTS as int),
    {
        let ghost v = self@;
        let mut recycled: Vec<usize> = Vec::new();
        let mut i: usize = 0;
        while i < self.slots.len()
            invariant
                order_ring_wf(v),
                states@.len() == RING_SLOTS,
                self.slots@.len() == RING_SLOTS,
                i <= RING_SLOTS,
                self.next_slot == v.next_slot,
                self.next_ticket == v.next_ticket,
                self.first_ticket == v.first_ticket,
                self.generation == v.generation,
                forall|j: int|
                    0 <= j < i ==> #[trigger] self.slots@[j] == (RingSlot {
                        terminal_reported: v.slots[j].terminal_reported || states@[j]
                            != RingSlotState::Idle,
                        ..v.slots[j]
                    }),
                forall|j: int| i <= j < RING_SLOTS ==> #[trigger] self.slots@[j] == v.slots[j],
                self.pending_failures@ == v.pending_failures + invalidation_failures(
                    v.slots,
                    states@,
                    i as int,
                ),
                recycled@ == encoding_slots(states@, i as int),
            decreases RING_SLOTS - i,
        {
            let slot = self.slots[i];
            let state = states[i];
            if state != RingSlotState::Idle && !slot.terminal_reported {
                self.pending_failures.push(
                    SurfaceOrderMeasurementFailure {
                        ticket: slot.ticket,
                        camera_revision: slot.camera_revision,
                        reason: SurfaceOrderMeasurementFailureReason::GenerationInvalidated,
                    },
                );
                self.slots.set(i, RingSlot { terminal_reported: true, ..slot });
            }
            if state == RingSlotState::Encoding {
                recycled.push(i);
            }
            proof {
                assert(self.pending_failures@ =~= v.pending_failures + invalidation_failures(
                    v.slots,
                    states@,
                    i as int + 1,
                ));
                assert(recycled@ =~= encoding_slots(states@, i as int + 1));
            }
            i += 1;
        }
        self.generation = match self.generation.checked_add(1) {
            Some(next) => next,
            None => 1,
        };
        proof {
            assert(self@.slots =~= invalidate_spec(v, states@).slots);
        }
        recycled
    }

    /// Decides the terminal receipts of one poll. `ready[i]` tells whether
    /// the completion time of slot `i` has arrived. Failures (those of the
    /// last invalidation first, then readback failures) and completions come
    /// back in ticket order.
    pub fn poll(&mut self, states: &Vec<RingSlotState>, ready: &Vec<bool>) -> (r: RingPoll)
        requires
            old(self).wf(),
            states@.len() == RING_SLOTS,
            ready@.len() == RING_SLOTS,
        ensures
            final(self).wf(),
            final(self)@ == poll_spec(old(self)@, states@, ready@),
            r.completed@ == sort_by_ticket_spec(
                poll_completions(
                    old(self)@.slots,
                    states@,
                    ready@,
                    old(self)@.generation,
                    RING_SLOTS as int,
                ),
            ),
            r.failures@ == sort_by_ticket_spec(
                old(self)@.pending_failures + poll_failures(old(self)@.slots, states@, RING_SLOTS as int),
            ),
            sorted_by_ticket(r.completed@),
            r.completed@.to_multiset() == poll_completions(
                old(self)@.slots,
                states@,
                ready@,
                old(self)@.generation,
                RING_SLOTS as int,
            ).to_multiset(),
            sorted_by_ticket(r.failures@),
            r.failures@.to_multiset() == (old(self)@.pending_failures + poll_failures(
                old(self)@.slots,
                states@,
                RING_SLOTS as int,
            )).to_multiset(),
            r.recycled@ == recycled_slots(states@, ready@, RING_SLOTS as int),
    {
        let ghost v = self@;
        let mut failures: Vec<SurfaceOrderMeasurementFailure> = Vec::new();
        let mut j: usize = 0;
        while j < self.pending_failures.len()
            invariant
                j <= self.pending_failures@.len(),
                self.pending_failures@ == v.pending_failures,
                failures@ == v.pending_failures.take(j as int),
            decreases self.pending_failures@.len() - j,
        {
            failures.push(self.pending_failures[j]);
            proof {
                assert(v.pending_failures.take(j as int + 1) =~= v.pending_failures.take(
                    j as int,
                ).push(v.pending_failures[j as int]));
            }
            j += 1;
        }
        proof {
            assert(v.pending_failures.take(j as int) =~= v.pending_failures);
        }
        self.pending_failures = Vec::new();
        let mut completed: Vec<CompletedSlot> = Vec::new();
        let mut recycled: Vec<usize> = Vec::new();
        let mut i: usize = 0;
        while i < self.slots.len()
            invariant
                order_ring_wf(v),
                states@.len() == RING_SLOTS,
                ready@.len() == RING_SLOTS,
                self.slots@.len() == RING_SLOTS,
                i <= RING_SLOTS,
                self.next_slot == v.next_slot,
                self.next_ticket == v.next_ticket,
                self.first_ticket == v.first_ticket,
                self.generation == v.generation,
                self.pending_failures@.len() == 0,
                forall|k: int|
                    0 <= k < i ==> #[trigger] self.slots@[k] == (RingSlot {
                        terminal_reported: v.slots[k].terminal_reported || emits_failure(
                            v.slots[k],
                            states@[k],
                        ) || emits_completion(v.slots[k], states@[k], ready@[k], v.generation),
                        ..v.slots[k]
                    }),
                forall|k: int| i <= k < RING_SLOTS ==> #[trigger] self.slots@[k] == v.slots[k],
                failures@ == v.pending_failures + poll_failures(v.slots, states@, i as int),
                completed@ == poll_completions(v.slots, states@, ready@, v.generation, i as int),
                recycled@ == recycled_slots(states@, ready@, i as int),
            decreases RING_SLOTS - i,
        {
            let slot = self.slots[i];
            let state = states[i];
            let is_ready = ready[i];
            if state == RingSlotState::Error {
                if !slot.terminal_reported {
                    failures.push(
                        SurfaceOrderMeasurementFailure {
                            ticket: slot.ticket,
                            camera_revision: slot.camera_revision,
                            reason: SurfaceOrderMeasurementFailureReason::ReadbackMap,
                        },
                    );
                    self.slots.set(i, RingSlot { terminal_reported: true, ..slot });
                }
                if is_ready {
                    recycled.push(i);
                }
            } else if state == RingSlotState::Mapped && is_ready {
                if slot.generation == self.generation && !slot.terminal_reported {
                    completed.push(CompletedSlot { ticket: slot.ticket, slot: i });
                    self.slots.set(i, RingSlot { terminal_reported: true, ..slot });
                }
                recycled.push(i);
            }
            proof {
                assert(failures@ =~= v.pending_failures + poll_failures(
                    v.slots,
                    states@,
                    i as int + 1,
                ));
                assert(completed@ =~= poll_completions(
                    v.slots,
                    states@,
                    ready@,
                    v.generation,
                    i as int + 1,
                ));
                assert(recycled@ =~= recycled_slots(states@, ready@, i as int + 1));
            }
            i += 1;
        }
        proof {
            assert(self@.slots =~= poll_spec(v, states@, ready@).slots);
            assert(self@.pending_failures =~= Seq::<SurfaceOrderMeasurementFailure>::empty());
        }
        RingPoll {
            completed: sort_by_ticket(completed),
            failures: sort_by_ticket(failures),
            recycled,
        }
    }
}

/// Every completion a poll reports belongs to the current generation, comes
/// from a mapped slot whose completion arrived, and was not terminal before.
pub proof fn lemma_completions_are_current_and_first(
    v: OrderRingView,
    states: Seq<RingSlotState>,
    ready: Seq<bool>,
    n: int,
)
    requires
        order_ring_wf(v),
        states.len() == RING_SLOTS,
        ready.len() == RING_SLOTS,
        0 <= n <= RING_SLOTS,
    ensures
        forall|k: int|
            0 <= k < poll_completions(v.slots, states, ready, v.generation, n).len() ==> {
                let c = #[trigger] poll_completions(v.slots, states, ready, v.generation, n)[k];
                &&& 0 <= c.slot < n
                &&& emits_completion(v.slots[c.slot as int], states[c.slot as int], ready[c.slot as int], v.generation)
                &&& c.ticket == v.slots[c.slot as int].ticket
            },
    decreases n,
{
    if n > 0 {
        lemma_completions_are_current_and_first(v, states, ready, n - 1);
        let prev = poll_completions(v.slots, states, ready, v.generation, n - 1);
        let all = poll_completions(v.slots, states, ready, v.generation, n);
        assert forall|k: int| 0 <= k < all.len() implies {
            let c = #[trigger] all[k];
            &&& 0 <= c.slot < n
            &&& emits_completion(v.slots[c.slot as int], states[c.slot as int], ready[c.slot as int], v.generation)
            &&& c.ticket == v.slots[c.slot as int].ticket
        } by {
            if k < prev.len() {
                assert(all[k] == prev[k]);
            }
        }
    }
}

/// A sample yields at most one terminal receipt: once a poll or an
/// invalidation has reported a slot, no later poll or invalidation reports it
/// again, as a completion or as a failure.
pub proof fn lemma_terminal_receipt_is_once(
    v: OrderRingView,
    states: Seq<RingSlotState>,
    ready: Seq<bool>,
    later_states: Seq<RingSlotState>,
    later_ready: Seq<bool>,
    i: int,
)
    requires
        order_ring_wf(v),
        states.len() == RING_SLOTS,
        ready.len() == RING_SLOTS,
        later_states.len() == RING_SLOTS,
        later_ready.len() == RING_SLOTS,
        0 <= i < RING_SLOTS,
    ensures
        ({
            let polled = poll_spec(v, states, ready);
            emits_failure(v.slots[i], states[i]) || emits_completion(
                v.slots[i],
                states[i],
                ready[i],
                v.generation,
            ) ==> {
                &&& !emits_failure(polled.slots[i], later_states[i])
                &&& !emits_completion(
                    polled.slots[i],
                    later_states[i],
                    later_ready[i],
                    polled.generation,
                )
                &&& !invalidates(polled.slots[i], later_states[i])
            }
        }),
        ({
            let invalidated = invalidate_spec(v, states);
            invalidates(v.slots[i], states[i]) ==> {
                &&& !emits_failure(invalidated.slots[i], later_states[i])
                &&& !emits_completion(
                    invalidated.slots[i],
                    later_states[i],
                    later_ready[i],
                    invalidated.generation,
                )
                &&& !invalidates(invalidated.slots[i], later_states[i])
            }
        }),
{
}

/// An invalidation always changes the generation and never makes it 0, so
/// samples reserved before it can no longer complete.
pub proof fn lemma_invalidation_retires_generation(v: OrderRingView, states: Seq<RingSlotState>)
    requires
        order_ring_wf(v),
        states.len() == RING_SLOTS,
    ensures
        invalidate_spec(v, states).generation != v.generation,
        invalidate_spec(v, states).generation >= 1,
        forall|i: int|
            0 <= i < RING_SLOTS && v.slots[i].generation == v.generation ==> !emits_completion(
                #[trigger] invalidate_spec(v, states).slots[i],
                RingSlotState::Mapped,
                true,
                invalidate_spec(v, states).generation,
            ),
{
}

/// Reserving issues the ring's next ticket, which keeps the namespace's
/// parity and stays exact as a JavaScript number.
pub proof fn lemma_reservation_ticket_in_namespace(v: OrderRingView, slot: nat, camera_revision: u64)
    requires
        order_ring_wf(v),
        slot < RING_SLOTS,
    ensures
        order_ring_wf(reserve_spec(v, slot, camera_revision)),
        reserve_spec(v, slot, camera_revision).slots[slot as int].ticket == v.next_ticket,
        reserve_spec(v, slot, camera_revision).next_ticket % 2 == v.first_ticket % 2,
{
    lemma_ticket_namespace(v.next_ticket, v.first_ticket);
}

} // verus!
