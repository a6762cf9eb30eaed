//! Take-once count receipts with a bounded record of why counts are gone.

use std::collections::VecDeque;
use vstd::prelude::*;

use crate::evidence::compatibility::{
    SurfaceCompatibilityCountFamily, SurfaceCompatibilityCounts, SurfaceCompatibilityCountsTake,
    SurfaceCompatibilityCountsUnavailable, SurfaceCompatibilityCountsUnavailableReason,
};
use crate::evidence::keyed::{
    first_key_index, has_key, keeps_other, last_value, lemma_filter_member, lemma_filter_removes_key,
    lemma_filter_unique, lemma_first_key_index, position_of_ticket, retain_other_tickets,
    unique_keys,
};

verus! {

/// Why the counts of a ticket are no longer ready.
#[derive(Debug, Clone, Copy, PartialEq, Eq, Structural)]
pub enum CountOutcome {
    Failed,
    Expired,
    Consumed,
}

/// Abstract state of a [`CountLedger`].
pub struct CountLedgerView {
    pub family: SurfaceCompatibilityCountFamily,
    pub capacity: nat,
    /// Ready counts, oldest first, keyed by ticket.
    pub ready: Seq<(u64, SurfaceCompatibilityCounts)>,
    /// Retained outcomes, oldest first, keyed by ticket.
    pub outcomes: Seq<(u64, CountOutcome)>,
}

/// `outcomes` after recording `outcome` for `ticket`: an earlier record of the
/// ticket is replaced, and the oldest record goes when the ledger is full.
pub open spec fn record_outcome_spec(
    outcomes: Seq<(u64, CountOutcome)>,
    ticket: u64,
    outcome: CountOutcome,
    capacity: nat,
) -> Seq<(u64, CountOutcome)> {
    let kept = outcomes.filter(keeps_other::<CountOutcome>(ticket));
    let room = if kept.len() >= capacity {
        kept.drop_first()
    } else {
        kept
    };
    room.push((ticket, outcome))
}

/// State after a new submission issues `ticket`: earlier counts and outcomes
/// of the ticket are forgotten.
pub open spec fn begin_spec(v: CountLedgerView, ticket: u64) -> CountLedgerView {
    CountLedgerView {
        ready: v.ready.filter(keeps_other::<SurfaceCompatibilityCounts>(ticket)),
        outcomes: v.outcomes.filter(keeps_other::<CountOutcome>(ticket)),
        ..v
    }
}

/// State after `counts` become ready. When the ledger is full, the oldest
/// ready counts expire.
pub open spec fn publish_spec(v: CountLedgerView, counts: SurfaceCompatibilityCounts) -> CountLedgerView {
    let ready = v.ready.filter(keeps_other::<SurfaceCompatibilityCounts>(counts.ticket));
    let outcomes = v.outcomes.filter(keeps_other::<CountOutcome>(counts.ticket));
    if ready.len() >= v.capacity && ready.len() > 0 {
        CountLedgerView {
            ready: ready.drop_first().push((counts.ticket, counts)),
            outcomes: record_outcome_spec(outcomes, ready[0].0, CountOutcome::Expired, v.capacity),
            ..v
        }
    } else {
        CountLedgerView { ready: ready.push((counts.ticket, counts)), outcomes, ..v }
    }
}

/// State after the measurement of `ticket` failed.
pub open spec fn fail_spec(v: CountLedgerView, ticket: u64) -> CountLedgerView {
    CountLedgerView {
        ready: v.ready.filter(keeps_other::<SurfaceCompatibilityCounts>(ticket)),
        outcomes: record_outcome_spec(v.outcomes, ticket, CountOutcome::Failed, v.capacity),
        ..v
    }
}

/// Unavailable reason for a recorded outcome.
pub open spec fn outcome_reason(outcome: CountOutcome) -> SurfaceCompatibilityCountsUnavailableReason {
    match outcome {
        CountOutcome::Failed => SurfaceCompatibilityCountsUnavailableReason::Failed,
        CountOutcome::Expired => SurfaceCompatibilityCountsUnavailableReason::Expired,
        CountOutcome::Consumed => SurfaceCompatibilityCountsUnavailableReason::Consumed,
    }
}

/// What `take(ticket, pending)` answers.
pub open spec fn take_result_spec(v: CountLedgerView, ticket: u64, pending: bool) -> SurfaceCompatibilityCountsTake {
    match first_key_index(v.ready, ticket) {
        Some(i) => SurfaceCompatibilityCountsTake::Ready(v.ready[i].1),
        None => SurfaceCompatibilityCountsTake::Unavailable(
            SurfaceCompatibilityCountsUnavailable {
                family: v.family,
                ticket,
                reason: match last_value(v.outcomes, ticket) {
                    Some(outcome) => outcome_reason(outcome),
                    None => if pending {
                        SurfaceCompatibilityCountsUnavailableReason::Pending
                    } else {
                        SurfaceCompatibilityCountsUnavailableReason::InvalidTicket
                    },
                },
            },
        ),
    }
}

/// State after `take(ticket, _)`: ready counts are handed out once.
pub open spec fn take_state_spec(v: CountLedgerView, ticket: u64) -> CountLedgerView {
    match first_key_index(v.ready, ticket) {
        Some(i) => CountLedgerView {
            ready: v.ready.remove(i),
            outcomes: record_outcome_spec(v.outcomes, ticket, CountOutcome::Consumed, v.capacity),
            ..v
        },
        None => v,
    }
}

/// Ledger of the counts of completed tickets of one family.
pub struct CountLedger {
    family: SurfaceCompatibilityCountFamily,
    capacity: usize,
    ready: VecDeque<(u64, SurfaceCompatibilityCounts)>,
    outcomes: VecDeque<(u64, CountOutcome)>,
}

impl View for CountLedger {
    type V = CountLedgerView;

    closed spec fn view(&self) -> CountLedgerView {
        CountLedgerView {
            family: self.family,
            capacity: self.capacity as nat,
            ready: self.ready@,
            outcomes: self.outcomes@,
        }
    }
}

/// Invariant of a ledger state.
pub open spec fn ledger_wf(v: CountLedgerView) -> bool {
    &&& v.capacity >= 1
    &&& v.ready.len() <= v.capacity
    &&& v.outcomes.len() <= v.capacity
    &&& unique_keys(v.ready)
    &&& forall|i: int|
        0 <= i < v.ready.len() ==> (#[trigger] v.ready[i]).0 == v.ready[i].1.ticket
            && v.ready[i].1.family == v.family
}

proof fn lemma_filter_ready_wf(v: CountLedgerView, ticket: u64)
    requires
        ledger_wf(v),
    ensures
        ({
            let r = v.ready.filter(keeps_other::<SurfaceCompatibilityCounts>(ticket));
            &&& r.len() <= v.ready.len()
            &&& unique_keys(r)
            &&& !has_key(r, ticket)
            &&& forall|i: int|
                0 <= i < r.len() ==> (#[trigger] r[i]).0 == r[i].1.ticket && r[i].1.family
                    == v.family
        }),
{
    let p = keeps_other::<SurfaceCompatibilityCounts>(ticket);
    let r = v.ready.filter(p);
    lemma_filter_unique(v.ready, p);
    lemma_filter_removes_key(v.ready, ticket);
    assert forall|i: int| 0 <= i < r.len() implies (#[trigger] r[i]).0 == r[i].1.ticket
        && r[i].1.family == v.family by {
        lemma_filter_member(v.ready, p, i);
        let k = choose|k: int| 0 <= k < v.ready.len() && v.ready[k] == r[i];
        assert(v.ready[k].0 == v.ready[k].1.ticket);
    }
}

impl CountLedger {
    pub open spec fn wf(&self) -> bool {
        ledger_wf(self@)
    }

    pub fn new(family: SurfaceCompatibilityCountFamily, capacity: usize) -> (r: Self)
        requires
            capacity >= 1,
        ensures
            r.wf(),
            r@.family == family,
            r@.capacity == capacity,
            r@.ready == Seq::<(u64, SurfaceCompatibilityCounts)>::empty(),
            r@.outcomes == Seq::<(u64, CountOutcome)>::empty(),
    {
        Self {
            family,
            capacity,
            ready: VecDeque::with_capacity(capacity),
            outcomes: VecDeque::with_capacity(capacity),
        }
    }

    /// Records `outcome` as the latest outcome of `ticket`.
    pub fn record_outcome(&mut self, ticket: u64, outcome: CountOutcome)
        requires
            old(self).wf(),
        ensures
            final(self).wf(),
            final(self)@ == (CountLedgerView {
                outcomes: record_outcome_spec(old(self)@.outcomes, ticket, outcome, old(self)@.capacity),
                ..old(self)@
            }),
    {
        broadcast use vstd::std_specs::vecdeque::axiom_spec_len;

        proof {
            lemma_filter_removes_key(self.outcomes@, ticket);
        }
        retain_other_tickets(&mut self.outcomes, ticket);
        if self.outcomes.len() == self.capacity {
            self.outcomes.pop_front();
        }
        self.outcomes.push_back((ticket, outcome));
    }

    /// Forgets the counts and outcome of `ticket` when it is issued anew.
    pub fn begin(&mut self, ticket: u64)
        requires
            old(self).wf(),
        ensures
            final(self).wf(),
            final(self)@ == begin_spec(old(self)@, ticket),
    {
        proof {
            lemma_filter_ready_wf(self@, ticket);
            lemma_filter_removes_key(self.outcomes@, ticket);
        }
        retain_other_tickets(&mut self.ready, ticket);
        retain_other_tickets(&mut self.outcomes, ticket);
    }

    /// Makes `counts` ready for one `take`.
    pub fn publish(&mut self, counts: SurfaceCompatibilityCounts)
        requires
            old(self).wf(),
            counts.family == old(self)@.family,
        ensures
            final(self).wf(),
            final(self)@ == publish_spec(old(self)@, counts),
    {
        broadcast use vstd::std_specs::vecdeque::axiom_spec_len;

        let ghost v = self@;
        proof {
            lemma_filter_ready_wf(self@, counts.ticket);
            lemma_filter_removes_key(self.outcomes@, counts.ticket);
        }
        retain_other_tickets(&mut self.ready, counts.ticket);
        retain_other_tickets(&mut self.outcomes, counts.ticket);
        let ghost r = self.ready@;
        if self.ready.len() == self.capacity {
            match self.ready.pop_front() {
                Some(expired) => {
                    self.record_outcome(expired.0, CountOutcome::Expired);
                },
                None => {},
            }
        }
        let ghost before_push = self.ready@;
        self.ready.push_back((counts.ticket, counts));
        proof {
            assert(!has_key(before_push, counts.ticket)) by {
                if has_key(before_push, counts.ticket) {
                    let i = choose|i: int|
                        0 <= i < before_push.len() && before_push[i].0 == counts.ticket;
                    if r.len() == v.capacity {
                        assert(before_push[i] == r[i + 1]);
                    } else {
                        assert(before_push[i] == r[i]);
                    }
                }
            }
            assert forall|i: int, j: int|
                0 <= i < j < self.ready@.len() implies self.ready@[i].0 != self.ready@[j].0 by {
                if j < before_push.len() {
                    if r.len() == v.capacity {
                        assert(before_push[i] == r[i + 1]);
                        assert(before_push[j] == r[j + 1]);
                    }
                }
            }
            assert forall|i: int| 0 <= i < self.ready@.len() implies (
            #[trigger] self.ready@[i]).0 == self.ready@[i].1.ticket && self.ready@[i].1.family
                == v.family by {
                if i < before_push.len() && r.len() == v.capacity {
                    assert(before_push[i] == r[i + 1]);
                }
            }
        }
    }

    /// Discards the counts of `ticket` and records that it failed.
    pub fn fail(&mut self, ticket: u64)
        requires
            old(self).wf(),
        ensures
            final(self).wf(),
            final(self)@ == fail_spec(old(self)@, ticket),
    {
        proof {
            lemma_filter_ready_wf(self@, ticket);
        }
        retain_other_tickets(&mut self.ready, ticket);
        self.record_outcome(ticket, CountOutcome::Failed);
    }

    /// Hands out the counts of `ticket` once; otherwise says why they are not
    /// available. `pending` tells whether the ticket awaits its terminal.
    pub fn take(&mut self, ticket: u64, pending: bool) -> (r: SurfaceCompatibilityCountsTake)
        requires
            old(self).wf(),
        ensures
            final(self).wf(),
            r == take_result_spec(old(self)@, ticket, pending),
            final(self)@ == take_state_spec(old(self)@, ticket),
    {
        proof {
            lemma_first_key_index(self.ready@, ticket);
        }
        match position_of_ticket(&self.ready, ticket) {
            Some(index) => {
                let ghost before = self.ready@;
                let entry = self.ready[index];
                let _ = self.ready.remove(index);
                proof {
                    assert forall|i: int, j: int|
                        0 <= i < j < self.ready@.len() implies self.ready@[i].0
                        != self.ready@[j].0 by {
                        if i >= index {
                            assert(self.ready@[i] == before[i + 1]);
                        }
                        if j >= index {
                            assert(self.ready@[j] == before[j + 1]);
                        }
                    }
                    assert forall|i: int| 0 <= i < self.ready@.len() implies (
                    #[trigger] self.ready@[i]).0 == self.ready@[i].1.ticket
                        && self.ready@[i].1.family == self@.family by {
                        if i >= index {
                            assert(self.ready@[i] == before[i + 1]);
                        }
                    }
                }
                self.record_outcome(ticket, CountOutcome::Consumed);
                SurfaceCompatibilityCountsTake::Ready(entry.1)
            },
            None => {
                let reason = match last_outcome(&self.outcomes, ticket) {
                    Some(CountOutcome::Failed) => SurfaceCompatibilityCountsUnavailableReason::Failed,
                    Some(CountOutcome::Expired) => SurfaceCompatibilityCountsUnavailableReason::Expired,
                    Some(CountOutcome::Consumed) => SurfaceCompatibilityCountsUnavailableReason::Consumed,
                    None => if pending {
                        SurfaceCompatibilityCountsUnavailableReason::Pending
                    } else {
                        SurfaceCompatibilityCountsUnavailableReason::InvalidTicket
                    },
                };
                SurfaceCompatibilityCountsTake::Unavailable(
                    SurfaceCompatibilityCountsUnavailable { family: self.family, ticket, reason },
                )
            },
        }
    }
}

/// Counts made ready by `publish` are what the next `take` of their ticket
/// hands out, whatever else the ledger holds.
pub proof fn lemma_publish_then_take_is_ready(
    v: CountLedgerView,
    counts: SurfaceCompatibilityCounts,
    pending: bool,
)
    requires
        ledger_wf(v),
        counts.family == v.family,
    ensures
        take_result_spec(publish_spec(v, counts), counts.ticket, pending)
            == SurfaceCompatibilityCountsTake::Ready(counts),
{
    lemma_filter_ready_wf(v, counts.ticket);
    let r = v.ready.filter(keeps_other::<SurfaceCompatibilityCounts>(counts.ticket));
    let after = publish_spec(v, counts).ready;
    let last = after.len() - 1;
    assert(after[last] == (counts.ticket, counts));
    assert forall|j: int| 0 <= j < last implies after[j].0 != counts.ticket by {
        if r.len() >= v.capacity && r.len() > 0 {
            assert(after[j] == r[j + 1]);
        } else {
            assert(after[j] == r[j]);
        }
        if r[j].0 == counts.ticket || (j + 1 < r.len() && r[j + 1].0 == counts.ticket) {
            assert(has_key(r, counts.ticket));
        }
    }
    assert(crate::evidence::keyed::is_first_key_index(after, counts.ticket, last));
    lemma_first_key_index(after, counts.ticket);
}

/// Counts are handed out at most once: after a `take` that returned them,
/// the next `take` of the same ticket answers `Consumed`.
pub proof fn lemma_take_is_once(v: CountLedgerView, ticket: u64, pending: bool, again: bool)
    requires
        ledger_wf(v),
        take_result_spec(v, ticket, pending) is Ready,
    ensures
        take_result_spec(take_state_spec(v, ticket), ticket, again)
            == SurfaceCompatibilityCountsTake::Unavailable(
            SurfaceCompatibilityCountsUnavailable {
                family: v.family,
                ticket,
                reason: SurfaceCompatibilityCountsUnavailableReason::Consumed,
            },
        ),
{
    lemma_first_key_index(v.ready, ticket);
    let i = first_key_index(v.ready, ticket)->0;
    let after = v.ready.remove(i);
    assert(!has_key(after, ticket)) by {
        if has_key(after, ticket) {
            let k = choose|k: int| 0 <= k < after.len() && after[k].0 == ticket;
            if k < i {
                assert(after[k] == v.ready[k]);
            } else {
                assert(after[k] == v.ready[k + 1]);
            }
        }
    }
    lemma_first_key_index(after, ticket);
    let kept = v.outcomes.filter(keeps_other::<CountOutcome>(ticket));
    let room = if kept.len() >= v.capacity {
        kept.drop_first()
    } else {
        kept
    };
    crate::evidence::keyed::lemma_last_value_push(room, ticket, CountOutcome::Consumed);
}

/// After the measurement of a ticket failed, taking its counts answers
/// `Failed`.
pub proof fn lemma_fail_then_take_is_failed(v: CountLedgerView, ticket: u64, pending: bool)
    requires
        ledger_wf(v),
    ensures
        take_result_spec(fail_spec(v, ticket), ticket, pending)
            == SurfaceCompatibilityCountsTake::Unavailable(
            SurfaceCompatibilityCountsUnavailable {
                family: v.family,
                ticket,
                reason: SurfaceCompatibilityCountsUnavailableReason::Failed,
            },
        ),
{
    lemma_filter_ready_wf(v, ticket);
    let r = v.ready.filter(keeps_other::<SurfaceCompatibilityCounts>(ticket));
    lemma_first_key_index(r, ticket);
    let kept = v.outcomes.filter(keeps_other::<CountOutcome>(ticket));
    let room = if kept.len() >= v.capacity {
        kept.drop_first()
    } else {
        kept
    };
    crate::evidence::keyed::lemma_last_value_push(room, ticket, CountOutcome::Failed);
}

/// A newly issued ticket has no stale counts: taking them answers `Pending`
/// while its terminal is awaited and `InvalidTicket` otherwise.
pub proof fn lemma_begin_then_take_is_pending(v: CountLedgerView, ticket: u64, pending: bool)
    requires
        ledger_wf(v),
    ensures
        take_result_spec(begin_spec(v, ticket), ticket, pending)
            == SurfaceCompatibilityCountsTake::Unavailable(
            SurfaceCompatibilityCountsUnavailable {
                family: v.family,
                ticket,
                reason: if pending {
                    SurfaceCompatibilityCountsUnavailableReason::Pending
                } else {
                    SurfaceCompatibilityCountsUnavailableReason::InvalidTicket
                },
            },
        ),
{
    lemma_filter_ready_wf(v, ticket);
    let r = v.ready.filter(keeps_other::<SurfaceCompatibilityCounts>(ticket));
    lemma_first_key_index(r, ticket);
    lemma_filter_removes_key(v.outcomes, ticket);
    let o = v.outcomes.filter(keeps_other::<CountOutcome>(ticket));
    crate::evidence::keyed::lemma_last_key_index(o, ticket);
}

/// The outcome recorded last for `ticket`.
fn last_outcome(outcomes: &VecDeque<(u64, CountOutcome)>, ticket: u64) -> (r: Option<CountOutcome>)
    ensures
        r == last_value(outcomes@, ticket),
{
    broadcast use vstd::std_specs::vecdeque::axiom_spec_len;

    proof {
        crate::evidence::keyed::lemma_last_key_index(outcomes@, ticket);
    }
    let mut index = outcomes.len();
    while index > 0
        invariant
            index <= outcomes@.len(),
            forall|j: int| index <= j < outcomes@.len() ==> outcomes@[j].0 != ticket,
        decreases index,
    {
        index -= 1;
        if outcomes[index].0 == ticket {
            proof {
                assert(outcomes@[index as int].0 == ticket);
            }
            return Some(outcomes[index].1);
        }
    }
    None
}

} // verus!
