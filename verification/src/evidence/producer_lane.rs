//! What the lossless raw view of producer successes holds over any run of
//! submissions, publications and compatibility polls.

use crate::evidence::compatibility::{
    SurfaceCompatibilityOrderSubmission, SurfaceCompatibilityProducerIssueContext,
    SurfaceCompatibilityProducerSubmission, SurfaceCompatibilityProjectedSubmission,
    SurfaceCompatibilityTerminalSelector, SurfaceCompatibilityTerminalUnavailable,
};
use crate::evidence::keyed::first_key_index;
use crate::evidence::producer_queue::{
    ProducerEntry, first_visible, hide_entry, lemma_first_visible, producer_push_spec,
};
use crate::evidence::session::lemma_submissions_leave_terminals_alone;
use crate::evidence::store::{
    EvidenceStoreView, SurfaceCompatibilityTerminal, SurfaceCompatibilityTerminalPoll, observe_spec,
    poll_result_spec, poll_state_spec, publish_producer_success_spec,
};
use vstd::prelude::*;

verus! {

broadcast use vstd::seq_lib::group_seq_properties;

type ProducerIssue = SurfaceCompatibilityProducerIssueContext;

/// Payloads of the producer successes the raw view holds, oldest first.
pub open spec fn raw_producer_payloads<A, B, D, E>(v: EvidenceStoreView<A, B, D, E>) -> Seq<E> {
    v.producer_success.map_values(|e: ProducerEntry<E, ProducerIssue>| e.terminal.payload)
}

/// `accepted` without the payloads in `delivered`, in order.
pub open spec fn undelivered<E>(accepted: Seq<E>, delivered: Seq<E>) -> Seq<E> {
    accepted.filter(|e: E| !delivered.contains(e))
}

proof fn lemma_filter_congruent<E>(s: Seq<E>, p: spec_fn(E) -> bool, q: spec_fn(E) -> bool)
    requires
        forall|k: int| 0 <= k < s.len() ==> p(#[trigger] s[k]) == q(s[k]),
    ensures
        s.filter(p) == s.filter(q),
    decreases s.len(),
{
    reveal(Seq::filter);
    if s.len() > 0 {
        let d = s.drop_last();
        assert forall|k: int| 0 <= k < d.len() implies p(#[trigger] d[k]) == q(d[k]) by {
            assert(d[k] == s[k]);
        }
        lemma_filter_congruent(d, p, q);
    }
}

/// Removing one element of a filtered sequence without duplicates is
/// filtering it out as well.
proof fn lemma_filter_remove<E>(s: Seq<E>, p: spec_fn(E) -> bool, i: int)
    requires
        s.no_duplicates(),
        0 <= i < s.filter(p).len(),
    ensures
        s.filter(|e: E| p(e) && e != s.filter(p)[i]) == s.filter(p).remove(i),
    decreases s.len(),
{
    reveal(Seq::filter);
    let x = s.filter(p)[i];
    let q = |e: E| p(e) && e != x;
    let d = s.drop_last();
    let y = s.last();
    let f0 = d.filter(p);
    assert(d.no_duplicates());
    if p(y) && i == f0.len() {
        assert(x == y);
        assert forall|k: int| 0 <= k < d.len() implies p(#[trigger] d[k]) == q(d[k]) by {
            assert(d[k] == s[k]);
            assert(s[k] != s[s.len() - 1]);
        }
        lemma_filter_congruent(d, p, q);
        assert(s.filter(p).remove(i) =~= f0);
    } else {
        assert(x == f0[i]);
        lemma_filter_remove(d, p, i);
        assert(d.filter(q) == f0.remove(i));
        if p(y) {
            d.lemma_filter_contains_rev(p, x);
            let k = choose|k: int| 0 <= k < d.len() && d[k] == x;
            assert(d[k] == s[k]);
            assert(x != y);
            assert(s.filter(q) == d.filter(q).push(y));
            assert(s.filter(p).remove(i) =~= f0.remove(i).push(y));
        } else {
            assert(s.filter(q) == d.filter(q));
        }
    }
}

proof fn lemma_filter_none<E>(s: Seq<E>, q: spec_fn(E) -> bool)
    requires
        forall|k: int| 0 <= k < s.len() ==> !q(#[trigger] s[k]),
    ensures
        s.filter(q) == Seq::<E>::empty(),
    decreases s.len(),
{
    reveal(Seq::filter);
    if s.len() > 0 {
        let d = s.drop_last();
        assert forall|k: int| 0 <= k < d.len() implies !q(#[trigger] d[k]) by {
            assert(d[k] == s[k]);
        }
        lemma_filter_none(d, q);
    }
    assert(s.filter(q) =~= Seq::<E>::empty());
}

/// Hiding an entry from the compatibility view keeps every raw payload.
proof fn lemma_push_keeps_raw<E>(s: Seq<ProducerEntry<E, ProducerIssue>>, payload: E, issue: ProducerIssue)
    ensures
        producer_push_spec(s, payload, issue).map_values(
            |e: ProducerEntry<E, ProducerIssue>| e.terminal.payload,
        ) == s.map_values(|e: ProducerEntry<E, ProducerIssue>| e.terminal.payload).push(payload),
{
    lemma_first_visible(s);
    let f = |e: ProducerEntry<E, ProducerIssue>| e.terminal.payload;
    match first_visible(s) {
        Some(i) => {
            assert(hide_entry(s, i).map_values(f) =~= s.map_values(f));
        },
        None => {},
    }
    assert(producer_push_spec(s, payload, issue).map_values(f) =~= s.map_values(f).push(payload));
}

/// One operation on the producer-success lane of a store.
pub enum ProducerLaneStep<E> {
    Observe {
        order: SurfaceCompatibilityOrderSubmission,
        projected: SurfaceCompatibilityProjectedSubmission,
        producer: SurfaceCompatibilityProducerSubmission,
    },
    Publish { ticket: u64, measurement: E },
    Poll,
    Drain,
}

pub open spec fn lane_step<A, B, D, E>(
    v: EvidenceStoreView<A, B, D, E>,
    step: ProducerLaneStep<E>,
) -> EvidenceStoreView<A, B, D, E> {
    match step {
        ProducerLaneStep::Observe { order, projected, producer } => observe_spec(
            v,
            order,
            projected,
            producer,
        ),
        ProducerLaneStep::Publish { ticket, measurement } => publish_producer_success_spec(
            v,
            ticket,
            measurement,
        ),
        ProducerLaneStep::Poll => poll_state_spec(
            v,
            SurfaceCompatibilityTerminalSelector::ProducerSuccess,
        ),
        ProducerLaneStep::Drain => EvidenceStoreView {
            producer_success: Seq::<ProducerEntry<E, ProducerIssue>>::empty(),
            ..v
        },
    }
}

/// The payload a step's publication was accepted with: one whose ticket
/// awaited its terminal.
pub open spec fn lane_accepted<A, B, D, E>(
    v: EvidenceStoreView<A, B, D, E>,
    step: ProducerLaneStep<E>,
) -> Seq<E> {
    match step {
        ProducerLaneStep::Publish { ticket, measurement } => if first_key_index(
            v.pending_producer,
            ticket,
        ) is Some {
            seq![measurement]
        } else {
            Seq::empty()
        },
        _ => Seq::empty(),
    }
}

/// The payloads a step delivered: the one a compatibility poll returned, or
/// every payload a drain returned.
pub open spec fn lane_delivered<A, B, D, E>(
    v: EvidenceStoreView<A, B, D, E>,
    step: ProducerLaneStep<E>,
) -> Seq<E> {
    match step {
        ProducerLaneStep::Poll => match poll_result_spec(
            v,
            SurfaceCompatibilityTerminalSelector::ProducerSuccess,
        ) {
            SurfaceCompatibilityTerminalPoll::Ready(
                SurfaceCompatibilityTerminal::ProducerSuccess(t),
            ) => seq![t.payload],
            _ => Seq::empty(),
        },
        ProducerLaneStep::Drain => raw_producer_payloads(v),
        _ => Seq::empty(),
    }
}

pub open spec fn run_lane<A, B, D, E>(
    v: EvidenceStoreView<A, B, D, E>,
    steps: Seq<ProducerLaneStep<E>>,
) -> EvidenceStoreView<A, B, D, E>
    decreases steps.len(),
{
    if steps.len() == 0 {
        v
    } else {
        lane_step(run_lane(v, steps.drop_last()), steps.last())
    }
}

/// Payloads accepted while running `steps`, in publication order.
pub open spec fn run_accepted<A, B, D, E>(
    v: EvidenceStoreView<A, B, D, E>,
    steps: Seq<ProducerLaneStep<E>>,
) -> Seq<E>
    decreases steps.len(),
{
    if steps.len() == 0 {
        Seq::empty()
    } else {
        run_accepted(v, steps.drop_last()) + lane_accepted(
            run_lane(v, steps.drop_last()),
            steps.last(),
        )
    }
}

/// Payloads the compatibility polls and drains delivered while running
/// `steps`.
pub open spec fn run_delivered<A, B, D, E>(
    v: EvidenceStoreView<A, B, D, E>,
    steps: Seq<ProducerLaneStep<E>>,
) -> Seq<E>
    decreases steps.len(),
{
    if steps.len() == 0 {
        Seq::empty()
    } else {
        run_delivered(v, steps.drop_last()) + lane_delivered(
            run_lane(v, steps.drop_last()),
            steps.last(),
        )
    }
}

/// Every delivered payload was accepted.
pub open spec fn delivered_accepted<E>(accepted: Seq<E>, delivered: Seq<E>) -> bool {
    forall|k: int| 0 <= k < delivered.len() ==> accepted.contains(#[trigger] delivered[k])
}

#[verifier::spinoff_prover]
proof fn lemma_publish_step<E>(acc0: Seq<E>, del0: Seq<E>, m: E)
    requires
        acc0.push(m).no_duplicates(),
        delivered_accepted(acc0, del0),
    ensures
        undelivered(acc0.push(m), del0) == undelivered(acc0, del0).push(m),
        delivered_accepted(acc0.push(m), del0),
{
    reveal(Seq::filter);
    let acc = acc0.push(m);
    assert(acc.drop_last() =~= acc0);
    assert(!del0.contains(m)) by {
        if del0.contains(m) {
            let k = choose|k: int| 0 <= k < del0.len() && del0[k] == m;
            assert(acc0.contains(del0[k]));
            let j = choose|j: int| 0 <= j < acc0.len() && acc0[j] == m;
            assert(acc[j] == acc[acc0.len() as int]);
        }
    }
    assert forall|k: int| 0 <= k < del0.len() implies acc.contains(#[trigger] del0[k]) by {
        assert(acc0.contains(del0[k]));
        let j = choose|j: int| 0 <= j < acc0.len() && acc0[j] == del0[k];
        assert(acc[j] == del0[k]);
    }
}

#[verifier::spinoff_prover]
proof fn lemma_poll_step<E>(acc0: Seq<E>, del0: Seq<E>, i: int)
    requires
        acc0.no_duplicates(),
        delivered_accepted(acc0, del0),
        0 <= i < undelivered(acc0, del0).len(),
    ensures
        undelivered(acc0, del0.push(undelivered(acc0, del0)[i])) == undelivered(acc0, del0).remove(
            i,
        ),
        delivered_accepted(acc0, del0.push(undelivered(acc0, del0)[i])),
{
    let p0 = |e: E| !del0.contains(e);
    let x = acc0.filter(p0)[i];
    let del = del0.push(x);
    lemma_filter_remove(acc0, p0, i);
    let q = |e: E| p0(e) && e != x;
    let p1 = |e: E| !del.contains(e);
    assert forall|k: int| 0 <= k < acc0.len() implies q(#[trigger] acc0[k]) == p1(acc0[k]) by {
        let e = acc0[k];
        if del.contains(e) && e != x {
            let m = choose|m: int| 0 <= m < del.len() && del[m] == e;
            assert(del0[m] == e);
        }
        if del0.contains(e) {
            let m = choose|m: int| 0 <= m < del0.len() && del0[m] == e;
            assert(del[m] == e);
        }
        assert(del[del0.len() as int] == x);
    }
    lemma_filter_congruent(acc0, q, p1);
    assert(acc0.filter(p0).contains(x));
    acc0.lemma_filter_contains_rev(p0, x);
    assert forall|k: int| 0 <= k < del.len() implies acc0.contains(#[trigger] del[k]) by {
        if k < del0.len() {
            assert(del[k] == del0[k]);
        }
    }
}

#[verifier::spinoff_prover]
proof fn lemma_drain_step<E>(acc0: Seq<E>, del0: Seq<E>)
    requires
        delivered_accepted(acc0, del0),
    ensures
        undelivered(acc0, del0 + undelivered(acc0, del0)) == Seq::<E>::empty(),
        delivered_accepted(acc0, del0 + undelivered(acc0, del0)),
{
    let p0 = |e: E| !del0.contains(e);
    let raw = acc0.filter(p0);
    let del = del0 + raw;
    let p1 = |e: E| !del.contains(e);
    assert forall|k: int| 0 <= k < acc0.len() implies !p1(#[trigger] acc0[k]) by {
        let e = acc0[k];
        if del0.contains(e) {
            let m = choose|m: int| 0 <= m < del0.len() && del0[m] == e;
            assert(del[m] == e);
        } else {
            acc0.lemma_filter_contains(p0, k);
            let m = choose|m: int| 0 <= m < raw.len() && raw[m] == e;
            assert(del[del0.len() + m] == e);
        }
    }
    lemma_filter_none(acc0, p1);
    assert forall|k: int| 0 <= k < del.len() implies acc0.contains(#[trigger] del[k]) by {
        if k < del0.len() {
            assert(del[k] == del0[k]);
        } else {
            let e = raw[k - del0.len()];
            assert(del[k] == e);
            assert(raw.contains(e));
            acc0.lemma_filter_contains_rev(p0, e);
        }
    }
}

proof fn lemma_run_lane<A, B, D, E>(v0: EvidenceStoreView<A, B, D, E>, steps: Seq<ProducerLaneStep<E>>)
    requires
        v0.producer_success.len() == 0,
        run_accepted(v0, steps).no_duplicates(),
    ensures
        raw_producer_payloads(run_lane(v0, steps)) == undelivered(
            run_accepted(v0, steps),
            run_delivered(v0, steps),
        ),
        delivered_accepted(run_accepted(v0, steps), run_delivered(v0, steps)),
    decreases steps.len(),
{
    let acc = run_accepted(v0, steps);
    let del = run_delivered(v0, steps);
    if steps.len() == 0 {
        reveal(Seq::filter);
        assert(raw_producer_payloads(v0) =~= Seq::<E>::empty());
    } else {
        let prefix = steps.drop_last();
        let v = run_lane(v0, prefix);
        let acc0 = run_accepted(v0, prefix);
        let del0 = run_delivered(v0, prefix);
        assert(acc0 =~= acc.take(acc0.len() as int));
        assert(acc0.no_duplicates());
        lemma_run_lane(v0, prefix);
        let raw = raw_producer_payloads(v);
        match steps.last() {
            ProducerLaneStep::Observe { order, projected, producer } => {
                lemma_submissions_leave_terminals_alone(v, order, projected, producer);
                assert(acc =~= acc0);
                assert(del =~= del0);
            },
            ProducerLaneStep::Publish { ticket, measurement } => {
                assert(del =~= del0);
                match first_key_index(v.pending_producer, ticket) {
                    Some(i) => {
                        lemma_push_keeps_raw(v.producer_success, measurement, v.pending_producer[i].1);
                        assert(acc =~= acc0.push(measurement));
                        lemma_publish_step(acc0, del0, measurement);
                    },
                    None => {
                        assert(acc =~= acc0);
                    },
                }
            },
            ProducerLaneStep::Poll => {
                assert(acc =~= acc0);
                lemma_first_visible(v.producer_success);
                match first_visible(v.producer_success) {
                    Some(i) => {
                        assert(raw[i] == v.producer_success[i].terminal.payload);
                        assert(del =~= del0.push(raw[i]));
                        assert(raw_producer_payloads(run_lane(v0, steps)) =~= raw.remove(i));
                        lemma_poll_step(acc0, del0, i);
                    },
                    None => {
                        assert(del =~= del0);
                    },
                }
            },
            ProducerLaneStep::Drain => {
                assert(acc =~= acc0);
                assert(del =~= del0 + raw);
                assert(raw_producer_payloads(run_lane(v0, steps)) =~= Seq::<E>::empty());
                lemma_drain_step(acc0, del0);
            },
        }
    }
}

/// The raw view of producer successes is lossless and in publication
/// order: after any run of submissions, publications, compatibility polls
/// and drains starting from an empty raw view (a new store), it holds exactly
/// the accepted payloads that no poll and no earlier drain delivered, in the
/// order they were published, however many outgrew the compatibility window.
/// So the next drain returns them all, and a compatibility poll after it finds
/// nothing. (Payloads are told apart by value, so they are taken distinct.)
pub proof fn lemma_producer_drain_is_lossless<A, B, D, E>(
    v0: EvidenceStoreView<A, B, D, E>,
    steps: Seq<ProducerLaneStep<E>>,
)
    requires
        v0.producer_success.len() == 0,
        run_accepted(v0, steps).no_duplicates(),
    ensures
        raw_producer_payloads(run_lane(v0, steps)) == undelivered(
            run_accepted(v0, steps),
            run_delivered(v0, steps),
        ),
        poll_result_spec(
            EvidenceStoreView {
                producer_success: Seq::<ProducerEntry<E, ProducerIssue>>::empty(),
                ..run_lane(v0, steps)
            },
            SurfaceCompatibilityTerminalSelector::ProducerSuccess,
        ) == SurfaceCompatibilityTerminalPoll::<A, B, D, E>::Unavailable(
            SurfaceCompatibilityTerminalUnavailable::Empty,
        ),
{
    lemma_run_lane(v0, steps);
    lemma_first_visible(Seq::<ProducerEntry<E, ProducerIssue>>::empty());
}

} // verus!
