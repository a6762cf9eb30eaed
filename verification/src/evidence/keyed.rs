//! Ticket-keyed FIFO helpers: entries are `(ticket, value)` pairs kept in
//! arrival order.

use std::collections::VecDeque;
use vstd::prelude::*;

verus! {

/// Keeps the entries whose ticket differs from `ticket`.
pub open spec fn keeps_other<C>(ticket: u64) -> spec_fn((u64, C)) -> bool {
    |e: (u64, C)| e.0 != ticket
}

/// `i` is the first position of `s` that holds `ticket`.
pub open spec fn is_first_key_index<C>(s: Seq<(u64, C)>, ticket: u64, i: int) -> bool {
    &&& 0 <= i < s.len()
    &&& s[i].0 == ticket
    &&& forall|j: int| 0 <= j < i ==> s[j].0 != ticket
}

/// Whether some entry of `s` holds `ticket`.
pub open spec fn has_key<C>(s: Seq<(u64, C)>, ticket: u64) -> bool {
    exists|i: int| 0 <= i < s.len() && s[i].0 == ticket
}

/// The first position of `s` that holds `ticket`, if any.
pub open spec fn first_key_index<C>(s: Seq<(u64, C)>, ticket: u64) -> Option<int> {
    if has_key(s, ticket) {
        Some(choose|i: int| is_first_key_index(s, ticket, i))
    } else {
        None
    }
}

/// The last position of `s` that holds `ticket`, if any.
pub open spec fn last_key_index<C>(s: Seq<(u64, C)>, ticket: u64) -> Option<int> {
    if has_key(s, ticket) {
        Some(
            choose|i: int|
                0 <= i < s.len() && s[i].0 == ticket && forall|j: int|
                    i < j < s.len() ==> s[j].0 != ticket,
        )
    } else {
        None
    }
}

/// The value recorded last for `ticket`.
pub open spec fn last_value<C>(s: Seq<(u64, C)>, ticket: u64) -> Option<C> {
    match last_key_index(s, ticket) {
        Some(i) => Some(s[i].1),
        None => None,
    }
}

/// A first index exists exactly when the ticket occurs, and it is unique.
pub proof fn lemma_first_key_index<C>(s: Seq<(u64, C)>, ticket: u64)
    ensures
        has_key(s, ticket) ==> is_first_key_index(s, ticket, first_key_index(s, ticket)->0),
        has_key(s, ticket) ==> forall|i: int|
            is_first_key_index(s, ticket, i) ==> i == first_key_index(s, ticket)->0,
        first_key_index(s, ticket) is None <==> !has_key(s, ticket),
    decreases s.len(),
{
    if has_key(s, ticket) {
        let w = choose|i: int| 0 <= i < s.len() && s[i].0 == ticket;
        if s[0].0 == ticket {
            assert(is_first_key_index(s, ticket, 0));
        } else {
            let t = s.drop_first();
            assert(t[w - 1].0 == ticket);
            assert(has_key(t, ticket));
            lemma_first_key_index(t, ticket);
            let k = first_key_index(t, ticket)->0;
            assert forall|j: int| 0 <= j < k + 1 implies s[j].0 != ticket by {
                if j > 0 {
                    assert(s[j] == t[j - 1]);
                }
            }
            assert(is_first_key_index(s, ticket, k + 1));
        }
    }
}

/// A last index exists exactly when the ticket occurs.
pub proof fn lemma_last_key_index<C>(s: Seq<(u64, C)>, ticket: u64)
    ensures
        has_key(s, ticket) ==> {
            let i = last_key_index(s, ticket)->0;
            &&& 0 <= i < s.len()
            &&& s[i].0 == ticket
            &&& forall|j: int| i < j < s.len() ==> s[j].0 != ticket
        },
        last_key_index(s, ticket) is None <==> !has_key(s, ticket),
    decreases s.len(),
{
    if has_key(s, ticket) {
        let n = s.len() - 1;
        if s[n].0 == ticket {
            assert(0 <= n < s.len() && s[n].0 == ticket && forall|j: int|
                n < j < s.len() ==> s[j].0 != ticket);
        } else {
            let t = s.drop_last();
            let w = choose|i: int| 0 <= i < s.len() && s[i].0 == ticket;
            assert(t[w].0 == ticket);
            lemma_last_key_index(t, ticket);
            let k = last_key_index(t, ticket)->0;
            assert(s[k] == t[k]);
            assert forall|j: int| k < j < s.len() implies s[j].0 != ticket by {
                if j < n {
                    assert(s[j] == t[j]);
                }
            }
        }
    }
}

/// The last value of `s.push((t, v))` for `t` is `v`.
pub proof fn lemma_last_value_push<C>(s: Seq<(u64, C)>, t: u64, v: C)
    ensures
        last_value(s.push((t, v)), t) == Some(v),
{
    let p = s.push((t, v));
    assert(p[s.len() as int].0 == t);
    lemma_last_key_index(p, t);
}

/// No entry of the filtered sequence holds `ticket`.
pub proof fn lemma_filter_removes_key<C>(s: Seq<(u64, C)>, ticket: u64)
    ensures
        !has_key(s.filter(keeps_other::<C>(ticket)), ticket),
        s.filter(keeps_other::<C>(ticket)).len() <= s.len(),
{
    broadcast use vstd::seq_lib::group_filter_ensures;

    let f = s.filter(keeps_other::<C>(ticket));
    if has_key(f, ticket) {
        let i = choose|i: int| 0 <= i < f.len() && f[i].0 == ticket;
        assert(keeps_other::<C>(ticket)(f[i]));
    }
}

/// No ticket occurs twice in `s`.
pub open spec fn unique_keys<C>(s: Seq<(u64, C)>) -> bool {
    forall|i: int, j: int| 0 <= i < j < s.len() ==> s[i].0 != s[j].0
}

/// Filtering keeps tickets unique.
pub proof fn lemma_filter_unique<C>(s: Seq<(u64, C)>, p: spec_fn((u64, C)) -> bool)
    requires
        unique_keys(s),
    ensures
        unique_keys(s.filter(p)),
    decreases s.len(),
{
    reveal(Seq::filter);
    if s.len() > 0 {
        let d = s.drop_last();
        assert(unique_keys(d));
        lemma_filter_unique(d, p);
        let df = d.filter(p);
        if p(s.last()) {
            assert forall|i: int| 0 <= i < df.len() implies df[i].0 != s.last().0 by {
                assert(df.contains(df[i]));
                d.lemma_filter_contains_rev(p, df[i]);
                let k = choose|k: int| 0 <= k < d.len() && d[k] == df[i];
                assert(s[k] == d[k]);
            }
            assert(s.filter(p) == df.push(s.last()));
        }
    }
}

/// Replacing the record of a ticket keeps tickets unique.
pub proof fn lemma_unique_after_replace<C>(s: Seq<(u64, C)>, ticket: u64, value: C)
    requires
        unique_keys(s),
    ensures
        unique_keys(s.filter(keeps_other::<C>(ticket)).push((ticket, value))),
{
    let f = s.filter(keeps_other::<C>(ticket));
    lemma_filter_unique(s, keeps_other::<C>(ticket));
    lemma_filter_removes_key(s, ticket);
    let p = f.push((ticket, value));
    assert forall|i: int, j: int| 0 <= i < j < p.len() implies p[i].0 != p[j].0 by {
        if j == f.len() {
            assert(p[i] == f[i]);
        }
    }
}

/// Removing an entry keeps tickets unique.
pub proof fn lemma_unique_after_remove<C>(s: Seq<(u64, C)>, i: int)
    requires
        unique_keys(s),
        0 <= i < s.len(),
    ensures
        unique_keys(s.remove(i)),
{
    let r = s.remove(i);
    assert forall|a: int, b: int| 0 <= a < b < r.len() implies r[a].0 != r[b].0 by {
        let a2 = if a < i {
            a
        } else {
            a + 1
        };
        let b2 = if b < i {
            b
        } else {
            b + 1
        };
        assert(r[a] == s[a2]);
        assert(r[b] == s[b2]);
    }
}

/// Every entry kept by a filter was an entry of the original sequence.
pub proof fn lemma_filter_member<C>(s: Seq<(u64, C)>, p: spec_fn((u64, C)) -> bool, i: int)
    requires
        0 <= i < s.filter(p).len(),
    ensures
        exists|k: int| 0 <= k < s.len() && s[k] == s.filter(p)[i],
{
    assert(s.filter(p).contains(s.filter(p)[i]));
    s.lemma_filter_contains_rev(p, s.filter(p)[i]);
}

/// Removes every entry that holds `ticket`, keeping the order of the others.
pub fn retain_other_tickets<C: Copy>(queue: &mut VecDeque<(u64, C)>, ticket: u64)
    ensures
        final(queue)@ == old(queue)@.filter(keeps_other::<C>(ticket)),
{
    broadcast use vstd::std_specs::vecdeque::axiom_spec_len;

    let ghost original = queue@;
    let count = queue.len();
    let mut index: usize = 0;
    while index < count
        invariant
            count == original.len(),
            index <= count,
            queue@ == original.subrange(index as int, count as int) + original.take(
                index as int,
            ).filter(keeps_other::<C>(ticket)),
        decreases count - index,
    {
        let ghost kept = original.take(index as int).filter(keeps_other::<C>(ticket));
        proof {
            original.take(index as int).lemma_filter_push(
                original[index as int],
                keeps_other::<C>(ticket),
            );
            assert(original.take(index as int).push(original[index as int]) =~= original.take(
                index + 1,
            ));
        }
        match queue.pop_front() {
            Some(entry) => {
                proof {
                    assert(entry == original[index as int]);
                    assert(queue@ =~= original.subrange(index + 1, count as int) + kept);
                }
                if entry.0 != ticket {
                    queue.push_back(entry);
                    proof {
                        assert(queue@ =~= original.subrange(index + 1, count as int) + kept.push(
                            entry,
                        ));
                    }
                }
            },
            None => {},
        }
        index += 1;
    }
    proof {
        assert(original.take(count as int) =~= original);
        assert(queue@ =~= original.filter(keeps_other::<C>(ticket)));
    }
}

/// Position of the first entry that holds `ticket`.
pub fn position_of_ticket<C: Copy>(queue: &VecDeque<(u64, C)>, ticket: u64) -> (r: Option<usize>)
    ensures
        r matches Some(i) ==> first_key_index(queue@, ticket) == Some(i as int),
        r is None ==> first_key_index(queue@, ticket) is None,
{
    broadcast use vstd::std_specs::vecdeque::axiom_spec_len;

    proof {
        lemma_first_key_index(queue@, ticket);
    }
    let count = queue.len();
    let mut index: usize = 0;
    while index < count
        invariant
            count == queue@.len(),
            index <= count,
            forall|j: int| 0 <= j < index ==> queue@[j].0 != ticket,
        decreases count - index,
    {
        if queue[index].0 == ticket {
            proof {
                assert(is_first_key_index(queue@, ticket, index as int));
            }
            return Some(index);
        }
        index += 1;
    }
    None
}

/// Records `context` for `ticket`, replacing any earlier record of it.
pub fn replace_pending<C: Copy>(pending: &mut VecDeque<(u64, C)>, ticket: u64, context: C)
    ensures
        final(pending)@ == old(pending)@.filter(keeps_other::<C>(ticket)).push((ticket, context)),
{
    retain_other_tickets(pending, ticket);
    pending.push_back((ticket, context));
}

/// Removes the first record of `ticket` and returns its context.
pub fn take_pending<C: Copy>(pending: &mut VecDeque<(u64, C)>, ticket: u64) -> (r: Option<C>)
    ensures
        match first_key_index(old(pending)@, ticket) {
            Some(i) => r == Some(old(pending)@[i].1) && final(pending)@ == old(pending)@.remove(i),
            None => r is None && final(pending)@ == old(pending)@,
        },
{
    proof {
        lemma_first_key_index(pending@, ticket);
    }
    match position_of_ticket(pending, ticket) {
        Some(index) => match pending.remove(index) {
            Some(entry) => Some(entry.1),
            None => None,
        },
        None => None,
    }
}

} // verus!
