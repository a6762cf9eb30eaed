//! Producer receipts with two views: a lossless raw view drained by the
//! caller and a bounded compatibility view polled one receipt at a time.

use std::collections::VecDeque;
use vstd::prelude::*;

use crate::evidence::compatibility::AtomicTerminal;
use crate::evidence::ring::EVIDENCE_RING_CAPACITY;

verus! {

/// A retained receipt and the views that can still deliver it.
#[derive(Debug, Clone, Copy)]
pub struct ProducerEntry<T, C> {
    pub terminal: AtomicTerminal<T, C>,
    pub raw_visible: bool,
    pub compatibility_visible: bool,
}

/// Number of entries still visible to the compatibility view.
pub open spec fn visible_count<T, C>(s: Seq<ProducerEntry<T, C>>) -> nat
    decreases s.len(),
{
    if s.len() == 0 {
        0
    } else {
        visible_count(s.drop_last()) + if s.last().compatibility_visible {
            1nat
        } else {
            0nat
        }
    }
}

/// `i` is the first entry still visible to the compatibility view.
pub open spec fn is_first_visible<T, C>(s: Seq<ProducerEntry<T, C>>, i: int) -> bool {
    &&& 0 <= i < s.len()
    &&& s[i].compatibility_visible
    &&& forall|j: int| 0 <= j < i ==> !s[j].compatibility_visible
}

pub open spec fn first_visible<T, C>(s: Seq<ProducerEntry<T, C>>) -> Option<int> {
    if exists|i: int| 0 <= i < s.len() && s[i].compatibility_visible {
        Some(choose|i: int| is_first_visible(s, i))
    } else {
        None
    }
}

/// `s` with entry `i` hidden from the compatibility view.
pub open spec fn hide_entry<T, C>(s: Seq<ProducerEntry<T, C>>, i: int) -> Seq<ProducerEntry<T, C>> {
    s.update(i, ProducerEntry { compatibility_visible: false, ..s[i] })
}

/// Entries after `push(payload, issue)`: a full compatibility window hides its
/// oldest visible entry, and the new receipt records that drop.
pub open spec fn producer_push_spec<T, C>(s: Seq<ProducerEntry<T, C>>, payload: T, issue: C) -> Seq<ProducerEntry<T, C>> {
    let full = visible_count(s) == EVIDENCE_RING_CAPACITY;
    let hidden = if full {
        match first_visible(s) {
            Some(i) => hide_entry(s, i),
            None => s,
        }
    } else {
        s
    };
    hidden.push(
        ProducerEntry {
            terminal: AtomicTerminal { payload, issue, dropped_prior: full },
            raw_visible: true,
            compatibility_visible: true,
        },
    )
}

pub proof fn lemma_first_visible<T, C>(s: Seq<ProducerEntry<T, C>>)
    ensures
        first_visible(s) matches Some(i) ==> is_first_visible(s, i),
        first_visible(s) is None ==> forall|j: int| 0 <= j < s.len() ==> !s[j].compatibility_visible,
    decreases s.len(),
{
    if exists|i: int| 0 <= i < s.len() && s[i].compatibility_visible {
        if s[0].compatibility_visible {
            assert(is_first_visible(s, 0));
        } else {
            let t = s.drop_first();
            let w = choose|i: int| 0 <= i < s.len() && s[i].compatibility_visible;
            assert(t[w - 1].compatibility_visible);
            lemma_first_visible(t);
            let k = first_visible(t)->0;
            assert forall|j: int| 0 <= j < k + 1 implies !s[j].compatibility_visible by {
                if j > 0 {
                    assert(s[j] == t[j - 1]);
                }
            }
            assert(is_first_visible(s, k + 1));
        }
    }
}

pub proof fn lemma_visible_count_push<T, C>(s: Seq<ProducerEntry<T, C>>, e: ProducerEntry<T, C>)
    ensures
        visible_count(s.push(e)) == visible_count(s) + if e.compatibility_visible {
            1nat
        } else {
            0nat
        },
{
    assert(s.push(e).drop_last() =~= s);
}

/// Some entry is visible exactly when the count is positive.
pub proof fn lemma_visible_count_positive<T, C>(s: Seq<ProducerEntry<T, C>>)
    ensures
        (visible_count(s) > 0) <==> (exists|i: int| 0 <= i < s.len() && s[i].compatibility_visible),
        visible_count(s) <= s.len(),
    decreases s.len(),
{
    if s.len() > 0 {
        let d = s.drop_last();
        lemma_visible_count_positive(d);
        if exists|i: int| 0 <= i < d.len() && d[i].compatibility_visible {
            let i = choose|i: int| 0 <= i < d.len() && d[i].compatibility_visible;
            assert(s[i] == d[i]);
        }
        if exists|i: int| 0 <= i < s.len() && s[i].compatibility_visible {
            let i = choose|i: int| 0 <= i < s.len() && s[i].compatibility_visible;
            if i < d.len() {
                assert(d[i] == s[i]);
            }
        }
    }
}

/// Hiding a visible entry lowers the count by one.
pub proof fn lemma_visible_count_hide<T, C>(s: Seq<ProducerEntry<T, C>>, i: int)
    requires
        0 <= i < s.len(),
        s[i].compatibility_visible,
    ensures
        visible_count(hide_entry(s, i)) + 1 == visible_count(s),
    decreases s.len(),
{
    let h = hide_entry(s, i);
    if i == s.len() - 1 {
        assert(h.drop_last() =~= s.drop_last());
    } else {
        lemma_visible_count_hide(s.drop_last(), i);
        assert(h.drop_last() =~= hide_entry(s.drop_last(), i));
    }
}

/// Removing a visible entry lowers the count by one.
pub proof fn lemma_visible_count_remove<T, C>(s: Seq<ProducerEntry<T, C>>, i: int)
    requires
        0 <= i < s.len(),
        s[i].compatibility_visible,
    ensures
        visible_count(s.remove(i)) + 1 == visible_count(s),
    decreases s.len(),
{
    if i == s.len() - 1 {
        assert(s.remove(i) =~= s.drop_last());
    } else {
        lemma_visible_count_remove(s.drop_last(), i);
        assert(s.remove(i).drop_last() =~= s.drop_last().remove(i));
        assert(s.remove(i).last() == s.last());
    }
}

pub struct ProducerTerminalQueue<T, C> {
    entries: VecDeque<ProducerEntry<T, C>>,
    compatibility_visible: usize,
}

impl<T, C> View for ProducerTerminalQueue<T, C> {
    type V = Seq<ProducerEntry<T, C>>;

    closed spec fn view(&self) -> Seq<ProducerEntry<T, C>> {
        self.entries@
    }
}

impl<T: Copy, C: Copy> ProducerTerminalQueue<T, C> {
    pub closed spec fn wf(&self) -> bool {
        &&& self.compatibility_visible == visible_count(self.entries@)
        &&& self.compatibility_visible <= EVIDENCE_RING_CAPACITY
        &&& self.entries@.len() < usize::MAX
        &&& forall|i: int| 0 <= i < self.entries@.len() ==> (#[trigger] self.entries@[i]).raw_visible
    }

    /// The compatibility window never holds more than its capacity.
    pub proof fn lemma_window_bounded(&self)
        requires
            self.wf(),
        ensures
            visible_count(self@) <= EVIDENCE_RING_CAPACITY,
            forall|i: int| 0 <= i < self@.len() ==> (#[trigger] self@[i]).raw_visible,
    {
    }

    pub fn new() -> (q: Self)
        ensures
            q.wf(),
            q@ == Seq::<ProducerEntry<T, C>>::empty(),
    {
        Self { entries: VecDeque::new(), compatibility_visible: 0 }
    }

    /// Retains a receipt for both views.
    pub fn push(&mut self, payload: T, issue: C)
        requires
            old(self).wf(),
            old(self)@.len() < usize::MAX - 1,
        ensures
            final(self).wf(),
            final(self)@ == producer_push_spec(old(self)@, payload, issue),
    {
        broadcast use vstd::std_specs::vecdeque::axiom_spec_len;

        let ghost s = self.entries@;
        let dropped_prior = self.compatibility_visible == EVIDENCE_RING_CAPACITY;
        if dropped_prior {
            proof {
                lemma_visible_count_positive(s);
                lemma_first_visible(s);
            }
            match first_visible_position(&self.entries) {
                Some(index) => {
                    let entry = self.entries[index];
                    let _ = self.entries.remove(index);
                    self.entries.insert(
                        index,
                        ProducerEntry { compatibility_visible: false, ..entry },
                    );
                    proof {
                        assert(self.entries@ =~= hide_entry(s, index as int));
                        lemma_visible_count_hide(s, index as int);
                    }
                    self.compatibility_visible -= 1;
                },
                None => {},
            }
        }
        let ghost hidden = self.entries@;
        let entry = ProducerEntry {
            terminal: AtomicTerminal { payload, issue, dropped_prior },
            raw_visible: true,
            compatibility_visible: true,
        };
        self.entries.push_back(entry);
        proof {
            lemma_visible_count_push(hidden, entry);
        }
        self.compatibility_visible += 1;
    }

    /// Delivers the oldest receipt of the compatibility view, which then
    /// leaves both views.
    pub fn poll(&mut self) -> (r: Option<AtomicTerminal<T, C>>)
        requires
            old(self).wf(),
        ensures
            final(self).wf(),
            match first_visible(old(self)@) {
                Some(i) => r == Some(old(self)@[i].terminal) && final(self)@ == old(self)@.remove(i),
                None => r is None && final(self)@ == old(self)@,
            },
    {
        proof {
            lemma_first_visible(self.entries@);
        }
        let ghost s = self.entries@;
        match first_visible_position(&self.entries) {
            Some(index) => {
                let entry = self.entries[index];
                let _ = self.entries.remove(index);
                proof {
                    lemma_visible_count_remove(s, index as int);
                    assert forall|i: int| 0 <= i < self.entries@.len() implies (
                    #[trigger] self.entries@[i]).raw_visible by {
                        if i >= index {
                            assert(self.entries@[i] == s[i + 1]);
                        }
                    }
                }
                self.compatibility_visible -= 1;
                Some(entry.terminal)
            },
            None => None,
        }
    }

    /// Delivers every retained payload through the raw view, oldest first, and
    /// empties both views.
    pub fn drain_raw(&mut self) -> (r: Vec<T>)
        requires
            old(self).wf(),
        ensures
            final(self).wf(),
            r@ == old(self)@.map_values(|e: ProducerEntry<T, C>| e.terminal.payload),
            final(self)@ == Seq::<ProducerEntry<T, C>>::empty(),
    {
        broadcast use vstd::std_specs::vecdeque::axiom_spec_len;

        let ghost s = self.entries@;
        let count = self.entries.len();
        let mut drained: Vec<T> = Vec::with_capacity(count);
        let mut index: usize = 0;
        while index < count
            invariant
                self.entries@ == s,
                count == s.len(),
                index <= count,
                forall|i: int| 0 <= i < s.len() ==> (#[trigger] s[i]).raw_visible,
                drained@ == s.take(index as int).map_values(
                    |e: ProducerEntry<T, C>| e.terminal.payload,
                ),
            decreases count - index,
        {
            let entry = self.entries[index];
            if entry.raw_visible {
                drained.push(entry.terminal.payload);
            }
            proof {
                assert(s.take(index + 1) =~= s.take(index as int).push(s[index as int]));
                assert(drained@ =~= s.take(index + 1).map_values(
                    |e: ProducerEntry<T, C>| e.terminal.payload,
                ));
            }
            index += 1;
        }
        proof {
            assert(s.take(count as int) =~= s);
        }
        self.entries.clear();
        self.compatibility_visible = 0;
        drained
    }

    pub fn compatibility_is_empty(&self) -> (r: bool)
        requires
            self.wf(),
        ensures
            r == (visible_count(self@) == 0),
    {
        self.compatibility_visible == 0
    }
}

/// Position of the first entry still visible to the compatibility view.
fn first_visible_position<T: Copy, C: Copy>(entries: &VecDeque<ProducerEntry<T, C>>) -> (r: Option<usize>)
    ensures
        r matches Some(i) ==> first_visible(entries@) == Some(i as int),
        r is None ==> first_visible(entries@) is None,
{
    broadcast use vstd::std_specs::vecdeque::axiom_spec_len;

    proof {
        lemma_first_visible(entries@);
    }
    let count = entries.len();
    let mut index: usize = 0;
    while index < count
        invariant
            count == entries@.len(),
            index <= count,
            forall|j: int| 0 <= j < index ==> !entries@[j].compatibility_visible,
        decreases count - index,
    {
        if entries[index].compatibility_visible {
            proof {
                assert(is_first_visible(entries@, index as int));
                let k = first_visible(entries@)->0;
                assert(is_first_visible(entries@, k));
            }
            return Some(index);
        }
        index += 1;
    }
    None
}

} // verus!
