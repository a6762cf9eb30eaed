//! Bounded FIFO of terminal receipts that marks each receipt admitted by
//! dropping an older one.

use vstd::prelude::*;

use crate::evidence::compatibility::AtomicTerminal;
use crate::evidence::ring::{BoundedEvidenceRing, EVIDENCE_RING_CAPACITY, ring_push};

verus! {

/// The record that `push(payload, issue)` appends to a queue holding `s`.
pub open spec fn admitted_terminal<T, C>(s: Seq<AtomicTerminal<T, C>>, payload: T, issue: C) -> AtomicTerminal<T, C> {
    AtomicTerminal { payload, issue, dropped_prior: s.len() == EVIDENCE_RING_CAPACITY }
}

pub struct BoundedTerminalQueue<T, C> {
    entries: BoundedEvidenceRing<AtomicTerminal<T, C>>,
    len: usize,
}

impl<T, C> View for BoundedTerminalQueue<T, C> {
    type V = Seq<AtomicTerminal<T, C>>;

    closed spec fn view(&self) -> Seq<AtomicTerminal<T, C>> {
        self.entries@
    }
}

impl<T: Copy, C: Copy> BoundedTerminalQueue<T, C> {
    pub closed spec fn wf(&self) -> bool {
        &&& self.entries.wf()
        &&& self.len == self.entries@.len()
    }

    /// A queue never holds more receipts than its ring retains.
    pub proof fn lemma_bounded(&self)
        requires
            self.wf(),
        ensures
            self@.len() <= EVIDENCE_RING_CAPACITY,
    {
    }

    pub fn new() -> (q: Self)
        ensures
            q.wf(),
            q@ == Seq::<AtomicTerminal<T, C>>::empty(),
    {
        Self { entries: BoundedEvidenceRing::new(), len: 0 }
    }

    /// Appends a receipt; when the queue is full its oldest receipt is dropped
    /// and the new one records that drop.
    pub fn push(&mut self, payload: T, issue: C)
        requires
            old(self).wf(),
        ensures
            final(self).wf(),
            final(self)@ == ring_push(old(self)@, admitted_terminal(old(self)@, payload, issue)),
    {
        let dropped_prior = self.len == EVIDENCE_RING_CAPACITY;
        self.entries.push(AtomicTerminal { payload, issue, dropped_prior });
        self.len = if self.len + 1 < EVIDENCE_RING_CAPACITY {
            self.len + 1
        } else {
            EVIDENCE_RING_CAPACITY
        };
    }

    /// Removes and returns the oldest receipt.
    pub fn pop(&mut self) -> (r: Option<AtomicTerminal<T, C>>)
        requires
            old(self).wf(),
        ensures
            final(self).wf(),
            match r {
                Some(x) => old(self)@.len() > 0 && x == old(self)@[0] && final(self)@
                    == old(self)@.drop_first(),
                None => old(self)@.len() == 0 && final(self)@ == old(self)@,
            },
    {
        let ghost old_len = self.len;
        let mut drained = self.entries.drain();
        if drained.len() == 0 {
            return None;
        }
        let first = drained.remove(0);
        let ghost rest = drained@;
        let mut index: usize = 0;
        while index < drained.len()
            invariant
                self.entries.wf(),
                self.len == old_len,
                old_len == rest.len() + 1,
                drained@ == rest,
                rest.len() < EVIDENCE_RING_CAPACITY,
                index <= rest.len(),
                self.entries@ == rest.take(index as int),
            decreases rest.len() - index,
        {
            let entry = drained[index];
            self.entries.push(entry);
            proof {
                assert(rest.take(index as int).push(entry) =~= rest.take(index + 1));
            }
            index += 1;
        }
        proof {
            assert(rest.take(index as int) =~= rest);
        }
        self.len = self.len - 1;
        Some(first)
    }

    /// Removes every receipt, oldest first.
    pub fn drain(&mut self) -> (r: Vec<AtomicTerminal<T, C>>)
        requires
            old(self).wf(),
        ensures
            final(self).wf(),
            r@ == old(self)@,
            final(self)@ == Seq::<AtomicTerminal<T, C>>::empty(),
    {
        self.len = 0;
        self.entries.drain()
    }

    pub fn is_empty(&self) -> (r: bool)
        requires
            self.wf(),
        ensures
            r == (self@.len() == 0),
    {
        self.len == 0
    }
}

} // verus!
