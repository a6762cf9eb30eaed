//! Fixed-capacity FIFO that keeps the newest evidence records.

use std::collections::VecDeque;
use vstd::prelude::*;

verus! {

/// Number of records a ring retains.
pub const EVIDENCE_RING_CAPACITY: usize = 64;

/// The sequence after appending `item` to a ring holding `s`: when the ring
/// is full, its oldest record is dropped first.
pub open spec fn ring_push<T>(s: Seq<T>, item: T) -> Seq<T> {
    if s.len() >= EVIDENCE_RING_CAPACITY {
        s.drop_first().push(item)
    } else {
        s.push(item)
    }
}

/// FIFO of at most [`EVIDENCE_RING_CAPACITY`] records.
pub struct BoundedEvidenceRing<T> {
    items: VecDeque<T>,
}

impl<T> View for BoundedEvidenceRing<T> {
    type V = Seq<T>;

    closed spec fn view(&self) -> Seq<T> {
        self.items@
    }
}

impl<T> BoundedEvidenceRing<T> {
    /// The ring never holds more than its capacity.
    pub open spec fn wf(&self) -> bool {
        self@.len() <= EVIDENCE_RING_CAPACITY
    }

    pub fn new() -> (ring: Self)
        ensures
            ring.wf(),
            ring@ == Seq::<T>::empty(),
    {
        Self { items: VecDeque::with_capacity(EVIDENCE_RING_CAPACITY) }
    }

    pub fn len(&self) -> (n: usize)
        ensures
            n == self@.len(),
    {
        proof {
            broadcast use vstd::std_specs::vecdeque::axiom_spec_len;
        }
        self.items.len()
    }

    /// Appends `item`, dropping the oldest record when the ring is full.
    pub fn push(&mut self, item: T)
        requires
            old(self).wf(),
        ensures
            final(self).wf(),
            final(self)@ == ring_push(old(self)@, item),
    {
        proof {
            broadcast use vstd::std_specs::vecdeque::axiom_spec_len;
        }
        if self.items.len() == EVIDENCE_RING_CAPACITY {
            let _ = self.pop();
        }
        self.items.push_back(item);
    }

    /// Removes and returns the oldest record.
    pub fn pop(&mut self) -> (r: Option<T>)
        requires
            old(self).wf(),
        ensures
            final(self).wf(),
            match r {
                Some(x) => old(self)@.len() > 0 && x == old(self)@[0] && final(self)@
                    == old(self)@.drop_first(),
                None => old(self)@.len() == 0 && final(self)@ == old(self)@,
            },
    {
        self.items.pop_front()
    }

    /// Removes every record, oldest first.
    pub fn drain(&mut self) -> (r: Vec<T>)
        requires
            old(self).wf(),
        ensures
            final(self).wf(),
            r@ == old(self)@,
            final(self)@ == Seq::<T>::empty(),
    {
        let mut out: Vec<T> = Vec::new();
        let ghost original = self@;
        while self.items.len() > 0
            invariant
                self.wf(),
                out@ + self@ == original,
            decreases self@.len(),
        {
            proof {
                broadcast use vstd::std_specs::vecdeque::axiom_spec_len;
            }
            match self.items.pop_front() {
                Some(x) => {
                    proof {
                        assert(out@.push(x) + self.items@ =~= original);
                    }
                    out.push(x);
                },
                None => {},
            }
        }
        proof {
            broadcast use vstd::std_specs::vecdeque::axiom_spec_len;
            assert(out@ =~= original);
        }
        out
    }
}

} // verus!
