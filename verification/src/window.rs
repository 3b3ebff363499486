//! A two-ended view over the positions of a sequence.
//!
//! Positions are handed out from either end, never twice, and what remains
//! is always one contiguous stretch, in the order it had.

use vstd::prelude::*;

verus! {

/// The positions `front..back` that have not been handed out yet.
#[derive(Clone, Copy, Debug, PartialEq, Eq)]
pub struct Window {
    pub front: usize,
    pub back: usize,
}

impl Window {
    /// The window is a stretch, possibly empty.
    pub open spec fn wf(&self) -> bool {
        self.front <= self.back
    }

    /// Number of positions left.
    pub open spec fn remaining(&self) -> nat {
        (self.back - self.front) as nat
    }

    /// All positions of a sequence of length `len`.
    pub fn new(len: usize) -> (w: Window)
        ensures
            w.wf(),
            w.front == 0,
            w.back == len,
    {
        Window { front: 0, back: len }
    }

    /// Number of positions left.
    pub fn len(&self) -> (n: usize)
        requires
            self.wf(),
        ensures
            n == self.remaining(),
    {
        self.back - self.front
    }

    /// Hands out the first remaining position, if there is one.
    pub fn take_front(&mut self) -> (position: Option<usize>)
        requires
            old(self).wf(),
        ensures
            final(self).wf(),
            final(self).back == old(self).back,
            old(self).remaining() == 0 ==> position is None && *final(self) == *old(self),
            old(self).remaining() > 0 ==> position == Some(old(self).front) && final(self).front
                == old(self).front + 1,
    {
        if self.front < self.back {
            let position = self.front;
            self.front = self.front + 1;
            Some(position)
        } else {
            None
        }
    }

    /// Hands out the last remaining position, if there is one.
    pub fn take_back(&mut self) -> (position: Option<usize>)
        requires
            old(self).wf(),
        ensures
            final(self).wf(),
            final(self).front == old(self).front,
            old(self).remaining() == 0 ==> position is None && *final(self) == *old(self),
            old(self).remaining() > 0 ==> final(self).back == old(self).back - 1 && position == Some(
                final(self).back,
            ),
    {
        if self.front < self.back {
            self.back = self.back - 1;
            Some(self.back)
        } else {
            None
        }
    }
}

} // verus!
