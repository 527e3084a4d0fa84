//! Index bookkeeping for double-buffered render targets.

use vstd::prelude::*;

verus! {

/// Tracks which of two buffers is read from and which is written to.
pub struct PingPong {
    current: usize,
}

impl View for PingPong {
    type V = int;

    /// The index of the buffer that is read from.
    closed spec fn view(&self) -> int {
        self.current as int
    }
}

impl PingPong {
    /// The source index names one of the two buffers.
    pub open spec fn wf(&self) -> bool {
        self@ == 0 || self@ == 1
    }

    /// Creates a `PingPong` with source at index 0 and destination at index 1.
    pub fn new() -> (p: PingPong)
        ensures
            p@ == 0,
            p.wf(),
    {
        PingPong { current: 0 }
    }

    /// Returns the index of the current source (read) buffer.
    pub fn src_index(&self) -> (i: usize)
        ensures
            i == self@,
    {
        self.current
    }

    /// Returns the index of the current destination (write) buffer.
    pub fn dst_index(&self) -> (i: usize)
        requires
            self.wf(),
        ensures
            i == 1 - self@,
            i + self@ == 1,
    {
        1 - self.current
    }

    /// Swaps source and destination.
    pub fn swap(&mut self)
        requires
            old(self).wf(),
        ensures
            final(self).wf(),
            final(self)@ == 1 - old(self)@,
    {
        self.current = 1 - self.current;
    }
}

impl Default for PingPong {
    fn default() -> (p: PingPong)
        ensures
            p@ == 0,
            p.wf(),
    {
        PingPong::new()
    }
}

/// The source index after `swaps` swaps from `start`.
pub open spec fn after_swaps(start: int, swaps: nat) -> int
    decreases swaps,
{
    if swaps == 0 {
        start
    } else {
        1 - after_swaps(start, (swaps - 1) as nat)
    }
}

/// An even number of swaps restores the indices; an odd number exchanges
/// them.
pub proof fn lemma_swap_parity(start: int, swaps: nat)
    ensures
        swaps % 2 == 0 ==> after_swaps(start, swaps) == start,
        swaps % 2 == 1 ==> after_swaps(start, swaps) == 1 - start,
    decreases swaps,
{
    if swaps > 0 {
        lemma_swap_parity(start, (swaps - 1) as nat);
    }
}

} // verus!
