//! The swap source: the share of swap in use.
use vstd::prelude::*;
use crate::meminfo::{swap_usage, swap_text};
use crate::source::{Block, Refresh, Slot};
use crate::time::Span;

verus! {

pub const BUF_LEN: usize = 10;

/// Swap in use, as `Swp:<percent>%`.
pub struct SwapBlock {
    slot: Slot,
}

impl SwapBlock {
    pub fn new(interval: Span) -> (r: SwapBlock)
        ensures
            r.state() == Refresh::fresh(interval.total()),
    {
        SwapBlock { slot: Slot::new(interval) }
    }

    /// Takes a sample at `now` from the memory report `report` (empty when
    /// it could not be read), unless throttled.
    pub fn update(&mut self, now: Span, report: &[u8])
        ensures
            final(self).state() == old(self).state().step(now.total(), swap_text(report@), BUF_LEN as nat),
    {
        if !self.slot.is_due(now) {
            return;
        }
        let text = swap_usage(report);
        self.slot.store(now, text.as_slice(), BUF_LEN);
    }
}

impl Block for SwapBlock {
    closed spec fn state(&self) -> Refresh {
        self.slot@
    }

    fn is_due(&self, now: Span) -> (r: bool) {
        self.slot.is_due(now)
    }

    fn get_bytes(&self) -> (r: &[u8]) {
        self.slot.bytes()
    }
}

} // verus!
