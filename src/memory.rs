//! The memory source: the share of memory in use.
use vstd::prelude::*;
use crate::meminfo::{memory_usage, memory_text};
use crate::source::{Block, Refresh, Slot};
use crate::time::Span;

verus! {

pub const BUF_LEN: usize = 10;

/// Memory in use, as `Mem:<percent>%`.
pub struct MemoryBlock {
    slot: Slot,
}

impl MemoryBlock {
    pub fn new(interval: Span) -> (r: MemoryBlock)
        ensures
            r.state() == Refresh::fresh(interval.total()),
    {
        MemoryBlock { slot: Slot::new(interval) }
    }

    /// Takes a sample at `now` from the memory report `report` (empty when
    /// it could not be read), unless throttled.
    pub fn update(&mut self, now: Span, report: &[u8])
        ensures
            final(self).state() == old(self).state().step(now.total(), memory_text(report@), BUF_LEN as nat),
    {
        if !self.slot.is_due(now) {
            return;
        }
        let text = memory_usage(report);
        self.slot.store(now, text.as_slice(), BUF_LEN);
    }
}

impl Block for MemoryBlock {
    closed spec fn state(&self) -> Refresh {
        self.slot@
    }

    fn is_due(&self, now: Span) -> (r: bool) {
        self.slot.is_due(now)
    }

    fn get_bytes(&self) -> (r: &[u8]) {
        self.slot.bytes()
    }
}

} // verus!
