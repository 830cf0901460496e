//! Points in time and intervals, counted from the Unix epoch.
use vstd::prelude::*;

verus! {

/// A span of time: whole seconds and nanoseconds. Used both for a point
/// in time (the span since the Unix epoch) and for a refresh interval.
#[derive(Clone, Copy, Debug, PartialEq, Eq, Structural)]
pub struct Span {
    pub secs: u64,
    pub nanos: u32,
}

pub const NANOS_PER_SEC: u64 = 1_000_000_000;

impl Span {
    /// The length of the span in nanoseconds.
    pub open spec fn total(self) -> int {
        self.secs * NANOS_PER_SEC + self.nanos
    }

    pub fn new(secs: u64, nanos: u32) -> (r: Span)
        ensures
            r.secs == secs,
            r.nanos == nanos,
    {
        Span { secs, nanos }
    }

    pub fn from_secs(secs: u64) -> (r: Span)
        ensures
            r.total() == secs * NANOS_PER_SEC,
    {
        Span { secs, nanos: 0 }
    }

    pub fn zero() -> (r: Span)
        ensures
            r.total() == 0,
    {
        Span { secs: 0, nanos: 0 }
    }

    /// The span in nanoseconds, exactly.
    pub fn as_nanos(&self) -> (r: u128)
        ensures
            r == self.total(),
            r <= u64::MAX as int * NANOS_PER_SEC + u32::MAX as int,
    {
        let s = self.secs as u128;
        assert(s * 1_000_000_000 <= u64::MAX as int * 1_000_000_000) by (nonlinear_arith)
            requires
                s <= u64::MAX,
        ;
        s * NANOS_PER_SEC as u128 + self.nanos as u128
    }
}

} // verus!
