//! What every metric source shares: a refresh interval that throttles
//! sampling, a bounded output buffer, and the composition of outputs
//! into one status line.
use vstd::prelude::*;
use crate::text::{clip, append, clip_to};
use crate::time::Span;

verus! {

/// The observable state of a metric source: when it last sampled, how
/// often it may sample, and what it currently shows.
pub struct Refresh {
    pub last: int,
    pub interval: int,
    pub shown: Seq<u8>,
}

impl Refresh {
    /// Whether a sample is owed at `now` (all times in nanoseconds).
    pub open spec fn due(self, now: int) -> bool {
        now - self.last >= self.interval
    }

    /// The state after an update at `now` whose sample would render as `text`
    /// into a buffer of `cap` bytes: unchanged while throttled.
    pub open spec fn step(self, now: int, text: Seq<u8>, cap: nat) -> Refresh {
        if self.due(now) {
            Refresh { last: now, interval: self.interval, shown: clip(text, cap) }
        } else {
            self
        }
    }

    /// A source that has never sampled.
    pub open spec fn fresh(interval: int) -> Refresh {
        Refresh { last: 0, interval, shown: Seq::empty() }
    }
}

/// Two updates closer together than the interval: when the first one
/// samples, the second leaves the shown value as the first one left it.
pub proof fn lemma_update_within_interval_keeps_output(
    r: Refresh,
    now: int,
    d: int,
    first: Seq<u8>,
    second: Seq<u8>,
    cap: nat,
)
    requires
        r.due(now),
        0 <= d < r.interval,
    ensures
        r.step(now, first, cap).step(now + d, second, cap) == r.step(now, first, cap),
        r.step(now, first, cap).step(now + d, second, cap).shown == clip(first, cap),
{
}

/// Two updates at least the interval apart: when the first one samples,
/// the second samples again and shows what its own sample renders.
pub proof fn lemma_update_after_interval_resamples(
    r: Refresh,
    now: int,
    d: int,
    first: Seq<u8>,
    second: Seq<u8>,
    cap: nat,
)
    requires
        r.due(now),
        d >= r.interval,
    ensures
        r.step(now, first, cap).step(now + d, second, cap) == (Refresh {
            last: now + d,
            interval: r.interval,
            shown: clip(second, cap),
        }),
{
}

/// The capability every metric source offers to the line composer.
pub trait Block {
    spec fn state(&self) -> Refresh;

    /// Whether an update at `now` would sample.
    fn is_due(&self, now: Span) -> (r: bool)
        ensures
            r == self.state().due(now.total()),
    ;

    /// What the source currently shows.
    fn get_bytes(&self) -> (r: &[u8])
        ensures
            r@ == self.state().shown,
    ;
}

/// The throttle and bounded output buffer of one source.
pub struct Slot {
    last: Span,
    interval: Span,
    bytes: Vec<u8>,
}

impl View for Slot {
    type V = Refresh;

    closed spec fn view(&self) -> Refresh {
        Refresh { last: self.last.total(), interval: self.interval.total(), shown: self.bytes@ }
    }
}

impl Slot {
    pub fn new(interval: Span) -> (r: Slot)
        ensures
            r@ == Refresh::fresh(interval.total()),
    {
        Slot { last: Span::zero(), interval, bytes: Vec::new() }
    }

    pub fn is_due(&self, now: Span) -> (r: bool)
        ensures
            r == self@.due(now.total()),
    {
        let a = now.as_nanos();
        let b = self.last.as_nanos();
        a >= b && a - b >= self.interval.as_nanos()
    }

    /// Whole seconds from the last sample to `now`; `now` is due.
    pub fn elapsed_secs(&self, now: Span) -> (r: u128)
        requires
            self@.due(now.total()),
        ensures
            r == (now.total() - self@.last) / (crate::time::NANOS_PER_SEC as int),
    {
        let a = now.as_nanos();
        let b = self.last.as_nanos();
        let d = a - b;
        d / 1_000_000_000
    }

    /// Records a sample at `now` rendering as `text`.
    pub fn store(&mut self, now: Span, text: &[u8], cap: usize)
        requires
            old(self)@.due(now.total()),
        ensures
            final(self)@ == old(self)@.step(now.total(), text@, cap as nat),
    {
        self.last = now;
        self.bytes = clip_to(text, cap);
    }

    pub fn bytes(&self) -> (r: &[u8])
        ensures
            r@ == self@.shown,
    {
        self.bytes.as_slice()
    }
}

/// The status line: each non-empty output preceded by one space, in order.
pub open spec fn line_of(outputs: Seq<Seq<u8>>) -> Seq<u8>
    decreases outputs.len(),
{
    if outputs.len() == 0 {
        Seq::empty()
    } else {
        let rest = line_of(outputs.drop_last());
        if outputs.last().len() == 0 {
            rest
        } else {
            rest + seq![32u8] + outputs.last()
        }
    }
}

/// Joins the sources' outputs, in order, into the status line.
pub fn compose_line(outputs: &Vec<Vec<u8>>) -> (r: Vec<u8>)
    ensures
        r@ == line_of(outputs@.map_values(|o: Vec<u8>| o@)),
{
    let ghost views = outputs@.map_values(|o: Vec<u8>| o@);
    let mut line: Vec<u8> = Vec::new();
    let mut i: usize = 0;
    assert(views.take(0) =~= Seq::<Seq<u8>>::empty());
    while i < outputs.len()
        invariant
            0 <= i <= outputs@.len(),
            views == outputs@.map_values(|o: Vec<u8>| o@),
            line@ == line_of(views.take(i as int)),
        decreases outputs@.len() - i,
    {
        assert(views.take(i + 1).drop_last() =~= views.take(i as int));
        let seg = outputs[i].as_slice();
        if seg.len() > 0 {
            line.push(32u8);
            append(&mut line, seg);
        }
        i = i + 1;
    }
    assert(views.take(i as int) =~= views);
    line
}

} // verus!
