//! The clock source: local date and time as `MM/DD(Dow)HH:MM:SS`.
use vstd::prelude::*;
use chrono::{Datelike, Local, TimeZone, Timelike};
use crate::source::{Block, Refresh, Slot};
use crate::time::Span;

verus! {

pub const BUF_LEN: usize = 20;

/// The latest timestamp (in seconds) the clock is sure to show.
pub const MAX_CLOCK_SECS: i64 = 8_000_000_000_000;

/// A local calendar time, as the clock shows it.
#[derive(Clone, Copy, Debug, PartialEq, Eq, Structural)]
pub struct LocalTime {
    /// 1 to 12.
    pub month: u32,
    /// 1 to 31.
    pub day: u32,
    /// Days since Monday, 0 to 6.
    pub weekday: u32,
    pub hour: u32,
    pub minute: u32,
    pub second: u32,
}

impl LocalTime {
    pub open spec fn wf(self) -> bool {
        &&& 1 <= self.month <= 12
        &&& 1 <= self.day <= 31
        &&& self.weekday < 7
        &&& self.hour < 24
        &&& self.minute < 60
        &&& self.second < 60
    }
}

/// Relies on chrono's `Local.timestamp_opt(secs, 0)` and the `Datelike` and
/// `Timelike` accessors: the local time of a Unix timestamp in the
/// machine's time zone, `None` when the timestamp is out of chrono's range
/// (which reaches past the year 262000, so every timestamp up to
/// `MAX_CLOCK_SECS` is in it). The fields are within the ranges chrono
/// documents for them.
#[verifier::external_body]
fn local_time_of(secs: i64) -> (r: Option<LocalTime>)
    ensures
        r matches Some(t) ==> t.wf(),
        0 <= secs <= MAX_CLOCK_SECS ==> r is Some,
{
    match Local.timestamp_opt(secs, 0).single() {
        Some(d) => Some(LocalTime {
            month: d.month(),
            day: d.day(),
            weekday: d.weekday().num_days_from_monday(),
            hour: d.hour(),
            minute: d.minute(),
            second: d.second(),
        }),
        None => None,
    }
}

/// Two decimal digits, zero-padded.
pub open spec fn two_digits(n: nat) -> Seq<u8> {
    seq![(48 + n / 10) as u8, (48 + n % 10) as u8]
}

/// The abbreviated English name of a weekday counted from Monday.
pub open spec fn weekday_name(d: nat) -> Seq<u8> {
    if d == 0 {
        seq![77u8, 111u8, 110u8]
    } else if d == 1 {
        seq![84u8, 117u8, 101u8]
    } else if d == 2 {
        seq![87u8, 101u8, 100u8]
    } else if d == 3 {
        seq![84u8, 104u8, 117u8]
    } else if d == 4 {
        seq![70u8, 114u8, 105u8]
    } else if d == 5 {
        seq![83u8, 97u8, 116u8]
    } else {
        seq![83u8, 117u8, 110u8]
    }
}

/// `MM/DD(Dow)HH:MM:SS`.
pub open spec fn clock_text(t: LocalTime) -> Seq<u8> {
    two_digits(t.month as nat) + seq![47u8] + two_digits(t.day as nat) + seq![40u8] + weekday_name(
        t.weekday as nat,
    ) + seq![41u8] + two_digits(t.hour as nat) + seq![58u8] + two_digits(t.minute as nat) + seq![
        58u8,
    ] + two_digits(t.second as nat)
}

/// What the clock shows for a local time, or nothing without one.
pub open spec fn local_text(t: Option<LocalTime>) -> Seq<u8> {
    match t {
        Some(t) => clock_text(t),
        None => Seq::empty(),
    }
}

fn push_two(out: &mut Vec<u8>, n: u32)
    requires
        n < 100,
    ensures
        final(out)@ == old(out)@ + two_digits(n as nat),
{
    out.push((48 + n / 10) as u8);
    out.push((48 + n % 10) as u8);
    assert(out@ =~= old(out)@ + two_digits(n as nat));
}

fn push_weekday(out: &mut Vec<u8>, d: u32)
    ensures
        final(out)@ == old(out)@ + weekday_name(d as nat),
{
    let name: [u8; 3] = if d == 0 {
        [77u8, 111u8, 110u8]
    } else if d == 1 {
        [84u8, 117u8, 101u8]
    } else if d == 2 {
        [87u8, 101u8, 100u8]
    } else if d == 3 {
        [84u8, 104u8, 117u8]
    } else if d == 4 {
        [70u8, 114u8, 105u8]
    } else if d == 5 {
        [83u8, 97u8, 116u8]
    } else {
        [83u8, 117u8, 110u8]
    };
    out.push(name[0]);
    out.push(name[1]);
    out.push(name[2]);
    assert(out@ =~= old(out)@ + weekday_name(d as nat));
}

/// Formats a local time as `MM/DD(Dow)HH:MM:SS`.
pub fn format_clock(t: &LocalTime) -> (r: Vec<u8>)
    requires
        t.wf(),
    ensures
        r@ == clock_text(*t),
{
    let mut out: Vec<u8> = Vec::new();
    push_two(&mut out, t.month);
    out.push(47u8);
    push_two(&mut out, t.day);
    out.push(40u8);
    push_weekday(&mut out, t.weekday);
    out.push(41u8);
    push_two(&mut out, t.hour);
    out.push(58u8);
    push_two(&mut out, t.minute);
    out.push(58u8);
    push_two(&mut out, t.second);
    assert(out@ =~= clock_text(*t));
    out
}

/// The local date and time, as `MM/DD(Dow)HH:MM:SS`.
pub struct ClockBlock {
    slot: Slot,
}

impl ClockBlock {
    pub fn new(interval: Span) -> (r: ClockBlock)
        ensures
            r.state() == Refresh::fresh(interval.total()),
    {
        ClockBlock { slot: Slot::new(interval) }
    }

    /// Shows `local` as the clock's sample at `now`, unless throttled.
    pub fn record(&mut self, now: Span, local: Option<LocalTime>)
        requires
            local matches Some(t) ==> t.wf(),
        ensures
            final(self).state() == old(self).state().step(now.total(), local_text(local), BUF_LEN as nat),
    {
        if !self.slot.is_due(now) {
            return;
        }
        match local {
            Some(t) => {
                let text = format_clock(&t);
                self.slot.store(now, text.as_slice(), BUF_LEN);
            },
            None => {
                let none: Vec<u8> = Vec::new();
                self.slot.store(now, none.as_slice(), BUF_LEN);
            },
        }
    }

    /// Samples the local time of `now` in the machine's time zone, unless
    /// throttled. Which local time that is depends on the machine's zone;
    /// it is always shown for timestamps up to `MAX_CLOCK_SECS`, and
    /// nothing is shown for timestamps beyond `i64::MAX` seconds.
    pub fn update(&mut self, now: Span)
        ensures
            !old(self).state().due(now.total()) ==> final(self).state() == old(self).state(),
            old(self).state().due(now.total()) && now.secs <= MAX_CLOCK_SECS ==> exists|t: LocalTime|
                t.wf() && final(self).state() == old(self).state().step(
                    now.total(),
                    clock_text(t),
                    BUF_LEN as nat,
                ),
            old(self).state().due(now.total()) && now.secs > i64::MAX ==> final(self).state()
                == old(self).state().step(now.total(), Seq::empty(), BUF_LEN as nat),
            exists|local: Option<LocalTime>|
                (local matches Some(t) ==> t.wf()) && final(self).state() == old(self).state().step(
                    now.total(),
                    local_text(local),
                    BUF_LEN as nat,
                ),
    {
        if !self.slot.is_due(now) {
            assert(old(self).state().step(now.total(), local_text(None), BUF_LEN as nat) == old(self).state());
            return;
        }
        let local = if now.secs <= i64::MAX as u64 {
            local_time_of(now.secs as i64)
        } else {
            None
        };
        self.record(now, local);
        proof {
            if let Some(t) = local {
                assert(local_text(local) == clock_text(t));
            }
        }
    }
}

impl Block for ClockBlock {
    closed spec fn state(&self) -> Refresh {
        self.slot@
    }

    fn is_due(&self, now: Span) -> (r: bool) {
        self.slot.is_due(now)
    }

    fn get_bytes(&self) -> (r: &[u8]) {
        self.slot.bytes()
    }
}

} // verus!
