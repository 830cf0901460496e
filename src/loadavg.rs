//! The load average source: the one-minute load, to one decimal.
use vstd::prelude::*;
use crate::source::{Block, Refresh, Slot};
use crate::text::{all_digits, append_tenths, lemma_split_nonempty, parse_num, parse_u64, split, split_bytes, tenths_text};
use crate::time::Span;

verus! {

pub const BUF_LEN: usize = 10;

/// A decimal number `<digits>[.<digits>]` (one side may be empty, not both)
/// rounded half up to tenths; `None` when the text is no such number or its
/// whole part does not fit in a `u64`.
pub open spec fn decimal_tenths(field: Seq<u8>) -> Option<nat> {
    let p = split(field, 46);
    if p.len() == 1 {
        match parse_num(p[0]) {
            Some(a) => Some(a * 10),
            None => None,
        }
    } else if p.len() == 2 && all_digits(p[1]) && (p[0].len() > 0 || p[1].len() > 0) && (
    p[0].len() == 0 || parse_num(p[0]) is Some) {
        let a: nat = if p[0].len() == 0 {
            0
        } else {
            parse_num(p[0]).unwrap()
        };
        let d: nat = if p[1].len() > 0 {
            (p[1][0] - 48) as nat
        } else {
            0
        };
        let up: nat = if p[1].len() > 1 && p[1][1] >= 53 {
            1
        } else {
            0
        };
        Some(a * 10 + d + up)
    } else {
        None
    }
}

/// What the source shows for the kernel's load report: `LA:<load>`, from
/// its first space-separated field; nothing when that is no number.
pub open spec fn loadavg_text(report: Seq<u8>) -> Seq<u8> {
    match decimal_tenths(split(report, 32)[0]) {
        Some(t) => seq![76u8, 65u8, 58u8] + tenths_text(t),
        None => Seq::empty(),
    }
}

fn digits_only(s: &[u8]) -> (r: bool)
    ensures
        r == all_digits(s@),
{
    let mut i: usize = 0;
    while i < s.len()
        invariant
            0 <= i <= s@.len(),
            forall|k: int| 0 <= k < i ==> crate::text::is_digit(#[trigger] s@[k]),
        decreases s@.len() - i,
    {
        if s[i] < 48 || s[i] > 57 {
            return false;
        }
        i = i + 1;
    }
    true
}

/// Reads a decimal number as a count of tenths, rounded half up.
pub fn parse_tenths(field: &[u8]) -> (r: Option<u128>)
    ensures
        r matches Some(t) ==> decimal_tenths(field@) == Some(t as nat),
        r is None ==> decimal_tenths(field@) is None,
{
    let p = split_bytes(field, 46);
    proof {
        lemma_split_nonempty(field@, 46);
    }
    if p.len() == 1 {
        match parse_u64(p[0].as_slice()) {
            Some(a) => Some(a as u128 * 10),
            None => None,
        }
    } else if p.len() == 2 {
        let whole = p[0].as_slice();
        let frac = p[1].as_slice();
        if !digits_only(frac) || (whole.len() == 0 && frac.len() == 0) {
            return None;
        }
        let a: u64 = if whole.len() == 0 {
            0
        } else {
            match parse_u64(whole) {
                Some(a) => a,
                None => {
                    return None;
                },
            }
        };
        let d: u128 = if frac.len() > 0 {
            (frac[0] - 48) as u128
        } else {
            0
        };
        let up: u128 = if frac.len() > 1 && frac[1] >= 53 {
            1
        } else {
            0
        };
        Some(a as u128 * 10 + d + up)
    } else {
        None
    }
}

/// The load average text for a load report.
pub fn loadavg_line(report: &[u8]) -> (r: Vec<u8>)
    ensures
        r@ == loadavg_text(report@),
{
    let fields = split_bytes(report, 32);
    proof {
        lemma_split_nonempty(report@, 32);
    }
    let mut out: Vec<u8> = Vec::new();
    match parse_tenths(fields[0].as_slice()) {
        Some(t) => {
            out.push(76u8);
            out.push(65u8);
            out.push(58u8);
            append_tenths(&mut out, t);
            assert(out@ =~= seq![76u8, 65u8, 58u8] + tenths_text(t as nat));
            out
        },
        None => out,
    }
}

/// The one-minute load average, as `LA:<load>`.
pub struct LoadAvgBlock {
    slot: Slot,
}

impl LoadAvgBlock {
    pub fn new(interval: Span) -> (r: LoadAvgBlock)
        ensures
            r.state() == Refresh::fresh(interval.total()),
    {
        LoadAvgBlock { slot: Slot::new(interval) }
    }

    /// Takes a sample at `now` from the load report `report` (empty when it
    /// could not be read), unless throttled.
    pub fn update(&mut self, now: Span, report: &[u8])
        ensures
            final(self).state() == old(self).state().step(now.total(), loadavg_text(report@), BUF_LEN as nat),
    {
        if !self.slot.is_due(now) {
            return;
        }
        let text = loadavg_line(report);
        self.slot.store(now, text.as_slice(), BUF_LEN);
    }
}

impl Block for LoadAvgBlock {
    closed spec fn state(&self) -> Refresh {
        self.slot@
    }

    fn is_due(&self, now: Span) -> (r: bool) {
        self.slot.is_due(now)
    }

    fn get_bytes(&self) -> (r: &[u8]) {
        self.slot.bytes()
    }
}

} // verus!
