//! The battery source: charge percentage and the first letter of the
//! charging status.
use vstd::prelude::*;
use crate::source::{Block, Refresh, Slot};
use crate::text::{append, append_padded, clip_to, pad_left, trim, trim_bytes};
use crate::time::Span;

verus! {

pub const BUF_LEN: usize = 11;

/// The length of the UTF-8 sequence that starts with `lead`.
pub open spec fn utf8_len(lead: u8) -> nat {
    if lead < 0x80 {
        1
    } else if lead >= 0xf0 {
        4
    } else if lead >= 0xe0 {
        3
    } else {
        2
    }
}

/// The status mark: the first character of the status text, or `E` when
/// the text is missing or empty.
pub open spec fn status_mark(status: Option<Seq<u8>>) -> Seq<u8> {
    match status {
        Some(s) => if s.len() > 0 {
            if s.len() <= utf8_len(s[0]) {
                s
            } else {
                s.take(utf8_len(s[0]) as int)
            }
        } else {
            seq![69u8]
        },
        None => seq![69u8],
    }
}

/// The charge field: the trimmed capacity text, or `err` when missing.
pub open spec fn charge_field(capacity: Option<Seq<u8>>) -> Seq<u8> {
    match capacity {
        Some(c) => trim(c),
        None => seq![101u8, 114u8, 114u8],
    }
}

/// What the source shows: `Bat:<charge>%(<status>)`, the charge
/// right-aligned in three columns.
pub open spec fn battery_text(capacity: Option<Seq<u8>>, status: Option<Seq<u8>>) -> Seq<u8> {
    seq![66u8, 97u8, 116u8, 58u8] + pad_left(charge_field(capacity), 3) + seq![37u8, 40u8]
        + status_mark(status) + seq![41u8]
}

pub open spec fn opt_view(o: Option<&[u8]>) -> Option<Seq<u8>> {
    match o {
        Some(s) => Some(s@),
        None => None,
    }
}

/// The battery text for the capacity and status files' contents (`None`
/// for a file that could not be read).
pub fn battery_line(capacity: Option<&[u8]>, status: Option<&[u8]>) -> (r: Vec<u8>)
    ensures
        r@ == battery_text(opt_view(capacity), opt_view(status)),
{
    let mut out: Vec<u8> = Vec::new();
    out.push(66u8);
    out.push(97u8);
    out.push(116u8);
    out.push(58u8);
    let charge = match capacity {
        Some(c) => trim_bytes(c),
        None => {
            let err: [u8; 3] = [101u8, 114u8, 114u8];
            let v = clip_to(err.as_slice(), 3);
            assert(v@ =~= seq![101u8, 114u8, 114u8]);
            v
        },
    };
    append_padded(&mut out, charge.as_slice(), 3);
    out.push(37u8);
    out.push(40u8);
    let ghost before = out@;
    match status {
        Some(s) if s.len() > 0 => {
            let lead = s[0];
            let n: usize = if lead < 0x80 {
                1
            } else if lead >= 0xf0 {
                4
            } else if lead >= 0xe0 {
                3
            } else {
                2
            };
            let mark = clip_to(s, n);
            append(&mut out, mark.as_slice());
        },
        _ => {
            out.push(69u8);
        },
    }
    out.push(41u8);
    assert(out@ =~= battery_text(opt_view(capacity), opt_view(status)));
    out
}

/// Battery charge and status, as `Bat:<charge>%(<status>)`.
pub struct BatteryBlock {
    slot: Slot,
}

impl BatteryBlock {
    pub fn new(interval: Span) -> (r: BatteryBlock)
        ensures
            r.state() == Refresh::fresh(interval.total()),
    {
        BatteryBlock { slot: Slot::new(interval) }
    }

    /// Takes a sample at `now` from the capacity and status files' contents
    /// (`None` for a file that could not be read), unless throttled.
    pub fn update(&mut self, now: Span, capacity: Option<&[u8]>, status: Option<&[u8]>)
        ensures
            final(self).state() == old(self).state().step(
                now.total(),
                battery_text(opt_view(capacity), opt_view(status)),
                BUF_LEN as nat,
            ),
    {
        if !self.slot.is_due(now) {
            return;
        }
        let text = battery_line(capacity, status);
        self.slot.store(now, text.as_slice(), BUF_LEN);
    }
}

impl Block for BatteryBlock {
    closed spec fn state(&self) -> Refresh {
        self.slot@
    }

    fn is_due(&self, now: Span) -> (r: bool) {
        self.slot.is_due(now)
    }

    fn get_bytes(&self) -> (r: &[u8]) {
        self.slot.bytes()
    }
}

} // verus!
