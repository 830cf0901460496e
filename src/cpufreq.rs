//! The CPU frequency source: the current scaling frequency in GHz.
use vstd::prelude::*;
use crate::source::{Block, Refresh, Slot};
use crate::text::{append, append_tenths, parse_num, parse_u64, tenths_text, trim, trim_bytes};
use crate::time::Span;

verus! {

pub const BUF_LEN: usize = 11;

/// A frequency in kHz as tenths of a GHz, rounded half up.
pub open spec fn ghz_tenths(khz: nat) -> nat {
    khz / 100_000 + if khz % 100_000 >= 50_000 {
        1nat
    } else {
        0nat
    }
}

/// `error`, padded with spaces to the width of the buffer.
pub open spec fn error_text() -> Seq<u8> {
    seq![101u8, 114u8, 114u8, 111u8, 114u8, 32u8, 32u8, 32u8, 32u8, 32u8, 32u8]
}

/// What the source shows for the frequency file's content (kHz):
/// `Freq:<GHz>GHz`, or the error text when it holds no number.
pub open spec fn cpufreq_text(content: Seq<u8>) -> Seq<u8> {
    match parse_num(trim(content)) {
        Some(khz) => seq![70u8, 114u8, 101u8, 113u8, 58u8] + tenths_text(ghz_tenths(khz)) + seq![
            71u8,
            72u8,
            122u8,
        ],
        None => error_text(),
    }
}

/// The frequency text for the frequency file's content.
pub fn cpufreq_line(content: &[u8]) -> (r: Vec<u8>)
    ensures
        r@ == cpufreq_text(content@),
{
    let trimmed = trim_bytes(content);
    let mut out: Vec<u8> = Vec::new();
    match parse_u64(trimmed.as_slice()) {
        Some(khz) => {
            let t: u64 = khz / 100_000 + if khz % 100_000 >= 50_000 {
                1
            } else {
                0
            };
            out.push(70u8);
            out.push(114u8);
            out.push(101u8);
            out.push(113u8);
            out.push(58u8);
            append_tenths(&mut out, t as u128);
            out.push(71u8);
            out.push(72u8);
            out.push(122u8);
            assert(out@ =~= cpufreq_text(content@));
        },
        None => {
            let word: [u8; 5] = [101u8, 114u8, 114u8, 111u8, 114u8];
            append(&mut out, word.as_slice());
            assert(out@ =~= error_text().take(5));
            let mut k: usize = 5;
            while k < BUF_LEN
                invariant
                    5 <= k <= BUF_LEN,
                    out@ == error_text().take(k as int),
                decreases BUF_LEN - k,
            {
                out.push(32u8);
                k = k + 1;
                assert(out@ =~= error_text().take(k as int));
            }
            assert(error_text().take(11) =~= error_text());
        },
    }
    out
}

/// The current frequency of the first CPU, as `Freq:<GHz>GHz`.
pub struct CPUFreqBlock {
    slot: Slot,
}

impl CPUFreqBlock {
    pub fn new(interval: Span) -> (r: CPUFreqBlock)
        ensures
            r.state() == Refresh::fresh(interval.total()),
    {
        CPUFreqBlock { slot: Slot::new(interval) }
    }

    /// Takes a sample at `now` from the frequency file's content `content`
    /// (empty when it could not be read), unless throttled.
    pub fn update(&mut self, now: Span, content: &[u8])
        ensures
            final(self).state() == old(self).state().step(now.total(), cpufreq_text(content@), BUF_LEN as nat),
    {
        if !self.slot.is_due(now) {
            return;
        }
        let text = cpufreq_line(content);
        self.slot.store(now, text.as_slice(), BUF_LEN);
    }
}

impl Block for CPUFreqBlock {
    closed spec fn state(&self) -> Refresh {
        self.slot@
    }

    fn is_due(&self, now: Span) -> (r: bool) {
        self.slot.is_due(now)
    }

    fn get_bytes(&self) -> (r: &[u8]) {
        self.slot.bytes()
    }
}

} // verus!
