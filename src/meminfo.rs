//! The memory and swap sources: usage percentages read from the lines of
//! the kernel's memory report (`<Key>:   <value> kB`).
use vstd::prelude::*;
use crate::text::{append, bytes_eq, decimal, decimal_bytes, lemma_split_nonempty, parse_num, parse_u64, split, split_bytes};

verus! {

/// The key of a report line: the text before its first ':'.
pub open spec fn line_key(line: Seq<u8>) -> Seq<u8> {
    split(line, 58)[0]
}

/// The value of a report line: its second-to-last space-separated piece, as a number.
pub open spec fn line_value(line: Seq<u8>) -> Option<nat> {
    let pieces = split(line, 32);
    if pieces.len() >= 2 {
        parse_num(pieces[pieces.len() - 2])
    } else {
        None
    }
}

/// The value of the last line keyed `key` whose value reads as a number.
pub open spec fn field(lines: Seq<Seq<u8>>, key: Seq<u8>) -> Option<nat>
    decreases lines.len(),
{
    if lines.len() == 0 {
        None
    } else {
        let l = lines.last();
        if line_key(l) == key && line_value(l) is Some {
            line_value(l)
        } else {
            field(lines.drop_last(), key)
        }
    }
}

/// The value of field `key` in a whole report.
pub open spec fn report_field(report: Seq<u8>, key: Seq<u8>) -> Option<nat> {
    field(split(report, 10), key)
}

/// `<label><used>%`, where used is `(total - free) * 100 / total` truncated
/// toward zero; nothing when either field is missing or the total is zero.
pub open spec fn usage_text(label: Seq<u8>, total: Option<nat>, free: Option<nat>) -> Seq<u8> {
    match (total, free) {
        (Some(t), Some(f)) => if t == 0 {
            Seq::empty()
        } else if f <= t {
            label + decimal(((t - f) * 100 / (t as int)) as nat) + seq![37u8]
        } else {
            let p = ((f - t) * 100 / (t as int)) as nat;
            label + (if p == 0 {
                Seq::empty()
            } else {
                seq![45u8]
            }) + decimal(p) + seq![37u8]
        },
        _ => Seq::empty(),
    }
}

pub open spec fn mem_total_key() -> Seq<u8> {
    seq![77u8, 101u8, 109u8, 84u8, 111u8, 116u8, 97u8, 108u8]
}

pub open spec fn mem_available_key() -> Seq<u8> {
    seq![77u8, 101u8, 109u8, 65u8, 118u8, 97u8, 105u8, 108u8, 97u8, 98u8, 108u8, 101u8]
}

pub open spec fn swap_total_key() -> Seq<u8> {
    seq![83u8, 119u8, 97u8, 112u8, 84u8, 111u8, 116u8, 97u8, 108u8]
}

pub open spec fn swap_free_key() -> Seq<u8> {
    seq![83u8, 119u8, 97u8, 112u8, 70u8, 114u8, 101u8, 101u8]
}

/// What the memory source shows for a report: `Mem:<used>%`.
pub open spec fn memory_text(report: Seq<u8>) -> Seq<u8> {
    usage_text(
        seq![77u8, 101u8, 109u8, 58u8],
        report_field(report, mem_total_key()),
        report_field(report, mem_available_key()),
    )
}

/// What the swap source shows for a report: `Swp:<used>%`.
pub open spec fn swap_text(report: Seq<u8>) -> Seq<u8> {
    usage_text(
        seq![83u8, 119u8, 112u8, 58u8],
        report_field(report, swap_total_key()),
        report_field(report, swap_free_key()),
    )
}

fn line_key_is(line: &[u8], key: &[u8]) -> (r: bool)
    ensures
        r == (line_key(line@) == key@),
{
    let pieces = split_bytes(line, 58);
    proof {
        lemma_split_nonempty(line@, 58);
    }
    bytes_eq(pieces[0].as_slice(), key)
}

fn line_value_of(line: &[u8]) -> (r: Option<u64>)
    ensures
        r matches Some(v) ==> line_value(line@) == Some(v as nat),
        r is None ==> line_value(line@) is None,
{
    let pieces = split_bytes(line, 32);
    if pieces.len() >= 2 {
        parse_u64(pieces[pieces.len() - 2].as_slice())
    } else {
        None
    }
}

/// The value of field `key` in `report`.
pub fn report_value(report: &[u8], key: &[u8]) -> (r: Option<u64>)
    ensures
        r matches Some(v) ==> report_field(report@, key@) == Some(v as nat),
        r is None ==> report_field(report@, key@) is None,
{
    let lines = split_bytes(report, 10);
    let ghost views = split(report@, 10);
    let mut found: Option<u64> = None;
    let mut i: usize = 0;
    assert(views.take(0) =~= Seq::<Seq<u8>>::empty());
    while i < lines.len()
        invariant
            0 <= i <= lines@.len(),
            views == split(report@, 10),
            lines@.len() == views.len(),
            forall|k: int| 0 <= k < lines@.len() ==> #[trigger] lines@[k]@ == views[k],
            found matches Some(v) ==> field(views.take(i as int), key@) == Some(v as nat),
            found is None ==> field(views.take(i as int), key@) is None,
        decreases lines@.len() - i,
    {
        let line = lines[i].as_slice();
        assert(views.take(i + 1).drop_last() =~= views.take(i as int));
        assert(views.take(i + 1).last() == line@);
        if line_key_is(line, key) {
            let v = line_value_of(line);
            if v.is_some() {
                found = v;
            }
        }
        i = i + 1;
    }
    assert(views.take(i as int) =~= views);
    found
}

/// The usage text for a total and a free amount.
pub fn usage(label: &[u8], total: Option<u64>, free: Option<u64>) -> (r: Vec<u8>)
    ensures
        r@ == usage_text(
            label@,
            match total {
                Some(t) => Some(t as nat),
                None => None,
            },
            match free {
                Some(f) => Some(f as nat),
                None => None,
            },
        ),
{
    let mut out: Vec<u8> = Vec::new();
    match (total, free) {
        (Some(t), Some(f)) => {
            if t == 0 {
                return out;
            }
            append(&mut out, label);
            let t = t as u128;
            let f = f as u128;
            if f <= t {
                assert((t - f) * 100 <= u64::MAX as int * 100) by (nonlinear_arith)
                    requires
                        t - f <= u64::MAX,
                ;
                let p = (t - f) * 100 / t;
                let digits = decimal_bytes(p);
                append(&mut out, digits.as_slice());
            } else {
                assert((f - t) * 100 <= u64::MAX as int * 100) by (nonlinear_arith)
                    requires
                        f - t <= u64::MAX,
                ;
                let p = (f - t) * 100 / t;
                if p != 0 {
                    out.push(45u8);
                }
                let digits = decimal_bytes(p);
                append(&mut out, digits.as_slice());
            }
            out.push(37u8);
            out
        },
        _ => out,
    }
}

/// The memory source's text for a report.
pub fn memory_usage(report: &[u8]) -> (r: Vec<u8>)
    ensures
        r@ == memory_text(report@),
{
    let total_key: [u8; 8] = [77u8, 101u8, 109u8, 84u8, 111u8, 116u8, 97u8, 108u8];
    let avail_key: [u8; 12] = [77u8, 101u8, 109u8, 65u8, 118u8, 97u8, 105u8, 108u8, 97u8, 98u8, 108u8, 101u8];
    let label: [u8; 4] = [77u8, 101u8, 109u8, 58u8];
    assert(total_key@ =~= mem_total_key());
    assert(avail_key@ =~= mem_available_key());
    let total = report_value(report, total_key.as_slice());
    let avail = report_value(report, avail_key.as_slice());
    assert(label@ =~= seq![77u8, 101u8, 109u8, 58u8]);
    usage(label.as_slice(), total, avail)
}

/// The swap source's text for a report.
pub fn swap_usage(report: &[u8]) -> (r: Vec<u8>)
    ensures
        r@ == swap_text(report@),
{
    let total_key: [u8; 9] = [83u8, 119u8, 97u8, 112u8, 84u8, 111u8, 116u8, 97u8, 108u8];
    let free_key: [u8; 8] = [83u8, 119u8, 97u8, 112u8, 70u8, 114u8, 101u8, 101u8];
    let label: [u8; 4] = [83u8, 119u8, 112u8, 58u8];
    assert(total_key@ =~= swap_total_key());
    assert(free_key@ =~= swap_free_key());
    let total = report_value(report, total_key.as_slice());
    let free = report_value(report, free_key.as_slice());
    assert(label@ =~= seq![83u8, 119u8, 112u8, 58u8]);
    usage(label.as_slice(), total, free)
}

} // verus!
