//! The network throughput source: per-interface byte counters kept between
//! samples, rates derived from their growth, and unit-prefix formatting.
use vstd::prelude::*;
use crate::source::{Block, Refresh, Slot};
use crate::text::{append, append_padded, bytes_eq, decimal, decimal_bytes, pad_left, parse_num, parse_u64, trim, trim_bytes};
use crate::time::{Span, NANOS_PER_SEC};

verus! {

pub const BUF_LEN: usize = 128;

/// Cumulative received and transmitted byte counts of one interface.
#[derive(Clone, Copy, Debug, PartialEq, Eq, Structural)]
pub struct NetworkBytes {
    pub rx: u64,
    pub tx: u64,
}

/// One interface as read in a sample.
#[derive(Debug)]
pub struct NetworkEntry {
    pub name: Vec<u8>,
    pub bytes: NetworkBytes,
}

impl NetworkEntry {
    /// An interface reading from its name and the contents of its received
    /// and transmitted byte counter files; `None` when either counter does
    /// not read as a number (the interface is then skipped).
    pub fn from_counters(name: &[u8], rx: &[u8], tx: &[u8]) -> (r: Option<NetworkEntry>)
        ensures
            r is Some <==> (parse_num(trim(rx@)) is Some && parse_num(trim(tx@)) is Some),
            r matches Some(e) ==> e.name@ == name@ && parse_num(trim(rx@)) == Some(e.bytes.rx as nat)
                && parse_num(trim(tx@)) == Some(e.bytes.tx as nat),
    {
        let rx_text = trim_bytes(rx);
        let tx_text = trim_bytes(tx);
        match (parse_u64(rx_text.as_slice()), parse_u64(tx_text.as_slice())) {
            (Some(r), Some(t)) => {
                let mut owned: Vec<u8> = Vec::new();
                append(&mut owned, name);
                assert(owned@ =~= name@);
                Some(NetworkEntry { name: owned, bytes: NetworkBytes { rx: r, tx: t } })
            },
            _ => None,
        }
    }
}

/// Divides by 1024 while the value is at least 1024, at most `left` times;
/// gives the quotient and the number of divisions.
pub open spec fn si_scale(x: nat, left: nat) -> (nat, nat)
    decreases left,
{
    if x < 1024 || left == 0 {
        (x, 0)
    } else {
        let (v, k) = si_scale(x / 1024, (left - 1) as nat);
        (v, k + 1)
    }
}

/// The displayed value and unit index of a byte rate; "Ti" is the last unit.
pub open spec fn si(x: nat) -> (nat, nat) {
    si_scale(x, 4)
}

pub open spec fn unit_name(k: nat) -> Seq<char> {
    if k == 0 {
        seq![]
    } else if k == 1 {
        seq!['K', 'i']
    } else if k == 2 {
        seq!['M', 'i']
    } else if k == 3 {
        seq!['G', 'i']
    } else {
        seq!['T', 'i']
    }
}

pub open spec fn unit_bytes(k: nat) -> Seq<u8> {
    if k == 0 {
        seq![]
    } else if k == 1 {
        seq![75u8, 105u8]
    } else if k == 2 {
        seq![77u8, 105u8]
    } else if k == 3 {
        seq![71u8, 105u8]
    } else {
        seq![84u8, 105u8]
    }
}

/// `[<name>: U<rx>B/s D<tx>B/s]`, each rate right-aligned in four columns
/// and followed by its unit.
pub open spec fn rate_segment(name: Seq<u8>, rx: nat, tx: nat) -> Seq<u8> {
    seq![91u8] + name + seq![58u8, 32u8, 85u8] + pad_left(decimal(si(rx).0), 4) + unit_bytes(
        si(rx).1,
    ) + seq![66u8, 47u8, 115u8, 32u8, 68u8] + pad_left(decimal(si(tx).0), 4) + unit_bytes(si(tx).1)
        + seq![66u8, 47u8, 115u8, 93u8]
}

/// What an interface contributes, given its previous counters (if any), its
/// current ones and the whole seconds elapsed: nothing on a first reading,
/// on a counter that went down, within the same second, or without traffic.
pub open spec fn segment(
    prev: Option<NetworkBytes>,
    name: Seq<u8>,
    cur: NetworkBytes,
    secs: int,
) -> Option<Seq<u8>> {
    match prev {
        None => None,
        Some(old) => if cur.rx < old.rx || cur.tx < old.tx || secs <= 0 {
            None
        } else {
            let rx = (cur.rx - old.rx) / secs;
            let tx = (cur.tx - old.tx) / secs;
            if rx == 0 && tx == 0 {
                None
            } else {
                Some(rate_segment(name, rx as nat, tx as nat))
            }
        },
    }
}

/// `acc` followed by `seg`, with a space between two non-empty parts.
pub open spec fn join(acc: Seq<u8>, seg: Option<Seq<u8>>) -> Seq<u8> {
    match seg {
        None => acc,
        Some(s) => if acc.len() == 0 {
            s
        } else {
            acc + seq![32u8] + s
        },
    }
}

pub open spec fn lookup(m: Map<Seq<u8>, NetworkBytes>, name: Seq<u8>) -> Option<NetworkBytes> {
    if m.contains_key(name) {
        Some(m[name])
    } else {
        None
    }
}

/// One sampling pass over `entries` in order: the counters afterwards and
/// the text produced. Every entry becomes the new baseline of its interface.
pub open spec fn pass(m: Map<Seq<u8>, NetworkBytes>, entries: Seq<NetworkEntry>, secs: int) -> (
    Map<Seq<u8>, NetworkBytes>,
    Seq<u8>,
)
    decreases entries.len(),
{
    if entries.len() == 0 {
        (m, Seq::empty())
    } else {
        let (m1, s1) = pass(m, entries.drop_last(), secs);
        let e = entries.last();
        (
            m1.insert(e.name@, e.bytes),
            join(s1, segment(lookup(m1, e.name@), e.name@, e.bytes, secs)),
        )
    }
}

/// The names of a reading are pairwise distinct.
pub open spec fn distinct_names(entries: Seq<NetworkEntry>) -> bool {
    forall|a: int, b: int| 0 <= a < b < entries.len() ==> entries[a].name@ != entries[b].name@
}

/// A pass over entries none of which is named `name` leaves `name`'s counters alone.
proof fn lemma_pass_untouched(
    m: Map<Seq<u8>, NetworkBytes>,
    entries: Seq<NetworkEntry>,
    secs: int,
    name: Seq<u8>,
)
    requires
        forall|i: int| 0 <= i < entries.len() ==> entries[i].name@ != name,
    ensures
        lookup(pass(m, entries, secs).0, name) == lookup(m, name),
    decreases entries.len(),
{
    if entries.len() > 0 {
        let d = entries.drop_last();
        assert forall|i: int| 0 <= i < d.len() implies d[i].name@ != name by {
            assert(d[i] == entries[i]);
        }
        lemma_pass_untouched(m, d, secs, name);
        assert(entries.last().name@ != name);
    }
}

/// After a pass, an entry that no later entry shares a name with holds its
/// interface's counters.
proof fn lemma_pass_keeps_last_reading(
    m: Map<Seq<u8>, NetworkBytes>,
    entries: Seq<NetworkEntry>,
    secs: int,
    j: int,
)
    requires
        0 <= j < entries.len(),
        forall|i: int| j < i < entries.len() ==> entries[i].name@ != entries[j].name@,
    ensures
        lookup(pass(m, entries, secs).0, entries[j].name@) == Some(entries[j].bytes),
    decreases entries.len(),
{
    if j < entries.len() - 1 {
        let d = entries.drop_last();
        assert forall|i: int| j < i < d.len() implies d[i].name@ != d[j].name@ by {
            assert(d[i] == entries[i]);
        }
        lemma_pass_keeps_last_reading(m, d, secs, j);
        assert(d[j] == entries[j]);
        assert(entries.last().name@ != entries[j].name@);
    }
}

/// In a reading whose interface names are distinct, an interface whose
/// counters did not change since the last sample contributes no output:
/// the text after it is the text before it, and its baseline stays as it was.
pub proof fn lemma_no_traffic_no_segment(
    m: Map<Seq<u8>, NetworkBytes>,
    entries: Seq<NetworkEntry>,
    secs: int,
    j: int,
)
    requires
        distinct_names(entries),
        0 <= j < entries.len(),
        m.contains_key(entries[j].name@),
        m[entries[j].name@] == entries[j].bytes,
    ensures
        lookup(pass(m, entries.take(j), secs).0, entries[j].name@) == Some(entries[j].bytes),
        segment(Some(entries[j].bytes), entries[j].name@, entries[j].bytes, secs) is None,
        pass(m, entries.take(j + 1), secs).1 == pass(m, entries.take(j), secs).1,
        lookup(pass(m, entries, secs).0, entries[j].name@) == Some(entries[j].bytes),
{
    let before = entries.take(j);
    let upto = entries.take(j + 1);
    assert forall|i: int| 0 <= i < before.len() implies before[i].name@ != entries[j].name@ by {
        assert(before[i] == entries[i]);
    }
    lemma_pass_untouched(m, before, secs, entries[j].name@);
    assert(upto.drop_last() =~= before);
    assert(upto.last() == entries[j]);
    lemma_pass_keeps_last_reading(m, entries, secs, j);
}

/// A counter that went down gives no output for that sample, and the
/// lowered counters become the baseline the next sample is measured from.
pub proof fn lemma_regression_resets_baseline(
    m: Map<Seq<u8>, NetworkBytes>,
    first: Seq<NetworkEntry>,
    second: Seq<NetworkEntry>,
    secs1: int,
    secs2: int,
)
    requires
        first.len() == 1,
        second.len() == 1,
        first[0].name@ == second[0].name@,
        m.contains_key(first[0].name@),
        first[0].bytes.rx < m[first[0].name@].rx || first[0].bytes.tx < m[first[0].name@].tx,
    ensures
        pass(m, first, secs1).1 == Seq::<u8>::empty(),
        pass(m, first, secs1).0[first[0].name@] == first[0].bytes,
        pass(pass(m, first, secs1).0, second, secs2).1 == join(
            Seq::empty(),
            segment(Some(first[0].bytes), second[0].name@, second[0].bytes, secs2),
        ),
{
    assert(first.drop_last() =~= Seq::<NetworkEntry>::empty());
    assert(second.drop_last() =~= Seq::<NetworkEntry>::empty());
    let m1 = pass(m, first, secs1).0;
    assert(pass(m, first.drop_last(), secs1) == (m, Seq::<u8>::empty()));
    assert(pass(m1, second.drop_last(), secs2) == (m1, Seq::<u8>::empty()));
}

/// A counter that went down: the interface, its baseline and its new reading.
#[derive(Debug)]
pub struct CounterDrop {
    pub name: Vec<u8>,
    pub before: NetworkBytes,
    pub after: NetworkBytes,
}

/// The interfaces, in reading order, whose counters went down against their
/// baseline during a pass, with the baseline and the new reading.
pub open spec fn regressions(m: Map<Seq<u8>, NetworkBytes>, entries: Seq<NetworkEntry>) -> Seq<
    (Seq<u8>, NetworkBytes, NetworkBytes),
>
    decreases entries.len(),
{
    if entries.len() == 0 {
        Seq::empty()
    } else {
        let rest = regressions(m, entries.drop_last());
        let e = entries.last();
        match lookup(pass(m, entries.drop_last(), 0).0, e.name@) {
            Some(o) => if e.bytes.rx < o.rx || e.bytes.tx < o.tx {
                rest.push((e.name@, o, e.bytes))
            } else {
                rest
            },
            None => rest,
        }
    }
}

/// The counters a pass leaves do not depend on the seconds elapsed.
proof fn lemma_pass_counters_ignore_secs(
    m: Map<Seq<u8>, NetworkBytes>,
    entries: Seq<NetworkEntry>,
    a: int,
    b: int,
)
    ensures
        pass(m, entries, a).0 == pass(m, entries, b).0,
    decreases entries.len(),
{
    if entries.len() > 0 {
        lemma_pass_counters_ignore_secs(m, entries.drop_last(), a, b);
    }
}

fn si_reduce(x: u64) -> (r: (u64, usize))
    ensures
        r.0 as nat == si(x as nat).0,
        r.1 as nat == si(x as nat).1,
        r.1 <= 4,
{
    let mut y: u64 = x;
    let mut k: usize = 0;
    while k < 4 && y >= 1024
        invariant
            k <= 4,
            si(x as nat).0 == si_scale(y as nat, (4 - k) as nat).0,
            si(x as nat).1 == si_scale(y as nat, (4 - k) as nat).1 + k,
        decreases 4 - k,
    {
        y = y / 1024;
        k = k + 1;
    }
    (y, k)
}

/// Scales a byte rate to a unit prefix: the value after dividing by 1024
/// while it is at least 1024, and the unit for the number of divisions,
/// from "" to "Ti" (beyond "Ti" the value is counted in Ti).
pub fn format_si_prefix(x: u64) -> (r: (u64, &'static str))
    ensures
        r.0 as nat == si(x as nat).0,
        r.1@ == unit_name(si(x as nat).1),
{
    let (v, k) = si_reduce(x);
    let u = if k == 0 {
        proof {
            reveal_strlit("");
        }
        ""
    } else if k == 1 {
        proof {
            reveal_strlit("Ki");
        }
        "Ki"
    } else if k == 2 {
        proof {
            reveal_strlit("Mi");
        }
        "Mi"
    } else if k == 3 {
        proof {
            reveal_strlit("Gi");
        }
        "Gi"
    } else {
        proof {
            reveal_strlit("Ti");
        }
        "Ti"
    };
    (v, u)
}

fn append_unit(out: &mut Vec<u8>, k: usize)
    ensures
        final(out)@ == old(out)@ + unit_bytes(k as nat),
{
    if k == 1 {
        out.push(75u8);
        out.push(105u8);
    } else if k == 2 {
        out.push(77u8);
        out.push(105u8);
    } else if k == 3 {
        out.push(71u8);
        out.push(105u8);
    } else if k >= 4 {
        out.push(84u8);
        out.push(105u8);
    }
    assert(out@ =~= old(out)@ + unit_bytes(k as nat));
}

fn append_rate(out: &mut Vec<u8>, x: u64)
    ensures
        final(out)@ == old(out)@ + pad_left(decimal(si(x as nat).0), 4) + unit_bytes(si(x as nat).1),
{
    let (v, k) = si_reduce(x);
    let digits = decimal_bytes(v as u128);
    append_padded(out, digits.as_slice(), 4);
    append_unit(out, k);
    assert(out@ =~= old(out)@ + pad_left(decimal(si(x as nat).0), 4) + unit_bytes(si(x as nat).1));
}

fn rate_text(name: &[u8], rx: u64, tx: u64) -> (r: Vec<u8>)
    ensures
        r@ == rate_segment(name@, rx as nat, tx as nat),
{
    let mut out: Vec<u8> = Vec::new();
    out.push(91u8);
    append(&mut out, name);
    out.push(58u8);
    out.push(32u8);
    out.push(85u8);
    append_rate(&mut out, rx);
    out.push(66u8);
    out.push(47u8);
    out.push(115u8);
    out.push(32u8);
    out.push(68u8);
    append_rate(&mut out, tx);
    out.push(66u8);
    out.push(47u8);
    out.push(115u8);
    out.push(93u8);
    assert(out@ =~= rate_segment(name@, rx as nat, tx as nat));
    out
}

/// The counters last seen, by interface name.
pub struct Counters {
    names: Vec<Vec<u8>>,
    vals: Vec<NetworkBytes>,
    map: Ghost<Map<Seq<u8>, NetworkBytes>>,
}

impl Counters {
    pub closed spec fn view(&self) -> Map<Seq<u8>, NetworkBytes> {
        self.map@
    }

    pub closed spec fn wf(&self) -> bool {
        &&& self.names@.len() == self.vals@.len()
        &&& forall|i: int|
            0 <= i < self.names@.len() ==> self.map@.contains_key(#[trigger] self.names@[i]@)
                && self.map@[self.names@[i]@] == self.vals@[i]
        &&& forall|k: Seq<u8>|
            #[trigger] self.map@.contains_key(k) ==> exists|i: int|
                0 <= i < self.names@.len() && #[trigger] self.names@[i]@ == k
        &&& forall|i: int, j: int|
            0 <= i < j < self.names@.len() ==> self.names@[i]@ != self.names@[j]@
    }

    pub fn new() -> (r: Counters)
        ensures
            r.wf(),
            r.view() == Map::<Seq<u8>, NetworkBytes>::empty(),
    {
        Counters { names: Vec::new(), vals: Vec::new(), map: Ghost(Map::empty()) }
    }

    fn find(&self, name: &[u8]) -> (r: Option<usize>)
        requires
            self.wf(),
        ensures
            r matches Some(i) ==> i < self.names@.len() && self.names@[i as int]@ == name@,
            r is None ==> !self.view().contains_key(name@),
    {
        let mut i: usize = 0;
        while i < self.names.len()
            invariant
                self.wf(),
                0 <= i <= self.names@.len(),
                forall|j: int| 0 <= j < i ==> self.names@[j]@ != name@,
            decreases self.names@.len() - i,
        {
            if bytes_eq(self.names[i].as_slice(), name) {
                return Some(i);
            }
            i = i + 1;
        }
        None
    }

    /// Stores `bytes` as the counters of `name`; gives the previous ones.
    pub fn insert(&mut self, name: &[u8], bytes: NetworkBytes) -> (r: Option<NetworkBytes>)
        requires
            old(self).wf(),
        ensures
            final(self).wf(),
            final(self).view() == old(self).view().insert(name@, bytes),
            r == lookup(old(self).view(), name@),
    {
        match self.find(name) {
            Some(i) => {
                let prev = self.vals[i];
                self.vals.set(i, bytes);
                self.map = Ghost(self.map@.insert(name@, bytes));
                assert forall|k: Seq<u8>| #[trigger] self.map@.contains_key(k) implies exists|j: int|
                    0 <= j < self.names@.len() && #[trigger] self.names@[j]@ == k by {
                    if k != name@ {
                        assert(old(self).map@.contains_key(k));
                        let j = choose|j: int|
                            0 <= j < old(self).names@.len() && #[trigger] old(self).names@[j]@ == k;
                        assert(self.names@[j]@ == k);
                    } else {
                        assert(self.names@[i as int]@ == k);
                    }
                }
                Some(prev)
            },
            None => {
                let mut owned: Vec<u8> = Vec::new();
                append(&mut owned, name);
                assert(owned@ =~= name@);
                self.names.push(owned);
                self.vals.push(bytes);
                self.map = Ghost(self.map@.insert(name@, bytes));
                assert forall|k: Seq<u8>| #[trigger] self.map@.contains_key(k) implies exists|j: int|
                    0 <= j < self.names@.len() && #[trigger] self.names@[j]@ == k by {
                    if k != name@ {
                        assert(old(self).map@.contains_key(k));
                        let j = choose|j: int|
                            0 <= j < old(self).names@.len() && #[trigger] old(self).names@[j]@ == k;
                        assert(self.names@[j]@ == k);
                    } else {
                        assert(self.names@[self.names@.len() - 1]@ == k);
                    }
                }
                assert forall|i: int, j: int|
                    0 <= i < j < self.names@.len() implies self.names@[i]@ != self.names@[j]@ by {
                    if j == self.names@.len() - 1 {
                        assert(old(self).map@.contains_key(old(self).names@[i]@));
                    }
                }
                None
            },
        }
    }
}

/// Network throughput of every interface that moved bytes since the last sample.
/// Rates are per whole second elapsed; a sample less than a second after the
/// previous one reports no rates but still records the counters.
pub struct NetworkBlock {
    slot: Slot,
    counters: Counters,
}

impl NetworkBlock {
    pub closed spec fn wf(&self) -> bool {
        self.counters.wf()
    }

    /// The counters the next sample is measured against.
    pub closed spec fn counters(&self) -> Map<Seq<u8>, NetworkBytes> {
        self.counters.view()
    }

    pub fn new(interval: Span) -> (r: NetworkBlock)
        ensures
            r.wf(),
            r.state() == Refresh::fresh(interval.total()),
            r.counters() == Map::<Seq<u8>, NetworkBytes>::empty(),
    {
        NetworkBlock { slot: Slot::new(interval), counters: Counters::new() }
    }

    /// Takes a sample at `now` from the interfaces read (`networks`, in the
    /// order they were enumerated), unless throttled. Gives the names of the
    /// interfaces whose counters went down (reset or wrapped), in order,
    /// with their old and new counters.
    pub fn update(&mut self, now: Span, networks: &Vec<NetworkEntry>) -> (r: Vec<CounterDrop>)
        requires
            old(self).wf(),
        ensures
            final(self).wf(),
            ({
                let secs = (now.total() - old(self).state().last) / (NANOS_PER_SEC as int);
                let (m, text) = pass(old(self).counters(), networks@, secs);
                let regs = regressions(old(self).counters(), networks@);
                if old(self).state().due(now.total()) {
                    &&& final(self).counters() == m
                    &&& final(self).state() == old(self).state().step(now.total(), text, BUF_LEN as nat)
                    &&& r@.len() == regs.len()
                    &&& forall|k: int|
                        0 <= k < r@.len() ==> (#[trigger] r@[k]).name@ == regs[k].0 && r@[k].before
                            == regs[k].1 && r@[k].after == regs[k].2
                } else {
                    &&& final(self).counters() == old(self).counters()
                    &&& final(self).state() == old(self).state()
                    &&& r@.len() == 0
                }
            }),
    {
        let mut regressed: Vec<CounterDrop> = Vec::new();
        if !self.slot.is_due(now) {
            return regressed;
        }
        let secs = self.slot.elapsed_secs(now);
        let ghost m0 = self.counters.view();
        let mut s: Vec<u8> = Vec::new();
        let mut i: usize = 0;
        assert(networks@.take(0) =~= Seq::<NetworkEntry>::empty());
        while i < networks.len()
            invariant
                0 <= i <= networks@.len(),
                self.counters.wf(),
                self.slot@ == old(self).slot@,
                (self.counters.view(), s@) == pass(m0, networks@.take(i as int), secs as int),
                regressed@.len() == regressions(m0, networks@.take(i as int)).len(),
                forall|k: int|
                    0 <= k < regressed@.len() ==> {
                        let d = regressions(m0, networks@.take(i as int))[k];
                        (#[trigger] regressed@[k]).name@ == d.0 && regressed@[k].before == d.1
                            && regressed@[k].after == d.2
                    },
            decreases networks@.len() - i,
        {
            let e = &networks[i];
            assert(networks@.take(i + 1).drop_last() =~= networks@.take(i as int));
            proof {
                lemma_pass_counters_ignore_secs(m0, networks@.take(i as int), secs as int, 0);
            }
            let prev = self.counters.insert(e.name.as_slice(), e.bytes);
            if let Some(old) = prev {
                if e.bytes.rx < old.rx || e.bytes.tx < old.tx {
                    let mut name: Vec<u8> = Vec::new();
                    append(&mut name, e.name.as_slice());
                    assert(name@ =~= e.name@);
                    regressed.push(CounterDrop { name, before: old, after: e.bytes });
                }
                if e.bytes.rx >= old.rx && e.bytes.tx >= old.tx && secs > 0 {
                    let rx = ((e.bytes.rx - old.rx) as u128 / secs) as u64;
                    let tx = ((e.bytes.tx - old.tx) as u128 / secs) as u64;
                    if rx != 0 || tx != 0 {
                        if s.len() != 0 {
                            s.push(32u8);
                        }
                        let seg = rate_text(e.name.as_slice(), rx, tx);
                        append(&mut s, seg.as_slice());
                    }
                }
            }
            i = i + 1;
        }
        assert(networks@.take(i as int) =~= networks@);
        self.slot.store(now, s.as_slice(), BUF_LEN);
        regressed
    }
}

impl Block for NetworkBlock {
    closed spec fn state(&self) -> Refresh {
        self.slot@
    }

    fn is_due(&self, now: Span) -> (r: bool) {
        self.slot.is_due(now)
    }

    fn get_bytes(&self) -> (r: &[u8]) {
        self.slot.bytes()
    }
}

} // verus!
