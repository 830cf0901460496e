//! Byte-string helpers shared by the sources: splitting, trimming,
//! number parsing, decimal rendering and padding.
use vstd::prelude::*;

verus! {

pub open spec fn is_digit(b: u8) -> bool {
    48 <= b <= 57
}

/// ASCII whitespace: space, tab, line feed, vertical tab, form feed, carriage return.
pub open spec fn is_space(b: u8) -> bool {
    b == 32 || (9 <= b <= 13)
}

/// The two-byte UTF-8 encodings of white space: U+0085 and U+00A0.
pub open spec fn is_space2(a: u8, b: u8) -> bool {
    a == 0xc2 && (b == 0x85 || b == 0xa0)
}

/// The three-byte UTF-8 encodings of white space: U+1680, U+2000 to U+200A,
/// U+2028, U+2029, U+202F, U+205F and U+3000.
pub open spec fn is_space3(a: u8, b: u8, c: u8) -> bool {
    (a == 0xe1 && b == 0x9a && c == 0x80) || (a == 0xe2 && b == 0x80 && ((0x80 <= c <= 0x8a) || c
        == 0xa8 || c == 0xa9 || c == 0xaf)) || (a == 0xe2 && b == 0x81 && c == 0x9f) || (a == 0xe3
        && b == 0x80 && c == 0x80)
}

/// The length of the white-space character `s` starts with, or 0.
pub open spec fn space_prefix_len(s: Seq<u8>) -> nat {
    if s.len() >= 1 && is_space(s[0]) {
        1
    } else if s.len() >= 2 && is_space2(s[0], s[1]) {
        2
    } else if s.len() >= 3 && is_space3(s[0], s[1], s[2]) {
        3
    } else {
        0
    }
}

/// The length of the white-space character `s` ends with, or 0.
pub open spec fn space_suffix_len(s: Seq<u8>) -> nat {
    let n = s.len() as int;
    if n >= 1 && is_space(s[n - 1]) {
        1
    } else if n >= 2 && is_space2(s[n - 2], s[n - 1]) {
        2
    } else if n >= 3 && is_space3(s[n - 3], s[n - 2], s[n - 1]) {
        3
    } else {
        0
    }
}

pub open spec fn all_digits(s: Seq<u8>) -> bool {
    forall|i: int| 0 <= i < s.len() ==> is_digit(#[trigger] s[i])
}

/// The value of a string of decimal digits.
pub open spec fn digits_value(s: Seq<u8>) -> nat
    decreases s.len(),
{
    if s.len() == 0 {
        0
    } else {
        digits_value(s.drop_last()) * 10 + (s.last() - 48) as nat
    }
}

/// A non-empty run of decimal digits whose value fits in a `u64`.
pub open spec fn digits_num(s: Seq<u8>) -> Option<nat> {
    if s.len() > 0 && all_digits(s) && digits_value(s) <= u64::MAX {
        Some(digits_value(s))
    } else {
        None
    }
}

/// `s` without one leading `+`.
pub open spec fn unsigned_part(s: Seq<u8>) -> Seq<u8> {
    if s.len() > 0 && s[0] == 43 {
        s.subrange(1, s.len() as int)
    } else {
        s
    }
}

/// An unsigned decimal number as `u64` parsing reads it: an optional `+`,
/// then a non-empty run of digits whose value fits in a `u64`.
pub open spec fn parse_num(s: Seq<u8>) -> Option<nat> {
    digits_num(unsigned_part(s))
}

/// The decimal representation of `n`, without leading zeros.
pub open spec fn decimal(n: nat) -> Seq<u8>
    decreases n,
{
    if n < 10 {
        seq![(48 + n) as u8]
    } else {
        decimal(n / 10).push((48 + n % 10) as u8)
    }
}

/// The number of UTF-8 characters in `s`: the bytes that are not
/// continuation bytes (0x80 to 0xbf).
pub open spec fn char_count(s: Seq<u8>) -> nat
    decreases s.len(),
{
    if s.len() == 0 {
        0
    } else {
        char_count(s.drop_last()) + if 0x80 <= s.last() <= 0xbf {
            0nat
        } else {
            1nat
        }
    }
}

/// `s` preceded by spaces up to `width` characters.
pub open spec fn pad_left(s: Seq<u8>, width: nat) -> Seq<u8> {
    if char_count(s) >= width {
        s
    } else {
        Seq::new((width - char_count(s)) as nat, |i: int| 32u8) + s
    }
}

/// The first `cap` bytes of `s`, or `s` when it is shorter.
pub open spec fn clip(s: Seq<u8>, cap: nat) -> Seq<u8> {
    if s.len() <= cap {
        s
    } else {
        s.take(cap as int)
    }
}

/// The pieces of `s` between occurrences of `sep`; an empty `s` is one empty piece.
pub open spec fn split(s: Seq<u8>, sep: u8) -> Seq<Seq<u8>>
    decreases s.len(),
{
    if s.len() == 0 {
        seq![Seq::<u8>::empty()]
    } else {
        let rest = split(s.drop_last(), sep);
        if s.last() == sep {
            rest.push(Seq::<u8>::empty())
        } else {
            rest.update(rest.len() - 1, rest.last().push(s.last()))
        }
    }
}

pub open spec fn trim_start(s: Seq<u8>) -> Seq<u8>
    decreases s.len(),
{
    if space_prefix_len(s) > 0 {
        trim_start(s.subrange(space_prefix_len(s) as int, s.len() as int))
    } else {
        s
    }
}

pub open spec fn trim_end(s: Seq<u8>) -> Seq<u8>
    decreases s.len(),
{
    if space_suffix_len(s) > 0 {
        trim_end(s.take(s.len() - space_suffix_len(s)))
    } else {
        s
    }
}

/// `s` without leading and trailing white space (the characters with
/// Unicode's White_Space property, in UTF-8).
pub open spec fn trim(s: Seq<u8>) -> Seq<u8> {
    trim_end(trim_start(s))
}

pub proof fn lemma_split_nonempty(s: Seq<u8>, sep: u8)
    ensures
        split(s, sep).len() >= 1,
    decreases s.len(),
{
    if s.len() > 0 {
        lemma_split_nonempty(s.drop_last(), sep);
    }
}

proof fn lemma_digits_prefix(s: Seq<u8>, i: int)
    requires
        0 <= i <= s.len(),
    ensures
        digits_value(s.take(i)) <= digits_value(s),
    decreases s.len(),
{
    if i < s.len() {
        let d = s.drop_last();
        assert(d.take(i) =~= s.take(i));
        lemma_digits_prefix(d, i);
    } else {
        assert(s.take(i) =~= s);
    }
}

/// Whether two byte strings are equal.
pub fn bytes_eq(a: &[u8], b: &[u8]) -> (r: bool)
    ensures
        r == (a@ == b@),
{
    if a.len() != b.len() {
        return false;
    }
    let mut i: usize = 0;
    while i < a.len()
        invariant
            a@.len() == b@.len(),
            0 <= i <= a@.len(),
            forall|k: int| 0 <= k < i ==> a@[k] == b@[k],
        decreases a@.len() - i,
    {
        if a[i] != b[i] {
            return false;
        }
        i = i + 1;
    }
    assert(a@ =~= b@);
    true
}

/// Appends `s` to `out`.
pub fn append(out: &mut Vec<u8>, s: &[u8])
    ensures
        final(out)@ == old(out)@ + s@,
{
    let mut i: usize = 0;
    while i < s.len()
        invariant
            0 <= i <= s@.len(),
            out@ == old(out)@ + s@.take(i as int),
        decreases s@.len() - i,
    {
        out.push(s[i]);
        i = i + 1;
        assert(out@ =~= old(out)@ + s@.take(i as int));
    }
    assert(s@.take(i as int) =~= s@);
}

/// The first `cap` bytes of `s`.
pub fn clip_to(s: &[u8], cap: usize) -> (r: Vec<u8>)
    ensures
        r@ == clip(s@, cap as nat),
{
    let n: usize = if s.len() <= cap { s.len() } else { cap };
    let mut r: Vec<u8> = Vec::new();
    let mut i: usize = 0;
    while i < n
        invariant
            n <= s@.len(),
            0 <= i <= n,
            r@ == s@.take(i as int),
        decreases n - i,
    {
        r.push(s[i]);
        i = i + 1;
        assert(r@ =~= s@.take(i as int));
    }
    assert(s@.len() <= cap ==> s@.take(n as int) =~= s@);
    r
}

/// The pieces of `s` between occurrences of `sep`.
pub fn split_bytes(s: &[u8], sep: u8) -> (r: Vec<Vec<u8>>)
    ensures
        r@.len() == split(s@, sep).len(),
        forall|k: int| 0 <= k < r@.len() ==> #[trigger] r@[k]@ == split(s@, sep)[k],
{
    let mut done: Vec<Vec<u8>> = Vec::new();
    let mut cur: Vec<u8> = Vec::new();
    let mut i: usize = 0;
    assert(s@.take(0) =~= Seq::<u8>::empty());
    while i < s.len()
        invariant
            0 <= i <= s@.len(),
            split(s@.take(i as int), sep).len() == done@.len() + 1,
            forall|k: int|
                0 <= k < done@.len() ==> #[trigger] done@[k]@ == split(s@.take(i as int), sep)[k],
            cur@ == split(s@.take(i as int), sep).last(),
        decreases s@.len() - i,
    {
        let ghost before = s@.take(i as int);
        let b = s[i];
        assert(s@.take(i + 1).drop_last() =~= before);
        if b == sep {
            let piece = cur;
            done.push(piece);
            cur = Vec::new();
        } else {
            cur.push(b);
        }
        i = i + 1;
    }
    assert(s@.take(i as int) =~= s@);
    done.push(cur);
    done
}

/// The length of the white-space character that `s[start..end]` starts with, or 0.
fn space_prefix_at(s: &[u8], start: usize, end: usize) -> (r: usize)
    requires
        start <= end <= s@.len(),
    ensures
        r == space_prefix_len(s@.subrange(start as int, end as int)),
{
    let ghost t = s@.subrange(start as int, end as int);
    let n = end - start;
    if n >= 1 && (s[start] == 32 || (9 <= s[start] && s[start] <= 13)) {
        assert(t[0] == s@[start as int]);
        1
    } else if n >= 2 && s[start] == 0xc2 && (s[start + 1] == 0x85 || s[start + 1] == 0xa0) {
        assert(t[0] == s@[start as int] && t[1] == s@[start + 1]);
        2
    } else if n >= 3 && is_space3_bytes(s[start], s[start + 1], s[start + 2]) {
        assert(t[0] == s@[start as int] && t[1] == s@[start + 1] && t[2] == s@[start + 2]);
        3
    } else {
        assert(n >= 1 ==> t[0] == s@[start as int]);
        assert(n >= 2 ==> t[1] == s@[start + 1]);
        assert(n >= 3 ==> t[2] == s@[start + 2]);
        0
    }
}

/// The length of the white-space character that `s[start..end]` ends with, or 0.
fn space_suffix_at(s: &[u8], start: usize, end: usize) -> (r: usize)
    requires
        start <= end <= s@.len(),
    ensures
        r == space_suffix_len(s@.subrange(start as int, end as int)),
{
    let ghost t = s@.subrange(start as int, end as int);
    let n = end - start;
    if n >= 1 && (s[end - 1] == 32 || (9 <= s[end - 1] && s[end - 1] <= 13)) {
        assert(t[n - 1] == s@[end - 1]);
        1
    } else if n >= 2 && s[end - 2] == 0xc2 && (s[end - 1] == 0x85 || s[end - 1] == 0xa0) {
        assert(t[n - 1] == s@[end - 1] && t[n - 2] == s@[end - 2]);
        2
    } else if n >= 3 && is_space3_bytes(s[end - 3], s[end - 2], s[end - 1]) {
        assert(t[n - 1] == s@[end - 1] && t[n - 2] == s@[end - 2] && t[n - 3] == s@[end - 3]);
        3
    } else {
        assert(n >= 1 ==> t[n - 1] == s@[end - 1]);
        assert(n >= 2 ==> t[n - 2] == s@[end - 2]);
        assert(n >= 3 ==> t[n - 3] == s@[end - 3]);
        0
    }
}

fn is_space3_bytes(a: u8, b: u8, c: u8) -> (r: bool)
    ensures
        r == is_space3(a, b, c),
{
    (a == 0xe1 && b == 0x9a && c == 0x80) || (a == 0xe2 && b == 0x80 && ((0x80 <= c && c <= 0x8a)
        || c == 0xa8 || c == 0xa9 || c == 0xaf)) || (a == 0xe2 && b == 0x81 && c == 0x9f) || (a
        == 0xe3 && b == 0x80 && c == 0x80)
}

/// `s` without leading and trailing white space.
pub fn trim_bytes(s: &[u8]) -> (r: Vec<u8>)
    ensures
        r@ == trim(s@),
{
    let n = s.len();
    let mut start: usize = 0;
    assert(s@.subrange(0, n as int) =~= s@);
    let mut k = space_prefix_at(s, start, n);
    while k > 0
        invariant
            n == s@.len(),
            0 <= start <= n,
            k == space_prefix_len(s@.subrange(start as int, n as int)),
            trim_start(s@) == trim_start(s@.subrange(start as int, n as int)),
        decreases n - start,
    {
        let ghost t = s@.subrange(start as int, n as int);
        assert(t.subrange(k as int, t.len() as int) =~= s@.subrange(start + k, n as int));
        start = start + k;
        k = space_prefix_at(s, start, n);
    }
    let mut end: usize = n;
    assert(trim_start(s@) =~= s@.subrange(start as int, n as int));
    let mut k = space_suffix_at(s, start, end);
    while k > 0
        invariant
            n == s@.len(),
            0 <= start <= end <= n,
            k == space_suffix_len(s@.subrange(start as int, end as int)),
            trim(s@) == trim_end(s@.subrange(start as int, end as int)),
        decreases end - start,
    {
        let ghost t = s@.subrange(start as int, end as int);
        assert(t.take(t.len() - k) =~= s@.subrange(start as int, end - k));
        end = end - k;
        k = space_suffix_at(s, start, end);
    }
    let mut r: Vec<u8> = Vec::new();
    let mut i: usize = start;
    while i < end
        invariant
            n == s@.len(),
            0 <= start <= i <= end <= n,
            r@ == s@.subrange(start as int, i as int),
        decreases end - i,
    {
        r.push(s[i]);
        i = i + 1;
        assert(r@ =~= s@.subrange(start as int, i as int));
    }
    r
}

/// Reads an unsigned decimal number: an optional `+`, then digits.
pub fn parse_u64(s: &[u8]) -> (r: Option<u64>)
    ensures
        r matches Some(v) ==> parse_num(s@) == Some(v as nat),
        r is None ==> parse_num(s@) is None,
{
    if s.len() > 0 && s[0] == 43 {
        parse_digits(&s[1..s.len()])
    } else {
        parse_digits(s)
    }
}

/// Reads a non-empty run of decimal digits that fits in a `u64`.
fn parse_digits(s: &[u8]) -> (r: Option<u64>)
    ensures
        r matches Some(v) ==> digits_num(s@) == Some(v as nat),
        r is None ==> digits_num(s@) is None,
{
    if s.len() == 0 {
        return None;
    }
    let mut acc: u64 = 0;
    let mut i: usize = 0;
    assert(s@.take(0) =~= Seq::<u8>::empty());
    while i < s.len()
        invariant
            0 <= i <= s@.len(),
            all_digits(s@.take(i as int)),
            acc as nat == digits_value(s@.take(i as int)),
        decreases s@.len() - i,
    {
        let b = s[i];
        let ghost next = s@.take(i + 1);
        assert(next.drop_last() =~= s@.take(i as int));
        if b < 48 || b > 57 {
            assert(!is_digit(s@[i as int]));
            return None;
        }
        let d = (b - 48) as u64;
        if acc > (u64::MAX - d) / 10 {
            assert(digits_value(next) > u64::MAX) by (nonlinear_arith)
                requires
                    acc > (u64::MAX - d) / 10,
                    digits_value(next) == acc * 10 + d,
                    d <= 9,
            ;
            proof {
                lemma_digits_prefix(s@, i + 1);
            }
            return None;
        }
        acc = acc * 10 + d;
        i = i + 1;
    }
    assert(s@.take(i as int) =~= s@);
    Some(acc)
}

/// The decimal digits of `n`.
pub fn decimal_bytes(n: u128) -> (r: Vec<u8>)
    ensures
        r@ == decimal(n as nat),
    decreases n,
{
    if n < 10 {
        let mut v: Vec<u8> = Vec::new();
        v.push((48 + n) as u8);
        assert(v@ =~= decimal(n as nat));
        v
    } else {
        let mut v = decimal_bytes(n / 10);
        v.push((48 + n % 10) as u8);
        v
    }
}

/// The number of UTF-8 characters in `s`.
pub fn count_chars(s: &[u8]) -> (r: usize)
    ensures
        r == char_count(s@),
{
    let mut c: usize = 0;
    let mut i: usize = 0;
    assert(s@.take(0) =~= Seq::<u8>::empty());
    while i < s.len()
        invariant
            0 <= i <= s@.len(),
            c <= i,
            c == char_count(s@.take(i as int)),
        decreases s@.len() - i,
    {
        assert(s@.take(i + 1).drop_last() =~= s@.take(i as int));
        if !(0x80 <= s[i] && s[i] <= 0xbf) {
            c = c + 1;
        }
        i = i + 1;
    }
    assert(s@.take(i as int) =~= s@);
    c
}

/// Appends `s`, preceded by spaces up to `width` characters.
pub fn append_padded(out: &mut Vec<u8>, s: &[u8], width: usize)
    ensures
        final(out)@ == old(out)@ + pad_left(s@, width as nat),
{
    let c = count_chars(s);
    let fill_len: usize = if c >= width { 0 } else { width - c };
    let ghost fill = Seq::new(fill_len as nat, |i: int| 32u8);
    let mut k: usize = 0;
    while k < fill_len
        invariant
            0 <= k <= fill_len,
            fill.len() == fill_len,
            forall|j: int| 0 <= j < fill.len() ==> fill[j] == 32u8,
            out@ == old(out)@ + fill.take(k as int),
        decreases fill_len - k,
    {
        out.push(32u8);
        k = k + 1;
        assert(out@ =~= old(out)@ + fill.take(k as int));
    }
    assert(fill.take(fill.len() as int) =~= fill);
    append(out, s);
    assert(pad_left(s@, width as nat) =~= fill + s@);
    assert(out@ =~= old(out)@ + pad_left(s@, width as nat));
}

/// A count of tenths as `<whole>.<tenth>`.
pub open spec fn tenths_text(t: nat) -> Seq<u8> {
    decimal(t / 10) + seq![46u8] + decimal(t % 10)
}

/// Appends a count of tenths as `<whole>.<tenth>`.
pub fn append_tenths(out: &mut Vec<u8>, t: u128)
    ensures
        final(out)@ == old(out)@ + tenths_text(t as nat),
{
    let whole = decimal_bytes(t / 10);
    append(out, whole.as_slice());
    out.push(46u8);
    let frac = decimal_bytes(t % 10);
    append(out, frac.as_slice());
    assert(out@ =~= old(out)@ + tenths_text(t as nat));
}

} // verus!
