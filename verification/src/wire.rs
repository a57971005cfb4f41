//! Byte-string primitives of the wire protocol: comparison, case folding,
//! decimal numbers, trimming and splitting a frame into its fields.

use vstd::prelude::*;

verus! {

/// The carriage return.
pub const CR: u8 = 13;

/// The line feed.
pub const LF: u8 = 10;

/// The sign `+`.
pub const PLUS: u8 = 43;

/// The sign `-`.
pub const MINUS: u8 = 45;

/// The sign `*`.
pub const STAR: u8 = 42;

/// The sign `$`.
pub const DOLLAR: u8 = 36;

/// The digit `0`.
pub const ZERO: u8 = 48;

/// The views of the byte strings in `v`, in order.
pub open spec fn views(v: Seq<Vec<u8>>) -> Seq<Seq<u8>> {
    Seq::new(v.len(), |i: int| v[i]@)
}

/// The views of the key/value pairs in `v`, in order.
pub open spec fn pair_views(v: Seq<(Vec<u8>, Vec<u8>)>) -> Seq<(Seq<u8>, Seq<u8>)> {
    Seq::new(v.len(), |i: int| (v[i].0@, v[i].1@))
}

/// Whether two byte strings hold the same bytes.
pub fn bytes_eq(a: &[u8], b: &[u8]) -> (same: bool)
    ensures
        same == (a@ == b@),
{
    if a.len() != b.len() {
        return false;
    }
    let mut i: usize = 0;
    while i < a.len()
        invariant
            i <= a.len(),
            a@.len() == b@.len(),
            forall|j: int| 0 <= j < i ==> a@[j] == b@[j],
        decreases a.len() - i,
    {
        if a[i] != b[i] {
            return false;
        }
        i += 1;
    }
    assert(a@ =~= b@);
    true
}

/// A fresh copy of the bytes `s[from..to]`.
pub fn copy_range(s: &[u8], from: usize, to: usize) -> (out: Vec<u8>)
    requires
        from <= to <= s@.len(),
    ensures
        out@ == s@.subrange(from as int, to as int),
{
    let mut out: Vec<u8> = Vec::new();
    let mut i: usize = from;
    while i < to
        invariant
            from <= i <= to <= s@.len(),
            out@ == s@.subrange(from as int, i as int),
        decreases to - i,
    {
        out.push(s[i]);
        i += 1;
    }
    out
}

/// Appends the bytes of `s` to `out`.
pub fn append_bytes(out: &mut Vec<u8>, s: &[u8])
    ensures
        final(out)@ == old(out)@ + s@,
{
    let mut i: usize = 0;
    while i < s.len()
        invariant
            i <= s@.len(),
            out@ == old(out)@ + s@.subrange(0, i as int),
        decreases s.len() - i,
    {
        out.push(s[i]);
        i += 1;
    }
}

/// The upper-case form of an ASCII letter, `a` (97) to `z` (122); any other
/// byte is itself.
pub open spec fn upper(b: u8) -> u8 {
    if 97 <= b && b <= 122 {
        (b - 32) as u8
    } else {
        b
    }
}

/// `s` with every ASCII lower-case letter replaced by its upper-case form.
pub open spec fn to_upper(s: Seq<u8>) -> Seq<u8> {
    Seq::new(s.len(), |i: int| upper(s[i]))
}

pub fn to_uppercase(s: &[u8]) -> (out: Vec<u8>)
    ensures
        out@ == to_upper(s@),
{
    let mut out: Vec<u8> = Vec::new();
    let mut i: usize = 0;
    while i < s.len()
        invariant
            i <= s@.len(),
            out@.len() == i,
            forall|j: int| 0 <= j < i ==> out@[j] == upper(s@[j]),
        decreases s.len() - i,
    {
        let b = s[i];
        if 97 <= b && b <= 122 {
            out.push(b - 32);
        } else {
            out.push(b);
        }
        i += 1;
    }
    out
}

/// The decimal digits of `n`, most significant first, without leading zeros.
pub open spec fn decimal(n: nat) -> Seq<u8>
    decreases n,
{
    if n < 10 {
        seq![(ZERO + n) as u8]
    } else {
        decimal(n / 10).push((ZERO + n % 10) as u8)
    }
}

/// Appends the decimal digits of `n` to `out`.
pub fn push_decimal(out: &mut Vec<u8>, n: u64)
    ensures
        final(out)@ == old(out)@ + decimal(n as nat),
    decreases n,
{
    if n >= 10 {
        push_decimal(out, n / 10);
    }
    let digit: u8 = (n % 10) as u8;
    out.push(ZERO + digit);
}

/// Whether `b` is one of the digits `0` to `9`.
pub open spec fn is_digit(b: u8) -> bool {
    ZERO <= b && b <= ZERO + 9
}

/// Whether `s` is made of digits alone.
pub open spec fn all_digits(s: Seq<u8>) -> bool {
    forall|i: int| 0 <= i < s.len() ==> is_digit(#[trigger] s[i])
}

/// The number that a string of decimal digits denotes.
pub open spec fn digits_value(s: Seq<u8>) -> nat
    decreases s.len(),
{
    if s.len() == 0 {
        0
    } else {
        digits_value(s.drop_last()) * 10 + (s.last() - ZERO) as nat
    }
}

/// The digits of a number that may carry a leading `+`.
pub open spec fn unsigned_digits(s: Seq<u8>) -> Seq<u8> {
    if s.len() > 0 && s[0] == PLUS {
        s.subrange(1, s.len() as int)
    } else {
        s
    }
}

/// The value of `s` read as an unsigned decimal number no greater than
/// `max`: an optional `+`, then one or more digits. `None` for any other
/// text and for a number above `max`.
pub open spec fn parse_unsigned(s: Seq<u8>, max: nat) -> Option<nat> {
    let d = unsigned_digits(s);
    if d.len() > 0 && all_digits(d) && digits_value(d) <= max {
        Some(digits_value(d))
    } else {
        None
    }
}

/// The value of `s` read as a signed decimal number in `min..=max`: an
/// optional `+` or `-`, then one or more digits.
pub open spec fn parse_signed(s: Seq<u8>, min: int, max: int) -> Option<int> {
    if s.len() > 0 && s[0] == MINUS {
        let d = s.subrange(1, s.len() as int);
        if d.len() > 0 && all_digits(d) && -(digits_value(d) as int) >= min {
            Some(-(digits_value(d) as int))
        } else {
            None
        }
    } else if max < 0 {
        None
    } else {
        match parse_unsigned(s, max as nat) {
            Some(n) => Some(n as int),
            None => None,
        }
    }
}

/// A prefix of a digit string denotes no more than the whole string.
pub proof fn lemma_digits_value_prefix(s: Seq<u8>, i: int)
    requires
        0 <= i <= s.len(),
    ensures
        digits_value(s.take(i)) <= digits_value(s),
    decreases s.len(),
{
    if i == s.len() {
        assert(s.take(i) =~= s);
    } else {
        assert(s.drop_last().take(i) =~= s.take(i));
        lemma_digits_value_prefix(s.drop_last(), i);
    }
}

/// The decimal digits of a number are digits, and they denote the number.
pub proof fn lemma_decimal_digits(n: nat)
    ensures
        decimal(n).len() > 0,
        all_digits(decimal(n)),
        digits_value(decimal(n)) == n,
    decreases n,
{
    let d = decimal(n);
    if n >= 10 {
        lemma_decimal_digits(n / 10);
        let front = decimal(n / 10);
        assert(d.drop_last() =~= front);
    } else {
        assert(digits_value(d.drop_last()) == 0);
    }
}

/// What is written as a decimal number is read back as the number.
pub proof fn lemma_decimal_is_read_back(n: nat, max: nat)
    requires
        n <= max,
    ensures
        parse_unsigned(decimal(n), max) == Some(n),
{
    lemma_decimal_digits(n);
}

/// The value of the digit string `s[from..]`, where it is made of digits
/// alone, is not empty and denotes at most `max`.
fn read_digits(s: &[u8], from: usize, max: u64) -> (out: Option<u64>)
    requires
        from <= s@.len(),
    ensures
        ({
            let d = s@.subrange(from as int, s@.len() as int);
            out == if d.len() > 0 && all_digits(d) && digits_value(d) <= max {
                Some(digits_value(d) as u64)
            } else {
                None
            }
        }),
{
    let ghost d = s@.subrange(from as int, s@.len() as int);
    if from == s.len() {
        return None;
    }
    let mut acc: u64 = 0;
    let mut i: usize = from;
    while i < s.len()
        invariant
            from <= i <= s@.len(),
            d == s@.subrange(from as int, s@.len() as int),
            all_digits(d.take(i - from)),
            acc == digits_value(d.take(i - from)),
            acc <= max,
        decreases s.len() - i,
    {
        let b = s[i];
        let ghost next = d.take(i - from + 1);
        proof {
            assert(next.drop_last() =~= d.take(i - from));
            lemma_digits_value_prefix(d, i - from + 1);
        }
        if b < ZERO || b > ZERO + 9 {
            return None;
        }
        let digit: u64 = (b - ZERO) as u64;
        if acc > max / 10 {
            return None;
        }
        if digit > max - acc * 10 {
            return None;
        }
        acc = acc * 10 + digit;
        i += 1;
    }
    assert(d.take(i - from) =~= d);
    Some(acc)
}

/// Reads an unsigned decimal number no greater than `max`.
pub fn read_unsigned(s: &[u8], max: u64) -> (out: Option<u64>)
    ensures
        out == match parse_unsigned(s@, max as nat) {
            Some(n) => Some(n as u64),
            None => None,
        },
{
    if s.len() > 0 && s[0] == PLUS {
        read_digits(s, 1, max)
    } else {
        assert(s@.subrange(0, s@.len() as int) =~= s@);
        read_digits(s, 0, max)
    }
}

/// Reads a signed decimal number of 32 bits.
pub fn read_i32(s: &[u8]) -> (out: Option<i32>)
    ensures
        out == match parse_signed(s@, i32::MIN as int, i32::MAX as int) {
            Some(n) => Some(n as i32),
            None => None,
        },
{
    if s.len() > 0 && s[0] == MINUS {
        match read_digits(s, 1, 2147483648) {
            Some(n) => {
                if n == 2147483648 {
                    Some(i32::MIN)
                } else {
                    Some(-(n as i32))
                }
            },
            None => None,
        }
    } else {
        match read_unsigned(s, 2147483647) {
            Some(n) => Some(n as i32),
            None => None,
        }
    }
}

/// Whether `b` is ASCII white space: a tab, a line feed, a vertical tab, a
/// form feed, a carriage return or a blank.
pub open spec fn is_space(b: u8) -> bool {
    (9 <= b && b <= 13) || b == 32
}

/// `s` without the white space it starts with.
pub open spec fn trim_start(s: Seq<u8>) -> Seq<u8>
    decreases s.len(),
{
    if s.len() > 0 && is_space(s[0]) {
        trim_start(s.drop_first())
    } else {
        s
    }
}

/// `s` without the white space it ends with.
pub open spec fn trim_end(s: Seq<u8>) -> Seq<u8>
    decreases s.len(),
{
    if s.len() > 0 && is_space(s.last()) {
        trim_end(s.drop_last())
    } else {
        s
    }
}

/// `s` without the white space at either end.
pub open spec fn trim(s: Seq<u8>) -> Seq<u8> {
    trim_end(trim_start(s))
}

fn space(b: u8) -> (r: bool)
    ensures
        r == is_space(b),
{
    (9 <= b && b <= 13) || b == 32
}

/// The bounds of `s` without the white space at either end.
pub fn trim_bounds(s: &[u8]) -> (bounds: (usize, usize))
    ensures
        bounds.0 <= bounds.1 <= s@.len(),
        s@.subrange(bounds.0 as int, bounds.1 as int) == trim(s@),
{
    let n = s.len();
    let mut lo: usize = 0;
    assert(s@.subrange(0, n as int) =~= s@);
    while lo < n && space(s[lo])
        invariant
            lo <= n == s@.len(),
            trim_start(s@) == trim_start(s@.subrange(lo as int, n as int)),
        decreases n - lo,
    {
        assert(s@.subrange(lo as int, n as int).drop_first() =~= s@.subrange(lo + 1, n as int));
        lo += 1;
    }
    let mut hi: usize = n;
    while hi > lo && space(s[hi - 1])
        invariant
            lo <= hi <= n == s@.len(),
            trim_end(s@.subrange(lo as int, n as int)) == trim_end(
                s@.subrange(lo as int, hi as int),
            ),
        decreases hi - lo,
    {
        assert(s@.subrange(lo as int, hi as int).drop_last() =~= s@.subrange(lo as int, hi - 1));
        hi -= 1;
    }
    (lo, hi)
}

/// Whether a carriage return and a line feed stand at `s[i]` and `s[i + 1]`.
pub open spec fn crlf_at(s: Seq<u8>, i: int) -> bool {
    0 <= i && i + 1 < s.len() && s[i] == CR && s[i + 1] == LF
}

/// The position of the first line break at or after `from`; `s.len()` where
/// there is none.
pub open spec fn next_crlf(s: Seq<u8>, from: int) -> int
    decreases s.len() - from,
{
    if from < 0 || from + 1 >= s.len() {
        s.len() as int
    } else if crlf_at(s, from) {
        from
    } else {
        next_crlf(s, from + 1)
    }
}

/// The parts of `s[from..]` between its line breaks, read from left to
/// right. A string with n line breaks has n + 1 parts, some of them empty.
pub open spec fn split_from(s: Seq<u8>, from: int) -> Seq<Seq<u8>>
    decreases s.len() - from,
{
    if from < 0 || from > s.len() {
        seq![]
    } else {
        let at = next_crlf(s, from);
        if at < from || at + 1 >= s.len() {
            seq![s.subrange(from, s.len() as int)]
        } else {
            seq![s.subrange(from, at)] + split_from(s, at + 2)
        }
    }
}

/// The parts of `s` between its line breaks.
pub open spec fn split_crlf(s: Seq<u8>) -> Seq<Seq<u8>> {
    split_from(s, 0)
}

/// Splits the bytes `s[lo..hi]` at each line break.
pub fn split_lines(s: &[u8], lo: usize, hi: usize) -> (parts: Vec<Vec<u8>>)
    requires
        lo <= hi <= s@.len(),
    ensures
        views(parts@) == split_crlf(s@.subrange(lo as int, hi as int)),
{
    let ghost t = s@.subrange(lo as int, hi as int);
    let mut parts: Vec<Vec<u8>> = Vec::new();
    let mut start: usize = lo;
    let mut i: usize = lo;
    while i < hi
        invariant
            lo <= start <= i <= hi <= s@.len(),
            t == s@.subrange(lo as int, hi as int),
            split_crlf(t) == views(parts@) + split_from(t, start - lo),
            next_crlf(t, start - lo) == next_crlf(t, i - lo),
        decreases hi - i,
    {
        if s[i] == CR && i + 1 < hi && s[i + 1] == LF {
            let part = copy_range(s, start, i);
            proof {
                assert(part@ =~= t.subrange(start - lo, i - lo));
                assert(views(parts@) + (seq![part@] + split_from(t, i - lo + 2)) =~= views(
                    parts@,
                ).push(part@) + split_from(t, i - lo + 2));
            }
            parts.push(part);
            i += 2;
            start = i;
        } else {
            i += 1;
        }
    }
    let part = copy_range(s, start, hi);
    proof {
        assert(part@ =~= t.subrange(start - lo, t.len() as int));
    }
    parts.push(part);
    parts
}

} // verus!
