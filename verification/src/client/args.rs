//! Command-line values of the flashing tool: numbers in decimal or `0x` hex, and
//! `NAME=FILE` partition arguments.
use vstd::prelude::*;
use vstd::string::StrSliceExecFns;

verus! {

/// Unicode `White_Space`, the set `str::trim` removes.
pub open spec fn is_whitespace(c: char) -> bool {
    let v = c as u32;
    (0x09 <= v <= 0x0D) || v == 0x20 || v == 0x85 || v == 0xA0 || v == 0x1680 || (0x2000 <= v <= 0x200A)
        || v == 0x2028 || v == 0x2029 || v == 0x202F || v == 0x205F || v == 0x3000
}

fn whitespace(c: char) -> (r: bool)
    ensures
        r == is_whitespace(c),
{
    let v = c as u32;
    (0x09 <= v && v <= 0x0D) || v == 0x20 || v == 0x85 || v == 0xA0 || v == 0x1680 || (0x2000 <= v && v <= 0x200A)
        || v == 0x2028 || v == 0x2029 || v == 0x202F || v == 0x205F || v == 0x3000
}

/// The index of the first non-whitespace character at or after `i`.
pub open spec fn skip_ws(s: Seq<char>, i: int) -> int
    decreases s.len() - i,
{
    if 0 <= i < s.len() && is_whitespace(s[i]) { skip_ws(s, i + 1) } else { i }
}

/// The end of `s[lo..j]` without its trailing whitespace.
pub open spec fn end_ws(s: Seq<char>, lo: int, j: int) -> int
    decreases j - lo,
{
    if lo < j <= s.len() && is_whitespace(s[j - 1]) { end_ws(s, lo, j - 1) } else { j }
}

/// `s` without leading and trailing whitespace.
pub open spec fn trimmed(s: Seq<char>) -> Seq<char> {
    let lo = skip_ws(s, 0);
    s.subrange(lo, end_ws(s, lo, s.len() as int))
}

/// The value of a digit character in bases up to 36 (either case), if it is one.
pub open spec fn digit_of(c: char) -> Option<int> {
    let v = c as u32;
    if 0x30 <= v <= 0x39 {
        Some(v - 0x30)
    } else if 0x61 <= v <= 0x7A {
        Some(v - 0x61 + 10)
    } else if 0x41 <= v <= 0x5A {
        Some(v - 0x41 + 10)
    } else {
        None
    }
}

/// `c` is a digit below `radix`.
pub open spec fn digit_below(c: char, radix: int) -> bool {
    match digit_of(c) {
        Some(d) => d < radix,
        None => false,
    }
}

/// Every character of `s` is a digit below `radix`.
pub open spec fn all_digits(s: Seq<char>, radix: int) -> bool {
    forall|i: int| 0 <= i < s.len() ==> #[trigger] digit_below(s[i], radix)
}

/// The number the digits of `s` spell in base `radix`.
pub open spec fn digits_value(s: Seq<char>, radix: int) -> int
    decreases s.len(),
{
    if s.len() == 0 {
        0
    } else {
        digits_value(s.drop_last(), radix) * radix + match digit_of(s.last()) {
            Some(d) => d,
            None => 0,
        }
    }
}

/// An unsigned number in base `radix`: an optional `+`, then at least one digit, and a
/// value that fits 64 bits.
pub open spec fn parse_radix(s: Seq<char>, radix: int) -> Option<u64> {
    let body = if s.len() > 0 && s[0] == '+' { s.drop_first() } else { s };
    if body.len() == 0 || !all_digits(body, radix) || digits_value(body, radix) > u64::MAX {
        None
    } else {
        Some(digits_value(body, radix) as u64)
    }
}

/// A command-line number: surrounding whitespace ignored, `0x` (either case) for hex,
/// decimal otherwise.
pub open spec fn spec_parse_u64(s: Seq<char>) -> Option<u64> {
    let t = trimmed(s);
    if t.len() >= 2 && t[0] == '0' && (t[1] == 'x' || t[1] == 'X') {
        parse_radix(t.skip(2), 16)
    } else {
        parse_radix(t, 10)
    }
}

proof fn lemma_prefix_value_le(s: Seq<char>, radix: int, m: int)
    requires
        radix >= 1,
        0 <= m <= s.len(),
        all_digits(s, radix),
    ensures
        0 <= digits_value(s.take(m), radix) <= digits_value(s, radix),
    decreases s.len() - m,
{
    lemma_value_nonneg(s.take(m), radix);
    if m < s.len() {
        lemma_prefix_value_le(s, radix, m + 1);
        assert(s.take(m + 1).drop_last() =~= s.take(m));
        let d = digit_of(s[m]);
        assert(s.take(m + 1).last() == s[m]);
        lemma_value_nonneg(s.take(m), radix);
        assert(digits_value(s.take(m), radix) * radix >= digits_value(s.take(m), radix)) by (nonlinear_arith)
            requires radix >= 1, digits_value(s.take(m), radix) >= 0;
    } else {
        assert(s.take(m) =~= s);
    }
}

proof fn lemma_value_nonneg(s: Seq<char>, radix: int)
    requires
        radix >= 1,
        all_digits(s, radix),
    ensures
        digits_value(s, radix) >= 0,
    decreases s.len(),
{
    if s.len() > 0 {
        assert(all_digits(s.drop_last(), radix)) by {
            assert forall|i: int| 0 <= i < s.drop_last().len() implies #[trigger] digit_below(s.drop_last()[i], radix) by {
                assert(s.drop_last()[i] == s[i]);
            }
        }
        lemma_value_nonneg(s.drop_last(), radix);
        assert(digit_below(s[s.len() - 1], radix));
        assert(digits_value(s.drop_last(), radix) * radix >= 0) by (nonlinear_arith)
            requires radix >= 1, digits_value(s.drop_last(), radix) >= 0;
    }
}

fn digit(c: char) -> (r: Option<u64>)
    ensures
        match digit_of(c) {
            Some(d) => r == Some(d as u64),
            None => r is None,
        },
{
    let v = c as u32;
    if 0x30 <= v && v <= 0x39 {
        Some((v - 0x30) as u64)
    } else if 0x61 <= v && v <= 0x7A {
        Some((v - 0x61 + 10) as u64)
    } else if 0x41 <= v && v <= 0x5A {
        Some((v - 0x41 + 10) as u64)
    } else {
        None
    }
}

/// Parse characters `from..to` of `s` as an optionally `+`-signed number in `radix`.
fn parse_range(s: &str, from: usize, to: usize, radix: u64) -> (r: Option<u64>)
    requires
        from <= to <= s@.len(),
        radix == 10 || radix == 16,
    ensures
        r == parse_radix(s@.subrange(from as int, to as int), radix as int),
{
    let ghost sub = s@.subrange(from as int, to as int);
    let mut start = from;
    if start < to && s.get_char(start) == '+' {
        start = start + 1;
    }
    let ghost body = s@.subrange(start as int, to as int);
    assert(body =~= (if sub.len() > 0 && sub[0] == '+' { sub.drop_first() } else { sub }));
    if start == to {
        return None;
    }
    let mut acc: u64 = 0;
    let mut k = start;
    while k < to
        invariant
            start <= k <= to <= s@.len(),
            start < to,
            radix == 10 || radix == 16,
            body == s@.subrange(start as int, to as int),
            sub == s@.subrange(from as int, to as int),
            body == (if sub.len() > 0 && sub[0] == '+' { sub.drop_first() } else { sub }),
            all_digits(body.take(k - start), radix as int),
            acc == digits_value(body.take(k - start), radix as int),
        decreases to - k,
    {
        let c = s.get_char(k);
        assert(c == body[k - start]);
        assert(body.take(k - start + 1).drop_last() =~= body.take(k - start));
        let d = match digit(c) {
            Some(d) => d,
            None => {
                assert(!all_digits(body, radix as int)) by {
                    assert(!digit_below(body[k - start], radix as int));
                }
                return None;
            },
        };
        if d >= radix {
            assert(!all_digits(body, radix as int)) by {
                assert(!digit_below(body[k - start], radix as int));
            }
            return None;
        }
        assert(all_digits(body.take(k - start + 1), radix as int)) by {
            assert forall|i: int| 0 <= i < body.take(k - start + 1).len() implies #[trigger] digit_below(
                body.take(k - start + 1)[i],
                radix as int,
            ) by {
                if i < k - start {
                    assert(body.take(k - start + 1)[i] == body.take(k - start)[i]);
                }
            }
        }
        let next = match acc.checked_mul(radix) {
            Some(m) => m.checked_add(d),
            None => None,
        };
        match next {
            Some(n) => {
                acc = n;
            },
            None => {
                proof {
                    lemma_value_nonneg(body.take(k - start), radix as int);
                    let p = body.take(k - start + 1);
                    assert(p.last() == c);
                    assert(digits_value(p, radix as int) > u64::MAX) by (nonlinear_arith)
                        requires
                            digits_value(p, radix as int) == acc * radix + d,
                            acc * radix > u64::MAX || acc * radix + d > u64::MAX,
                            d >= 0,
                    ;
                    if all_digits(body, radix as int) {
                        lemma_prefix_value_le(body, radix as int, k - start + 1);
                    }
                }
                return None;
            },
        }
        k = k + 1;
    }
    assert(body.take(to - start) =~= body);
    Some(acc)
}

/// Parse a command-line number: decimal, or hex after `0x`/`0X`, with surrounding
/// whitespace ignored; `None` when it is malformed or does not fit 64 bits.
pub fn parse_u64(s: &str) -> (r: Option<u64>)
    ensures
        r == spec_parse_u64(s@),
{
    let n = s.unicode_len();
    let mut lo: usize = 0;
    while lo < n && whitespace(s.get_char(lo))
        invariant
            n == s@.len(),
            lo <= n,
            skip_ws(s@, 0) == skip_ws(s@, lo as int),
        decreases n - lo,
    {
        lo = lo + 1;
    }
    let mut hi: usize = n;
    while hi > lo && whitespace(s.get_char(hi - 1))
        invariant
            n == s@.len(),
            lo <= hi <= n,
            skip_ws(s@, 0) == lo,
            end_ws(s@, lo as int, n as int) == end_ws(s@, lo as int, hi as int),
        decreases hi - lo,
    {
        hi = hi - 1;
    }
    let ghost t = trimmed(s@);
    assert(t =~= s@.subrange(lo as int, hi as int));
    if hi - lo >= 2 && s.get_char(lo) == '0' && (s.get_char(lo + 1) == 'x' || s.get_char(lo + 1) == 'X') {
        assert(t.skip(2) =~= s@.subrange(lo + 2, hi as int));
        parse_range(s, lo + 2, hi, 16)
    } else {
        parse_range(s, lo, hi, 10)
    }
}

/// Split a `NAME=FILE` argument at its first `=`.
pub fn parse_partition_arg(s: &str) -> (r: Option<(String, String)>)
    ensures
        match r {
            Some((name, file)) => exists|i: int|
                0 <= i < s@.len() && s@[i] == '=' && (forall|k: int| 0 <= k < i ==> s@[k] != '=')
                    && name@ == s@.take(i) && file@ == s@.skip(i + 1),
            None => forall|k: int| 0 <= k < s@.len() ==> s@[k] != '=',
        },
{
    let n = s.unicode_len();
    let mut i: usize = 0;
    while i < n
        invariant
            n == s@.len(),
            i <= n,
            forall|k: int| 0 <= k < i ==> s@[k] != '=',
        decreases n - i,
    {
        if s.get_char(i) == '=' {
            let name = s.substring_char(0, i).to_owned();
            let file = s.substring_char(i + 1, n).to_owned();
            assert(name@ =~= s@.take(i as int));
            assert(file@ =~= s@.skip(i + 1));
            return Some((name, file));
        }
        i = i + 1;
    }
    None
}

} // verus!
