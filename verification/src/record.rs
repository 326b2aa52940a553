//! The fingerprint-record codec. A record is one small text file inside the
//! cache directory holding the last fingerprint of a successful compile,
//! written as decimal ASCII digits. Reading tolerates surrounding ASCII
//! whitespace; anything else that fails to parse is treated as "no record"
//! (the recovery policy for corrupted cache state), never as a fatal error.

use vstd::prelude::*;
use vstd::arithmetic::div_mod::lemma_fundamental_div_mod;

verus! {

/// An ASCII decimal digit, `'0'` through `'9'`.
pub open spec fn is_ascii_digit(b: u8) -> bool {
    48 <= b <= 57
}

/// ASCII whitespace: space, tab, line feed, vertical tab, form feed,
/// carriage return.
pub open spec fn is_ascii_space(b: u8) -> bool {
    b == 32 || b == 9 || b == 10 || b == 11 || b == 12 || b == 13
}

/// Every byte of `s` is a decimal digit.
pub open spec fn all_digits(s: Seq<u8>) -> bool {
    forall|i: int| 0 <= i < s.len() ==> is_ascii_digit(#[trigger] s[i])
}

/// The decimal rendering of `n`, most significant digit first, no sign,
/// no padding; `0` renders as the single digit `"0"`.
pub open spec fn spec_render(n: u64) -> Seq<u8>
    decreases n,
{
    if n < 10 {
        seq![(48 + n) as u8]
    } else {
        spec_render(n / 10).push((48 + n % 10) as u8)
    }
}

/// The numeric value of a digit string (left to right, base 10). Only
/// meaningful when `all_digits` holds of it.
pub open spec fn digits_value(s: Seq<u8>) -> int
    decreases s.len(),
{
    if s.len() == 0 {
        0
    } else {
        digits_value(s.drop_last()) * 10 + (s.last() - 48)
    }
}

/// `s` with leading ASCII whitespace removed.
pub open spec fn trim_start(s: Seq<u8>) -> Seq<u8>
    decreases s.len(),
{
    if s.len() > 0 && is_ascii_space(s[0]) {
        trim_start(s.skip(1))
    } else {
        s
    }
}

/// `s` with trailing ASCII whitespace removed.
pub open spec fn trim_end(s: Seq<u8>) -> Seq<u8>
    decreases s.len(),
{
    if s.len() > 0 && is_ascii_space(s.last()) {
        trim_end(s.drop_last())
    } else {
        s
    }
}

/// `s` with ASCII whitespace removed from both ends.
pub open spec fn trimmed(s: Seq<u8>) -> Seq<u8> {
    trim_end(trim_start(s))
}

/// What a record's bytes mean: `Some(n)` when, after trimming ASCII
/// whitespace, the content is one or more decimal digits whose value fits
/// an unsigned 64-bit fingerprint; `None` otherwise (empty, non-numeric,
/// or out of range — all treated as "no usable record").
pub open spec fn spec_parse(s: Seq<u8>) -> Option<u64> {
    let t = trimmed(s);
    if t.len() > 0 && all_digits(t) && digits_value(t) <= u64::MAX {
        Some(digits_value(t) as u64)
    } else {
        None
    }
}

/// Renders `n` as the record content: its decimal digits.
pub fn render_fingerprint(n: u64) -> (v: Vec<u8>)
    ensures
        v@ == spec_render(n),
{
    let mut v: Vec<u8> = Vec::new();
    let mut m: u64 = n;
    proof {
        assert(spec_render(n) =~= spec_render(n) + v@);
    }
    loop
        invariant_except_break
            spec_render(n) == spec_render(m) + v@,
        ensures
            v@ == spec_render(n),
        decreases m,
    {
        let ghost prev = v@;
        let ghost m_pre = m;
        assert(m % 10 < 10);
        let d: u8 = 48 + (m % 10) as u8;
        v.insert(0, d);
        proof {
            assert(v@ =~= seq![d] + prev);
        }
        m = m / 10;
        if m == 0 {
            proof {
                assert(m_pre < 10);
                assert(spec_render(m_pre) =~= seq![(48 + m_pre) as u8]);
                assert(v@ =~= spec_render(m_pre) + prev);
                assert(v@ =~= spec_render(n));
            }
            break;
        }
        proof {
            assert(m_pre >= 10);
            assert(spec_render(m_pre) == spec_render(m_pre / 10).push((48 + m_pre % 10) as u8));
            assert(spec_render(m) + v@ =~= spec_render(m_pre) + prev);
        }
    }
    v
}

/// `trim_start` removes exactly the leading run of whitespace.
proof fn lemma_trim_start_at(s: Seq<u8>, lo: int)
    requires
        0 <= lo <= s.len(),
        forall|k: int| 0 <= k < lo ==> is_ascii_space(#[trigger] s[k]),
        lo == s.len() || !is_ascii_space(s[lo]),
    ensures
        trim_start(s) == s.skip(lo),
    decreases lo,
{
    if lo == 0 {
        assert(s.skip(0) =~= s);
    } else {
        assert(is_ascii_space(s[0]));
        let rest = s.skip(1);
        assert forall|k: int| 0 <= k < lo - 1 implies is_ascii_space(#[trigger] rest[k]) by {
            assert(rest[k] == s[k + 1]);
        }
        if lo - 1 < rest.len() {
            assert(rest[lo - 1] == s[lo]);
        }
        lemma_trim_start_at(rest, lo - 1);
        assert(rest.skip(lo - 1) =~= s.skip(lo));
    }
}

/// `trim_end` removes exactly the trailing run of whitespace.
proof fn lemma_trim_end_at(s: Seq<u8>, hi: int)
    requires
        0 <= hi <= s.len(),
        forall|k: int| hi <= k < s.len() ==> is_ascii_space(#[trigger] s[k]),
        hi == 0 || !is_ascii_space(s[hi - 1]),
    ensures
        trim_end(s) == s.take(hi),
    decreases s.len() - hi,
{
    if hi == s.len() {
        assert(s.take(hi) =~= s);
    } else {
        assert(is_ascii_space(s.last()));
        let front = s.drop_last();
        assert forall|k: int| hi <= k < front.len() implies is_ascii_space(#[trigger] front[k]) by {
            assert(front[k] == s[k]);
        }
        if hi > 0 {
            assert(front[hi - 1] == s[hi - 1]);
        }
        lemma_trim_end_at(front, hi);
        assert(front.take(hi) =~= s.take(hi));
    }
}

/// Over a digit string, the value is non-negative and every prefix's value
/// is bounded by the whole string's value (appending digits never shrinks
/// the number).
proof fn lemma_digits_prefix_le(s: Seq<u8>, i: int)
    requires
        all_digits(s),
        0 <= i <= s.len(),
    ensures
        0 <= digits_value(s.take(i)),
        digits_value(s.take(i)) <= digits_value(s),
    decreases s.len(),
{
    if s.len() == 0 {
        assert(s.take(i) =~= s);
    } else {
        let front = s.drop_last();
        assert forall|k: int| 0 <= k < front.len() implies is_ascii_digit(#[trigger] front[k]) by {
            assert(front[k] == s[k]);
        }
        lemma_digits_prefix_le(front, front.len() as int);
        assert(front.take(front.len() as int) =~= front);
        assert(is_ascii_digit(s.last()));
        assert(digits_value(s) == digits_value(front) * 10 + (s.last() - 48));
        if i == s.len() {
            assert(s.take(i) =~= s);
        } else {
            lemma_digits_prefix_le(front, i);
            assert(front.take(i) =~= s.take(i));
        }
    }
}

/// True exactly for the bytes `trim_start`/`trim_end` remove.
fn is_space_byte(b: u8) -> (r: bool)
    ensures
        r == is_ascii_space(b),
{
    b == 32 || b == 9 || b == 10 || b == 11 || b == 12 || b == 13
}

/// Parses a record's bytes: `Some(n)` exactly when the content, once ASCII
/// whitespace is trimmed from both ends, is one or more decimal digits whose
/// value fits in 64 bits; `None` for everything else (empty, non-numeric, or
/// out of range), which callers treat as "no usable record".
pub fn parse_fingerprint(s: &[u8]) -> (r: Option<u64>)
    ensures
        r == spec_parse(s@),
{
    let n: usize = s.len();
    let mut lo: usize = 0;
    while lo < n && is_space_byte(s[lo])
        invariant
            lo <= n,
            n == s@.len(),
            forall|k: int| 0 <= k < lo ==> is_ascii_space(#[trigger] s@[k]),
        decreases n - lo,
    {
        lo = lo + 1;
    }
    let mut hi: usize = n;
    while hi > lo && is_space_byte(s[hi - 1])
        invariant
            lo <= hi <= n,
            n == s@.len(),
            forall|k: int| hi <= k < n ==> is_ascii_space(#[trigger] s@[k]),
        decreases hi,
    {
        hi = hi - 1;
    }
    let ghost t = s@.subrange(lo as int, hi as int);
    proof {
        lemma_trim_start_at(s@, lo as int);
        let rest = s@.skip(lo as int);
        assert forall|k: int| hi - lo <= k < rest.len() implies is_ascii_space(
            #[trigger] rest[k],
        ) by {
            assert(rest[k] == s@[k + lo]);
        }
        if hi > lo {
            assert(rest[hi - lo - 1] == s@[hi - 1]);
        }
        lemma_trim_end_at(rest, hi - lo);
        assert(rest.take(hi - lo) =~= t);
        assert(trimmed(s@) == t);
    }
    if lo == hi {
        proof {
            assert(t.len() == 0);
        }
        return None;
    }
    let mut acc: u64 = 0;
    let mut j: usize = lo;
    while j < hi
        invariant
            lo <= j <= hi <= n,
            lo < hi,
            n == s@.len(),
            t == s@.subrange(lo as int, hi as int),
            t == trimmed(s@),
            all_digits(s@.subrange(lo as int, j as int)),
            acc == digits_value(s@.subrange(lo as int, j as int)),
        decreases hi - j,
    {
        let b: u8 = s[j];
        proof {
            assert(t[j - lo] == s@[j as int]);
        }
        if b < 48 || b > 57 {
            proof {
                assert(!is_ascii_digit(t[j - lo]));
            }
            return None;
        }
        let d: u8 = b - 48;
        let wide: u128 = (acc as u128) * 10 + (d as u128);
        let ghost prefix = s@.subrange(lo as int, j + 1);
        proof {
            assert(prefix.drop_last() =~= s@.subrange(lo as int, j as int));
            assert(prefix.last() == s@[j as int]);
            assert(digits_value(prefix) == acc * 10 + d);
        }
        if wide > 0xffff_ffff_ffff_ffff {
            proof {
                assert(digits_value(prefix) > u64::MAX);
                if all_digits(t) {
                    assert(prefix =~= t.take(j + 1 - lo));
                    lemma_digits_prefix_le(t, j + 1 - lo);
                    assert(digits_value(t) > u64::MAX);
                }
            }
            return None;
        }
        acc = wide as u64;
        j = j + 1;
        proof {
            assert forall|k: int| 0 <= k < j implies k < lo || is_ascii_digit(
                #[trigger] s@.subrange(lo as int, j as int)[k - lo],
            ) by {
                if lo <= k < j - 1 {
                    assert(s@.subrange(lo as int, j as int)[k - lo] == s@.subrange(
                        lo as int,
                        j - 1,
                    )[k - lo]);
                }
            }
            assert(s@.subrange(lo as int, j as int) =~= prefix);
        }
    }
    proof {
        assert(s@.subrange(lo as int, hi as int) =~= t);
        assert(all_digits(t));
        assert(digits_value(t) == acc);
        assert(t.len() > 0);
    }
    Some(acc)
}

/// Every byte of a rendering is a decimal digit.
pub proof fn lemma_render_all_digits(n: u64)
    ensures
        all_digits(spec_render(n)),
        spec_render(n).len() > 0,
    decreases n,
{
    if n < 10 {
    } else {
        lemma_render_all_digits(n / 10);
    }
}

/// Reading the digits of a rendering back gives the value rendered.
pub proof fn lemma_render_value(n: u64)
    ensures
        digits_value(spec_render(n)) == n,
    decreases n,
{
    if n < 10 {
        let s = spec_render(n);
        assert(s == seq![(48 + n) as u8]);
        assert(s.last() == (48 + n) as u8);
        assert(s.drop_last() =~= Seq::<u8>::empty());
        assert(digits_value(s) == digits_value(s.drop_last()) * 10 + (s.last() - 48));
        assert(digits_value(s.drop_last()) == 0);
        assert(s.last() - 48 == n);
    } else {
        lemma_render_value(n / 10);
        let s = spec_render(n);
        assert(s == spec_render(n / 10).push((48 + n % 10) as u8));
        assert(s.drop_last() =~= spec_render(n / 10));
        assert(s.last() == (48 + n % 10) as u8);
        assert(0 <= n % 10 < 10);
        assert(s.last() - 48 == n % 10);
        assert(digits_value(s) == (n / 10) * 10 + n % 10);
        lemma_fundamental_div_mod(n as int, 10);
    }
}

/// Trimming does not touch a string that starts and ends with digits.
pub proof fn lemma_trim_of_digits(s: Seq<u8>)
    requires
        all_digits(s),
    ensures
        trimmed(s) == s,
{
    if s.len() > 0 {
        assert(is_ascii_digit(s[0]));
        assert(is_ascii_digit(s.last()));
    }
}

/// Law (round-trip): a record written for fingerprint `n` parses back to
/// exactly `n` — after a successful build, reading the stored fingerprint
/// returns the fingerprint that was written.
pub proof fn lemma_record_round_trip(n: u64)
    ensures
        spec_parse(spec_render(n)) == Some(n),
{
    lemma_render_all_digits(n);
    lemma_render_value(n);
    lemma_trim_of_digits(spec_render(n));
}

} // verus!
