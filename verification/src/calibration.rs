//! Cycle-counter calibration: converting cycle counts to picoseconds and
//! reading a counter frequency out of the texts a kernel exposes.
//!
//! The calibration ladder tries, in order: a kernel-exposed frequency file,
//! the nominal frequency a system information text reports, and a
//! self-calibration from a counted busy-wait interval.  Reading the counter
//! and the files is the embedding application's concern; every computation
//! on the values read stands here, verified.

use crate::hires_timing::{sat64, HiResTimestamp};
use crate::text::{
    dec_val, is_dec_char, lemma_parse_dec_bound, parse_dec_range, parse_dec_seq, pow10,
};
use vstd::prelude::*;
use vstd::string::*;

verus! {

/// Picoseconds a cycle count covers at a given counter frequency, using
/// wide intermediate arithmetic, clamped to the 64-bit range.
pub open spec fn spec_cycles_to_picos(cycles: nat, freq_hz: nat) -> nat {
    sat64(cycles * 1_000_000_000_000 / freq_hz)
}

/// Convert a cycle count to picoseconds: `cycles * 10^12 / freq_hz`.
pub fn cycles_to_picos(cycles: u64, freq_hz: u64) -> (r: u64)
    requires
        freq_hz > 0,
    ensures
        r as nat == spec_cycles_to_picos(cycles as nat, freq_hz as nat),
{
    proof {
        assert((cycles as nat) * 1_000_000_000_000 <= u128::MAX) by (nonlinear_arith)
            requires
                cycles <= u64::MAX,
        ;
    }
    let wide: u128 = (cycles as u128) * 1_000_000_000_000;
    let ps: u128 = wide / (freq_hz as u128);
    if ps > u64::MAX as u128 {
        u64::MAX
    } else {
        ps as u64
    }
}

/// One cycle period in picoseconds: the uncertainty of a cycle-counter
/// measurement.
pub fn cycle_period_ps(freq_hz: u64) -> (r: u64)
    requires
        freq_hz > 0,
    ensures
        r == 1_000_000_000_000u64 / freq_hz,
{
    1_000_000_000_000u64 / freq_hz
}

/// Timestamp for a cycle count at a calibrated frequency: the picosecond
/// conversion with one cycle period of uncertainty, marked as an estimate.
pub fn cycles_to_timestamp(cycles: u64, freq_hz: u64) -> (r: HiResTimestamp)
    requires
        freq_hz > 0,
    ensures
        r.picoseconds as nat == spec_cycles_to_picos(cycles as nat, freq_hz as nat),
        r.uncertainty_low == 1_000_000_000_000u64 / freq_hz,
        r.uncertainty_high == 1_000_000_000_000u64 / freq_hz,
        r.is_estimated,
{
    let ps = cycles_to_picos(cycles, freq_hz);
    let unc = cycle_period_ps(freq_hz);
    HiResTimestamp::from_picos(ps, unc)
}

/// Frequency derived from a self-calibration run: `cycles * 10^9 /
/// elapsed_ns` cycles per second, clamped to the 64-bit range.
pub fn freq_from_calibration(cycles: u64, elapsed_ns: u64) -> (r: u64)
    requires
        elapsed_ns > 0,
    ensures
        r as nat == sat64((cycles as nat) * 1_000_000_000 / (elapsed_ns as nat)),
{
    proof {
        assert((cycles as nat) * 1_000_000_000 <= u128::MAX) by (nonlinear_arith)
            requires
                cycles <= u64::MAX,
        ;
    }
    let wide: u128 = (cycles as u128) * 1_000_000_000;
    let f: u128 = wide / (elapsed_ns as u128);
    if f > u64::MAX as u128 {
        u64::MAX
    } else {
        f as u64
    }
}

/// ASCII whitespace as the frequency texts use it.
pub open spec fn is_ws(c: char) -> bool {
    c == ' ' || c == '\n' || c == '\t' || c == '\r'
}

/// Every character is a decimal digit.
pub open spec fn all_dec(s: Seq<char>) -> bool {
    forall|i: int| 0 <= i < s.len() ==> is_dec_char(#[trigger] s[i])
}

/// `s` with leading whitespace removed.
pub open spec fn trim_front(s: Seq<char>) -> Seq<char>
    decreases s.len(),
{
    if s.len() > 0 && is_ws(s[0]) {
        trim_front(s.drop_first())
    } else {
        s
    }
}

/// `s` with trailing whitespace removed.
pub open spec fn trim_back(s: Seq<char>) -> Seq<char>
    decreases s.len(),
{
    if s.len() > 0 && is_ws(s.last()) {
        trim_back(s.drop_last())
    } else {
        s
    }
}

/// `s` with surrounding whitespace removed.
pub open spec fn spec_trim(s: Seq<char>) -> Seq<char> {
    trim_back(trim_front(s))
}

proof fn lemma_trim_front_range(s: Seq<char>, k: int)
    requires
        0 <= k <= s.len(),
        forall|j: int| 0 <= j < k ==> is_ws(#[trigger] s[j]),
        k == s.len() || !is_ws(s[k]),
    ensures
        trim_front(s) == s.subrange(k, s.len() as int),
    decreases k,
{
    if k == 0 {
        assert(s.subrange(0, s.len() as int) =~= s);
    } else {
        let d = s.drop_first();
        assert(forall|j: int| 0 <= j < k - 1 ==> is_ws(#[trigger] d[j]));
        lemma_trim_front_range(d, k - 1);
        assert(d.subrange(k - 1, d.len() as int) =~= s.subrange(k, s.len() as int));
    }
}

proof fn lemma_trim_back_range(s: Seq<char>, k: int)
    requires
        0 <= k <= s.len(),
        forall|j: int| k <= j < s.len() ==> is_ws(#[trigger] s[j]),
        k == 0 || !is_ws(s[k - 1]),
    ensures
        trim_back(s) == s.subrange(0, k),
    decreases s.len() - k,
{
    if k == s.len() {
        if s.len() > 0 {
            assert(!is_ws(s.last()));
        }
        assert(s.subrange(0, k) =~= s);
    } else {
        let d = s.drop_last();
        assert(is_ws(s.last()));
        assert(forall|j: int| k <= j < d.len() ==> is_ws(#[trigger] d[j]));
        lemma_trim_back_range(d, k);
        assert(d.subrange(0, k) =~= s.subrange(0, k));
    }
}

/// Whitespace test on one character.
fn is_ws_char(c: char) -> (b: bool)
    ensures
        b == is_ws(c),
{
    c == ' ' || c == '\n' || c == '\t' || c == '\r'
}

/// The bounds of `s[from..to]` once surrounding whitespace is dropped.
fn trim_range(s: &str, from: usize, to: usize) -> (r: (usize, usize))
    requires
        from <= to,
        to <= s@.len(),
    ensures
        from <= r.0 <= r.1 <= to,
        spec_trim(s@.subrange(from as int, to as int)) == s@.subrange(
            r.0 as int,
            r.1 as int,
        ),
{
    let ghost t = s@.subrange(from as int, to as int);
    let mut i: usize = from;
    while i < to && is_ws_char(s.get_char(i))
        invariant
            from <= i <= to,
            to <= s@.len(),
            forall|j: int| from <= j < i ==> is_ws(#[trigger] s@[j]),
        decreases to - i,
    {
        i = i + 1;
    }
    proof {
        assert(forall|j: int| 0 <= j < i - from ==> is_ws(#[trigger] t[j]));
        assert(i - from == t.len() || !is_ws(t[i - from]));
        lemma_trim_front_range(t, i - from);
    }
    let ghost tf = trim_front(t);
    let mut j: usize = to;
    while j > i && is_ws_char(s.get_char(j - 1))
        invariant
            i <= j <= to,
            to <= s@.len(),
            forall|q: int| j <= q < to ==> is_ws(#[trigger] s@[q]),
        decreases j,
    {
        j = j - 1;
    }
    proof {
        assert(tf =~= s@.subrange(i as int, to as int));
        assert(forall|q: int| j - i <= q < tf.len() ==> is_ws(#[trigger] tf[q]));
        assert(j - i == 0 || !is_ws(tf[j - i - 1]));
        lemma_trim_back_range(tf, j - i);
        assert(tf.subrange(0, j - i) =~= s@.subrange(j as int, j as int).add(
            s@.subrange(i as int, j as int),
        ));
        assert(tf.subrange(0, j - i) =~= s@.subrange(i as int, j as int));
    }
    (i, j)
}

/// What a kernel frequency file yields: its trimmed content read as a
/// decimal kilohertz count, scaled to hertz, clamped to the 64-bit range.
pub open spec fn spec_parse_khz(s: Seq<char>) -> Option<u64> {
    let t = spec_trim(s);
    if t.len() > 0 && all_dec(t) && parse_dec_seq(t) <= u64::MAX {
        Some(sat64(parse_dec_seq(t) * 1000) as u64)
    } else {
        None
    }
}

/// Parse the content of a kernel frequency file: a decimal kilohertz count
/// surrounded by whitespace.  Returns the frequency in hertz.
pub fn parse_khz_content(s: &str) -> (r: Option<u64>)
    ensures
        r == spec_parse_khz(s@),
{
    let n = s.unicode_len();
    let (i, j) = trim_range(s, 0, n);
    let ghost t = spec_trim(s@);
    proof {
        assert(s@.subrange(0, n as int) =~= s@);
        assert(t == s@.subrange(i as int, j as int));
    }
    if i == j {
        return None;
    }
    match parse_dec_range(s, i, j) {
        Some(v) => {
            let hz = if v > u64::MAX / 1000 {
                u64::MAX
            } else {
                v * 1000
            };
            proof {
                if v > u64::MAX / 1000 {
                    assert((v as nat) * 1000 > u64::MAX) by (nonlinear_arith)
                        requires
                            v > u64::MAX / 1000,
                            v <= u64::MAX,
                    ;
                }
                assert forall|q: int| 0 <= q < t.len() implies is_dec_char(
                    #[trigger] t[q],
                ) by {
                    assert(t[q] == s@[i + q]);
                }
                assert(all_dec(t));
                assert(parse_dec_seq(t) == v as nat);
            }
            Some(hz)
        },
        None => {
            proof {
                if exists|q: int| i <= q < j && !is_dec_char(#[trigger] s@[q]) {
                    let q = choose|q: int| i <= q < j && !is_dec_char(#[trigger] s@[q]);
                    assert(t[q - i] == s@[q]);
                    assert(!is_dec_char(t[q - i]));
                    assert(!all_dec(t));
                }
            }
            None
        },
    }
}

/// First position of `ch` in `s[i..end)`, or `end` if it does not occur.
pub open spec fn find_in(s: Seq<char>, i: int, end: int, ch: char) -> int
    decreases end - i,
{
    if i < 0 || i >= end {
        end
    } else if s[i] == ch {
        i
    } else {
        find_in(s, i + 1, end, ch)
    }
}

proof fn lemma_find_in(s: Seq<char>, i: int, end: int, ch: char)
    requires
        0 <= i <= end <= s.len(),
    ensures
        i <= find_in(s, i, end, ch) <= end,
        find_in(s, i, end, ch) < end ==> s[find_in(s, i, end, ch)] == ch,
        forall|t: int| i <= t < find_in(s, i, end, ch) ==> s[t] != ch,
    decreases end - i,
{
    if i < end && s[i] != ch {
        lemma_find_in(s, i + 1, end, ch);
    }
}

/// Scan for the first `ch` in `s[from..to)`.
fn find_char_in(s: &str, from: usize, to: usize, ch: char) -> (r: usize)
    requires
        from <= to,
        to <= s@.len(),
    ensures
        r as int == find_in(s@, from as int, to as int, ch),
        from <= r <= to,
        r < to ==> s@[r as int] == ch,
    decreases to - from,
{
    let mut k: usize = from;
    while k < to
        invariant
            from <= k <= to,
            to <= s@.len(),
            find_in(s@, from as int, to as int, ch) == find_in(s@, k as int, to as int, ch),
            forall|t: int| from <= t < k ==> s@[t] != ch,
        decreases to - k,
    {
        if s.get_char(k) == ch {
            proof {
                lemma_find_in(s@, k as int, to as int, ch);
            }
            return k;
        }
        k = k + 1;
    }
    proof {
        lemma_find_in(s@, k as int, to as int, ch);
    }
    k
}

/// Whether `s[from..to)` begins with `p`.
pub open spec fn starts_with_range(s: Seq<char>, from: int, to: int, p: Seq<char>) -> bool {
    from + p.len() <= to && s.subrange(from, from + p.len() as int) == p
}

/// Check whether `s[from..to)` begins with `p`.
fn starts_with_at(s: &str, from: usize, to: usize, p: &str) -> (b: bool)
    requires
        from <= to,
        to <= s@.len(),
    ensures
        b == starts_with_range(s@, from as int, to as int, p@),
{
    let m = p.unicode_len();
    if to - from < m {
        return false;
    }
    let mut k: usize = 0;
    while k < m
        invariant
            0 <= k <= m,
            from + m <= to <= s@.len(),
            m == p@.len(),
            forall|q: int| 0 <= q < k ==> s@[from + q] == p@[q],
        decreases m - k,
    {
        if s.get_char(from + k) != p.get_char(k) {
            proof {
                assert(s@.subrange(from as int, from + m as int)[k as int] != p@[k as int]);
            }
            return false;
        }
        k = k + 1;
    }
    proof {
        assert(s@.subrange(from as int, from + m as int) =~= p@);
    }
    true
}

/// The six-digit microhertz-per-megahertz fraction a fractional part
/// denotes: its first six digits, padded with zeros on the right.
pub open spec fn frac6(fp: Seq<char>) -> nat {
    let k = if fp.len() > 6 {
        6nat
    } else {
        fp.len()
    };
    parse_dec_seq(fp.subrange(0, k as int)) * pow10((6 - k) as nat)
}

/// What a trimmed megahertz figure denotes in hertz: an integer part and
/// an optional fractional part, scaled by one million, clamped to the
/// 64-bit range.  Absent or unparsable figures yield nothing.
pub open spec fn spec_mhz_text(t: Seq<char>) -> Option<u64> {
    let d = find_in(t, 0, t.len() as int, '.');
    let ip = t.subrange(0, d);
    let fp = if d < t.len() {
        t.subrange(d + 1, t.len() as int)
    } else {
        Seq::empty()
    };
    if t.len() > 0 && (ip.len() > 0 || fp.len() > 0) && all_dec(ip) && all_dec(fp)
        && parse_dec_seq(ip) <= u64::MAX {
        Some(sat64(parse_dec_seq(ip) * 1000000 + frac6(fp)) as u64)
    } else {
        None
    }
}

/// What one line of the system information text yields: the figure after
/// the first colon, trimmed and read as megahertz.
pub open spec fn spec_mhz_at(s: Seq<char>, i: int, e: int) -> Option<u64> {
    let c = find_in(s, i, e, ':');
    if c >= e {
        None
    } else {
        spec_mhz_text(spec_trim(s.subrange(c + 1, e)))
    }
}

/// What the system information text yields from position `i` on: the first
/// line tagged as a nominal frequency whose figure parses.
pub open spec fn spec_find_mhz(s: Seq<char>, i: int) -> Option<u64>
    decreases s.len() - i,
    when 0 <= i <= s.len()
    via spec_find_mhz_decreases
{
    if i >= s.len() {
        None
    } else {
        let e = find_in(s, i, s.len() as int, '\n');
        let v = if starts_with_range(s, i, e, "cpu MHz"@) {
            spec_mhz_at(s, i, e)
        } else {
            None
        };
        if v is Some {
            v
        } else if e + 1 > s.len() {
            None
        } else {
            spec_find_mhz(s, e + 1)
        }
    }
}

#[via_fn]
proof fn spec_find_mhz_decreases(s: Seq<char>, i: int) {
    if i < s.len() {
        lemma_find_in(s, i, s.len() as int, '\n');
    }
}

/// Parse a nominal frequency out of a system information text: the figure
/// of the first line tagged `cpu MHz`, in hertz.
pub fn parse_cpuinfo_mhz(s: &str) -> (r: Option<u64>)
    ensures
        r == spec_find_mhz(s@, 0),
{
    let n = s.unicode_len();
    let mut i: usize = 0;
    while i < n
        invariant
            0 <= i <= n,
            n == s@.len(),
            spec_find_mhz(s@, 0) == spec_find_mhz(s@, i as int),
        decreases n - i,
    {
        let e = find_char_in(s, i, n, '\n');
        let tagged = starts_with_at(s, i, e, "cpu MHz");
        let mut value: Option<u64> = None;
        if tagged {
            value = mhz_value_at(s, i, e);
        }
        proof {
            if tagged {
                assert(value == spec_mhz_at(s@, i as int, e as int));
            }
        }
        match value {
            Some(v) => {
                return Some(v);
            },
            None => {
                if e >= n {
                    return None;
                }
                i = e + 1;
            },
        }
    }
    None
}

/// Parse the figure after the colon of one tagged line.
#[verifier::loop_isolation(false)]
#[verifier::rlimit(60)]
fn mhz_value_at(s: &str, i: usize, e: usize) -> (r: Option<u64>)
    requires
        i <= e,
        e <= s@.len(),
    ensures
        r == spec_mhz_at(s@, i as int, e as int),
{
    let c = find_char_in(s, i, e, ':');
    if c >= e {
        return None;
    }
    let (ti, tj) = trim_range(s, c + 1, e);
    let ghost t = spec_trim(s@.subrange(c + 1, e as int));
    proof {
        assert(t == s@.subrange(ti as int, tj as int));
        assert(forall|q: int| 0 <= q < t.len() ==> #[trigger] t[q] == s@[ti + q]);
    }
    if ti == tj {
        return None;
    }
    let d = find_char_in(s, ti, tj, '.');
    proof {
        lemma_find_in(s@, ti as int, tj as int, '.');
        assert(find_in(t, 0, t.len() as int, '.') == d - ti) by {
            lemma_find_in_shift(s@, ti as int, tj as int, '.');
        }
    }
    let ghost dd = (d - ti) as int;
    let ghost ip = t.subrange(0, dd);
    let ghost fp = if dd < t.len() {
        t.subrange(dd + 1, t.len() as int)
    } else {
        Seq::<char>::empty()
    };
    if d == ti && d + 1 >= tj {
        // Nothing besides a lone dot: no figure at all.
        proof {
            assert(ip.len() == 0 && fp.len() == 0);
        }
        return None;
    }
    // Integer part.
    let int_val: u64;
    if d == ti {
        int_val = 0;
        proof {
            assert(ip.len() == 0);
            assert(parse_dec_seq(ip) == 0);
        }
    } else {
        match parse_dec_range(s, ti, d) {
            Some(v) => {
                int_val = v;
                proof {
                    assert(ip =~= s@.subrange(ti as int, d as int));
                }
            },
            None => {
                proof {
                    assert(ip =~= s@.subrange(ti as int, d as int));
                    assert(ti < d);
                    if exists|q: int| ti <= q < d && !is_dec_char(#[trigger] s@[q]) {
                        let q = choose|q: int|
                            ti <= q < d && !is_dec_char(#[trigger] s@[q]);
                        assert(ip[q - ti] == s@[q]);
                        assert(!is_dec_char(ip[q - ti]));
                        assert(!all_dec(ip));
                    }
                }
                return None;
            },
        }
    }
    // Fractional part: all digits, the first six of them significant.
    let mut acc: u64 = 0;
    let mut cnt: u64 = 0;
    let mut k: usize = if d < tj {
        d + 1
    } else {
        tj
    };
    let ghost f0 = k as int;
    proof {
        if d < tj {
            assert(fp =~= s@.subrange(f0, tj as int));
        } else {
            assert(fp =~= Seq::<char>::empty());
        }
        assert(s@.subrange(f0, f0) =~= Seq::<char>::empty());
    }
    while k < tj
        invariant
            f0 <= k as int <= tj,
            tj <= s@.len(),
            f0 >= 0,
            fp =~= s@.subrange(f0, tj as int),
            cnt as int == if k as int - f0 > 6 {
                6int
            } else {
                k as int - f0
            },
            acc as nat == parse_dec_seq(s@.subrange(f0, f0 + cnt as int)),
            acc < 1000000,
            forall|q: int| f0 <= q < k as int ==> is_dec_char(#[trigger] s@[q]),
        decreases tj - k,
    {
        let ch = s.get_char(k);
        if !('0' <= ch && ch <= '9') {
            proof {
                assert(fp[k - f0] == s@[k as int]);
                assert(!is_dec_char(fp[k - f0]));
                assert(!all_dec(fp));
            }
            return None;
        }
        if cnt < 6 {
            proof {
                assert(s@.subrange(f0, f0 + (cnt + 1) as int).drop_last() =~= s@.subrange(
                    f0,
                    f0 + cnt as int,
                ));
                assert(s@.subrange(f0, f0 + (cnt + 1) as int).last() == s@[k as int]);
                assert((ch as nat - 48) == dec_val(ch));
            }
            acc = acc * 10 + (ch as u64 - 48);
            cnt = cnt + 1;
            proof {
                lemma_parse_dec_bound(s@.subrange(f0, f0 + cnt as int));
                assert(pow10(6) == 1000000) by {
                    reveal_with_fuel(pow10, 7);
                }
                assert(pow10(cnt as nat) <= pow10(6)) by {
                    lemma_pow10_le(cnt as nat, 6);
                }
            }
        }
        k = k + 1;
    }
    let scale: u64 = if cnt == 0 {
        1000000
    } else if cnt == 1 {
        100000
    } else if cnt == 2 {
        10000
    } else if cnt == 3 {
        1000
    } else if cnt == 4 {
        100
    } else if cnt == 5 {
        10
    } else {
        1
    };
    proof {
        reveal_with_fuel(pow10, 7);
        assert(scale as nat == pow10((6 - cnt) as nat));
        let kk = if fp.len() > 6 {
            6nat
        } else {
            fp.len()
        };
        assert(kk == cnt as nat);
        assert(fp.subrange(0, kk as int) =~= s@.subrange(f0, f0 + cnt as int));
        assert(frac6(fp) == (acc as nat) * (scale as nat));
        lemma_parse_dec_bound(s@.subrange(f0, f0 + cnt as int));
        assert(pow10(cnt as nat) * pow10((6 - cnt) as nat) == pow10(6)) by {
            lemma_pow10_add(cnt as nat, (6 - cnt) as nat);
        }
        assert((acc as nat) * (scale as nat) < 1000000) by (nonlinear_arith)
            requires
                (acc as nat) < pow10(cnt as nat),
                scale as nat == pow10((6 - cnt) as nat),
                pow10(cnt as nat) * pow10((6 - cnt) as nat) == 1000000,
                pow10((6 - cnt) as nat) >= 1,
        ;
    }
    let fr: u64 = acc * scale;
    proof {
        assert((int_val as nat) * 1000000 + (fr as nat) <= u128::MAX) by (nonlinear_arith)
            requires
                int_val <= u64::MAX,
                fr < 1000000,
        ;
    }
    let wide: u128 = (int_val as u128) * 1000000 + fr as u128;
    let hz: u64 = if wide > u64::MAX as u128 {
        u64::MAX
    } else {
        wide as u64
    };
    proof {
        assert(parse_dec_seq(ip) == int_val as nat);
        assert(frac6(fp) == fr as nat);
        assert(t.len() > 0 && (ip.len() > 0 || fp.len() > 0));
        assert(forall|q: int| 0 <= q < ip.len() ==> is_dec_char(#[trigger] ip[q]));
        assert(all_dec(ip));
        assert forall|q: int| 0 <= q < fp.len() implies is_dec_char(#[trigger] fp[q]) by {
            assert(fp[q] == s@[f0 + q]);
        }
        assert(all_dec(fp));
        assert(spec_mhz_text(t) == Some(
            sat64(parse_dec_seq(ip) * 1000000 + frac6(fp)) as u64,
        ));
        assert(hz as nat == sat64((int_val as nat) * 1000000 + fr as nat));
    }
    Some(hz)
}

/// `pow10` is monotonic in the exponent.
proof fn lemma_pow10_le(a: nat, b: nat)
    requires
        a <= b,
    ensures
        pow10(a) <= pow10(b),
    decreases b,
{
    if a < b {
        lemma_pow10_le(a, (b - 1) as nat);
        crate::text::lemma_pow10_pos((b - 1) as nat);
    }
}

/// `pow10` turns addition of exponents into multiplication.
proof fn lemma_pow10_add(a: nat, b: nat)
    ensures
        pow10(a) * pow10(b) == pow10(a + b),
    decreases a,
{
    if a == 0 {
        assert(pow10(0) * pow10(b) == pow10(b)) by (nonlinear_arith)
            requires
                pow10(0int as nat) == 1,
        ;
    } else {
        lemma_pow10_add((a - 1) as nat, b);
        assert(pow10(a) * pow10(b) == 10 * (pow10((a - 1) as nat) * pow10(b)))
            by (nonlinear_arith)
            requires
                pow10(a) == 10 * pow10((a - 1) as nat),
        ;
    }
}

/// Shifting the window start shifts where a character is first found.
proof fn lemma_find_in_shift(s: Seq<char>, from: int, to: int, ch: char)
    requires
        0 <= from <= to <= s.len(),
    ensures
        find_in(s.subrange(from, to), 0, to - from, ch) + from == find_in(s, from, to, ch),
    decreases to - from,
{
    let t = s.subrange(from, to);
    if from < to {
        if s[from] != ch {
            lemma_find_in_shift(s, from + 1, to, ch);
            assert(s.subrange(from + 1, to) =~= t.subrange(1, t.len() as int));
            lemma_find_in_tail(t, to - from, ch);
        }
    }
}

/// Unfolding the first step of a search that does not hit immediately.
proof fn lemma_find_in_tail(t: Seq<char>, end: int, ch: char)
    requires
        0 < end <= t.len(),
        t[0] != ch,
    ensures
        find_in(t, 0, end, ch) == find_in(t.subrange(1, t.len() as int), 0, end - 1, ch) + 1,
    decreases end,
{
    let d = t.subrange(1, t.len() as int);
    lemma_find_in_off(t, d, 1, end, ch);
}

/// Searches agree between a sequence and its suffix at matching offsets.
proof fn lemma_find_in_off(t: Seq<char>, d: Seq<char>, i: int, end: int, ch: char)
    requires
        d =~= t.subrange(1, t.len() as int),
        1 <= i <= end <= t.len(),
    ensures
        find_in(t, i, end, ch) == find_in(d, i - 1, end - 1, ch) + 1,
    decreases end - i,
{
    if i < end {
        assert(d[i - 1] == t[i]);
        if t[i] != ch {
            lemma_find_in_off(t, d, i + 1, end, ch);
        }
    }
}

} // verus!
