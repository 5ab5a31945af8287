//! Verified text utilities: decimal and hexadecimal rendering of integers,
//! hexadecimal and decimal parsing, and substring search.
//!
//! Every renderer has an exact specification as a function from the input
//! number to the sequence of characters produced, and every parser is proved
//! to invert the corresponding renderer.

use vstd::prelude::*;
use vstd::string::*;

verus! {

/// The character for one decimal digit value.
pub open spec fn dec_char(d: nat) -> char {
    if d == 0 {
        '0'
    } else if d == 1 {
        '1'
    } else if d == 2 {
        '2'
    } else if d == 3 {
        '3'
    } else if d == 4 {
        '4'
    } else if d == 5 {
        '5'
    } else if d == 6 {
        '6'
    } else if d == 7 {
        '7'
    } else if d == 8 {
        '8'
    } else {
        '9'
    }
}

/// Decimal rendering of a natural number, no leading zeros ("0" for zero).
pub open spec fn spec_dec(n: nat) -> Seq<char>
    decreases n,
{
    if n < 10 {
        seq![dec_char(n)]
    } else {
        spec_dec(n / 10).push(dec_char(n % 10))
    }
}

/// Decimal rendering of `n` padded with leading zeros to exactly `width` digits.
pub open spec fn spec_dec_fixed(n: nat, width: nat) -> Seq<char>
    decreases width,
{
    if width == 0 {
        Seq::empty()
    } else {
        spec_dec_fixed(n / 10, (width - 1) as nat).push(dec_char(n % 10))
    }
}

/// The character for one hexadecimal digit value, lowercase.
pub open spec fn hex_char(d: nat) -> char {
    if d < 10 {
        dec_char(d)
    } else if d == 10 {
        'a'
    } else if d == 11 {
        'b'
    } else if d == 12 {
        'c'
    } else if d == 13 {
        'd'
    } else if d == 14 {
        'e'
    } else {
        'f'
    }
}

/// Lowercase hexadecimal rendering of `n` padded to exactly `width` digits.
pub open spec fn spec_hex_fixed(n: nat, width: nat) -> Seq<char>
    decreases width,
{
    if width == 0 {
        Seq::empty()
    } else {
        spec_hex_fixed(n / 16, (width - 1) as nat).push(hex_char(n % 16))
    }
}

/// Whether `c` is an ASCII hexadecimal digit, either case.
pub open spec fn is_hex_char(c: char) -> bool {
    ('0' <= c && c <= '9') || ('a' <= c && c <= 'f') || ('A' <= c && c <= 'F')
}

/// Numeric value of a hexadecimal digit character.
pub open spec fn hex_val(c: char) -> nat {
    if '0' <= c && c <= '9' {
        (c as nat - '0' as nat) as nat
    } else if 'a' <= c && c <= 'f' {
        (c as nat - 'a' as nat + 10) as nat
    } else if 'A' <= c && c <= 'F' {
        (c as nat - 'A' as nat + 10) as nat
    } else {
        0
    }
}

/// Value of a sequence of hexadecimal digit characters, most significant first.
pub open spec fn parse_hex_seq(s: Seq<char>) -> nat
    decreases s.len(),
{
    if s.len() == 0 {
        0
    } else {
        parse_hex_seq(s.drop_last()) * 16 + hex_val(s.last())
    }
}

/// Whether `c` is an ASCII decimal digit.
pub open spec fn is_dec_char(c: char) -> bool {
    '0' <= c && c <= '9'
}

/// Numeric value of a decimal digit character.
pub open spec fn dec_val(c: char) -> nat {
    if is_dec_char(c) {
        (c as nat - '0' as nat) as nat
    } else {
        0
    }
}

/// Value of a sequence of decimal digit characters, most significant first.
pub open spec fn parse_dec_seq(s: Seq<char>) -> nat
    decreases s.len(),
{
    if s.len() == 0 {
        0
    } else {
        parse_dec_seq(s.drop_last()) * 10 + dec_val(s.last())
    }
}

/// 16 to the power `k`.
pub open spec fn pow16(k: nat) -> nat
    decreases k,
{
    if k == 0 {
        1
    } else {
        16 * pow16((k - 1) as nat)
    }
}

/// 10 to the power `k`.
pub open spec fn pow10(k: nat) -> nat
    decreases k,
{
    if k == 0 {
        1
    } else {
        10 * pow10((k - 1) as nat)
    }
}

/// The needle occurs in the haystack starting at position `i`.
pub open spec fn matches_at(hay: Seq<char>, needle: Seq<char>, i: int) -> bool {
    0 <= i && i + needle.len() <= hay.len() && hay.subrange(i, i + needle.len() as int)
        == needle
}

/// The needle occurs somewhere in the haystack.
pub open spec fn contains_seq(hay: Seq<char>, needle: Seq<char>) -> bool {
    exists|i: int| matches_at(hay, needle, i)
}

/// One-character string for a decimal digit value.
pub fn dec_digit_str(d: u64) -> (s: &'static str)
    requires
        d < 10,
    ensures
        s@ == seq![dec_char(d as nat)],
{
    proof {
        reveal_strlit("0");
        reveal_strlit("1");
        reveal_strlit("2");
        reveal_strlit("3");
        reveal_strlit("4");
        reveal_strlit("5");
        reveal_strlit("6");
        reveal_strlit("7");
        reveal_strlit("8");
        reveal_strlit("9");
    }
    let s: &'static str = match d {
        0 => "0",
        1 => "1",
        2 => "2",
        3 => "3",
        4 => "4",
        5 => "5",
        6 => "6",
        7 => "7",
        8 => "8",
        _ => "9",
    };
    proof {
        assert(s@ =~= seq![dec_char(d as nat)]);
    }
    s
}

/// One-character string for a hexadecimal digit value, lowercase.
pub fn hex_digit_str(d: u64) -> (s: &'static str)
    requires
        d < 16,
    ensures
        s@ == seq![hex_char(d as nat)],
{
    if d < 10 {
        dec_digit_str(d)
    } else {
        proof {
            reveal_strlit("a");
            reveal_strlit("b");
            reveal_strlit("c");
            reveal_strlit("d");
            reveal_strlit("e");
            reveal_strlit("f");
        }
        let s: &'static str = match d {
            10 => "a",
            11 => "b",
            12 => "c",
            13 => "d",
            14 => "e",
            _ => "f",
        };
        proof {
            assert(s@ =~= seq![hex_char(d as nat)]);
        }
        s
    }
}

/// Decimal rendering of `n`, without leading zeros.
pub fn u64_string(n: u64) -> (s: String)
    ensures
        s@ == spec_dec(n as nat),
    decreases n,
{
    if n < 10 {
        String::from_str(dec_digit_str(n))
    } else {
        let mut s = u64_string(n / 10);
        s.append(dec_digit_str(n % 10));
        proof {
            assert(s@ =~= spec_dec(n as nat));
        }
        s
    }
}

/// Decimal rendering of `n` padded with leading zeros to `width` digits.
pub fn u64_dec_fixed(n: u64, width: usize) -> (s: String)
    ensures
        s@ == spec_dec_fixed(n as nat, width as nat),
    decreases width,
{
    if width == 0 {
        String::new()
    } else {
        let mut s = u64_dec_fixed(n / 10, width - 1);
        s.append(dec_digit_str(n % 10));
        proof {
            assert(s@ =~= spec_dec_fixed(n as nat, width as nat));
        }
        s
    }
}

/// Lowercase hexadecimal rendering of `n` padded to `width` digits.
pub fn u64_hex_fixed(n: u64, width: usize) -> (s: String)
    ensures
        s@ == spec_hex_fixed(n as nat, width as nat),
    decreases width,
{
    if width == 0 {
        String::new()
    } else {
        let mut s = u64_hex_fixed(n / 16, width - 1);
        s.append(hex_digit_str(n % 16));
        proof {
            assert(s@ =~= spec_hex_fixed(n as nat, width as nat));
        }
        s
    }
}

/// Every character a fixed-width hexadecimal rendering produces is a
/// lowercase hexadecimal digit; in particular none of them is a hyphen.
pub proof fn lemma_hex_fixed_chars(n: nat, width: nat)
    ensures
        spec_hex_fixed(n, width).len() == width,
        forall|i: int|
            0 <= i < width ==> is_hex_char(#[trigger] spec_hex_fixed(n, width)[i])
                && spec_hex_fixed(n, width)[i] != '-',
    decreases width,
{
    if width > 0 {
        lemma_hex_fixed_chars(n / 16, (width - 1) as nat);
    }
}

/// A fixed-width hexadecimal rendering splits into an upper part rendering
/// the high digits and a lower part rendering the number itself.
pub proof fn lemma_hex_fixed_split(n: nat, w1: nat, w2: nat)
    ensures
        spec_hex_fixed(n, w1 + w2) == spec_hex_fixed(n / pow16(w2), w1) + spec_hex_fixed(
            n,
            w2,
        ),
    decreases w2,
{
    if w2 == 0 {
        assert(n / pow16(0) == n) by {
            vstd::arithmetic::div_mod::lemma_div_basics(n as int);
        }
        assert(spec_hex_fixed(n, w1 + w2) =~= spec_hex_fixed(n / pow16(0), w1)
            + spec_hex_fixed(n, 0));
    } else {
        lemma_hex_fixed_split(n / 16, w1, (w2 - 1) as nat);
        assert(n / 16 / pow16((w2 - 1) as nat) == n / pow16(w2)) by {
            lemma_pow16_pos((w2 - 1) as nat);
            vstd::arithmetic::div_mod::lemma_div_denominator(
                n as int,
                16,
                pow16((w2 - 1) as nat) as int,
            );
        }
        assert(spec_hex_fixed(n, w1 + w2) =~= spec_hex_fixed(n / pow16(w2), w1)
            + spec_hex_fixed(n, w2));
    }
}

/// Parsing a fixed-width hexadecimal rendering recovers the number, for
/// numbers that fit in the given width.
pub proof fn lemma_hex_roundtrip(n: nat, width: nat)
    requires
        n < pow16(width),
    ensures
        parse_hex_seq(spec_hex_fixed(n, width)) == n,
    decreases width,
{
    if width == 0 {
    } else {
        let s = spec_hex_fixed(n, width);
        assert(n / 16 < pow16((width - 1) as nat)) by {
            vstd::arithmetic::div_mod::lemma_div_is_ordered_by_denominator(
                n as int,
                1,
                16,
            );
            assert(16 * pow16((width - 1) as nat) == pow16(width));
            vstd::arithmetic::div_mod::lemma_div_multiples_vanish(
                pow16((width - 1) as nat) as int,
                16,
            );
            if n / 16 >= pow16((width - 1) as nat) {
                vstd::arithmetic::div_mod::lemma_div_is_ordered(
                    (16 * pow16((width - 1) as nat)) as int,
                    n as int,
                    16,
                );
                assert(false);
            }
        }
        lemma_hex_roundtrip(n / 16, (width - 1) as nat);
        assert(s.drop_last() =~= spec_hex_fixed(n / 16, (width - 1) as nat));
        assert(hex_val(hex_char(n % 16)) == n % 16);
        assert(parse_hex_seq(s) == (n / 16) * 16 + n % 16);
        assert((n / 16) * 16 + n % 16 == n) by {
            vstd::arithmetic::div_mod::lemma_fundamental_div_mod(n as int, 16);
        }
    }
}

/// A number is bounded by `pow16` of the length of any all-hex sequence
/// that parses to it.
pub proof fn lemma_parse_hex_bound(s: Seq<char>)
    ensures
        parse_hex_seq(s) < pow16(s.len()),
    decreases s.len(),
{
    if s.len() > 0 {
        lemma_parse_hex_bound(s.drop_last());
        assert(hex_val(s.last()) < 16);
    }
}

/// Parse `s[from..to]` as hexadecimal.  Returns the value when every
/// character in the range is a hexadecimal digit and the range is at most
/// 16 digits; returns `None` on the first other character.
pub fn parse_hex_range(s: &str, from: usize, to: usize) -> (r: Option<u64>)
    requires
        from <= to,
        to <= s@.len(),
        to - from <= 16,
    ensures
        match r {
            Some(v) => {
                &&& forall|i: int| from <= i < to ==> is_hex_char(#[trigger] s@[i])
                &&& v as nat == parse_hex_seq(s@.subrange(from as int, to as int))
            },
            None => exists|i: int| from <= i < to && !is_hex_char(#[trigger] s@[i]),
        },
{
    let mut acc: u64 = 0;
    let mut i: usize = from;
    proof {
        assert(s@.subrange(from as int, from as int) =~= Seq::<char>::empty());
    }
    while i < to
        invariant
            from <= i <= to,
            to <= s@.len(),
            to - from <= 16,
            acc as nat == parse_hex_seq(s@.subrange(from as int, i as int)),
            (acc as nat) < pow16((i - from) as nat),
            forall|j: int| from <= j < i ==> is_hex_char(#[trigger] s@[j]),
        decreases to - i,
    {
        let c = s.get_char(i);
        let v: u64 = if '0' <= c && c <= '9' {
            c as u64 - 48
        } else if 'a' <= c && c <= 'f' {
            c as u64 - 97 + 10
        } else if 'A' <= c && c <= 'F' {
            c as u64 - 65 + 10
        } else {
            return None;
        };
        assert(v as nat == hex_val(c));
        proof {
            assert(pow16(((i + 1) - from) as nat) == 16 * pow16((i - from) as nat));
            assert(pow16((to - from) as nat) <= pow16(16)) by {
                lemma_pow16_le((to - from) as nat, 16);
            }
            assert(pow16(16) == 0x10000000000000000) by {
                reveal_with_fuel(pow16, 17);
            }
            lemma_pow16_le(((i + 1) - from) as nat, (to - from) as nat);
            assert(s@.subrange(from as int, (i + 1) as int).drop_last() =~= s@.subrange(
                from as int,
                i as int,
            ));
            assert(s@.subrange(from as int, (i + 1) as int).last() == s@[i as int]);
        }
        acc = acc * 16 + v;
        i = i + 1;
    }
    proof {
        assert(s@.subrange(from as int, to as int) =~= s@.subrange(from as int, i as int));
    }
    Some(acc)
}

/// `pow16` is monotonic in the exponent.
pub proof fn lemma_pow16_le(a: nat, b: nat)
    requires
        a <= b,
    ensures
        pow16(a) <= pow16(b),
    decreases b,
{
    if a < b {
        lemma_pow16_le(a, (b - 1) as nat);
        assert(pow16(b) == 16 * pow16((b - 1) as nat));
        assert(pow16((b - 1) as nat) >= 1) by {
            lemma_pow16_pos((b - 1) as nat);
        }
    }
}

/// `pow16` is positive.
pub proof fn lemma_pow16_pos(k: nat)
    ensures
        pow16(k) >= 1,
    decreases k,
{
    if k > 0 {
        lemma_pow16_pos((k - 1) as nat);
    }
}

/// `pow10` is positive.
pub proof fn lemma_pow10_pos(k: nat)
    ensures
        pow10(k) >= 1,
    decreases k,
{
    if k > 0 {
        lemma_pow10_pos((k - 1) as nat);
    }
}

/// A digit sequence's value is below `pow10` of its length.
pub proof fn lemma_parse_dec_bound(s: Seq<char>)
    ensures
        parse_dec_seq(s) < pow10(s.len()),
    decreases s.len(),
{
    if s.len() > 0 {
        lemma_parse_dec_bound(s.drop_last());
        assert(dec_val(s.last()) < 10);
    }
}

/// The value of a digit sequence is at least the value of any prefix
/// scaled by ten for each digit dropped.
pub proof fn lemma_parse_dec_prefix(s: Seq<char>, i: int)
    requires
        0 <= i <= s.len(),
    ensures
        parse_dec_seq(s) >= parse_dec_seq(s.subrange(0, i)) * pow10((s.len() - i) as nat),
    decreases s.len() - i,
{
    if i == s.len() {
        assert(s.subrange(0, i) =~= s);
        assert(pow10((s.len() - i) as nat) == 1);
        assert(parse_dec_seq(s.subrange(0, i)) * 1 == parse_dec_seq(s.subrange(0, i)))
            by (nonlinear_arith);
    } else {
        lemma_parse_dec_prefix(s, i + 1);
        let p_i = parse_dec_seq(s.subrange(0, i));
        let p_i1 = parse_dec_seq(s.subrange(0, i + 1));
        assert(s.subrange(0, i + 1).drop_last() =~= s.subrange(0, i));
        assert(p_i1 == p_i * 10 + dec_val(s[i]));
        let k = (s.len() - i - 1) as nat;
        assert(parse_dec_seq(s) >= p_i1 * pow10(k));
        assert(p_i1 * pow10(k) >= (p_i * 10) * pow10(k)) by (nonlinear_arith)
            requires
                p_i1 >= p_i * 10,
                pow10(k) >= 0,
        ;
        assert((p_i * 10) * pow10(k) == p_i * (10 * pow10(k))) by (nonlinear_arith);
        assert(10 * pow10(k) == pow10((k + 1) as nat));
        assert((s.len() - i) as nat == k + 1);
        assert(pow10((s.len() - i) as nat) == 10 * pow10(k));
        assert(p_i * (10 * pow10(k)) == p_i * pow10((s.len() - i) as nat));
        assert(parse_dec_seq(s) >= p_i * pow10((s.len() - i) as nat));
    }
}

/// Parse `s[from..to]` as decimal.  `Some(v)` exactly when the range is
/// nonempty, all digits, and the value fits in 64 bits.
pub fn parse_dec_range(s: &str, from: usize, to: usize) -> (r: Option<u64>)
    requires
        from <= to,
        to <= s@.len(),
    ensures
        match r {
            Some(v) => {
                &&& from < to
                &&& forall|i: int| from <= i < to ==> is_dec_char(#[trigger] s@[i])
                &&& v as nat == parse_dec_seq(s@.subrange(from as int, to as int))
            },
            None => from == to || (exists|i: int|
                from <= i < to && !is_dec_char(#[trigger] s@[i])) || parse_dec_seq(
                s@.subrange(from as int, to as int),
            ) > u64::MAX,
        },
{
    if from == to {
        return None;
    }
    let ghost whole = s@.subrange(from as int, to as int);
    let mut acc: u64 = 0;
    let mut i: usize = from;
    proof {
        assert(s@.subrange(from as int, from as int) =~= Seq::<char>::empty());
    }
    while i < to
        invariant
            from <= i <= to,
            to <= s@.len(),
            whole == s@.subrange(from as int, to as int),
            acc as nat == parse_dec_seq(s@.subrange(from as int, i as int)),
            forall|j: int| from <= j < i ==> is_dec_char(#[trigger] s@[j]),
        decreases to - i,
    {
        let c = s.get_char(i);
        if !('0' <= c && c <= '9') {
            return None;
        }
        let v: u64 = c as u64 - 48;
        assert(v as nat == dec_val(c));
        proof {
            assert(s@.subrange(from as int, (i + 1) as int).drop_last() =~= s@.subrange(
                from as int,
                i as int,
            ));
            assert(s@.subrange(from as int, (i + 1) as int).last() == s@[i as int]);
        }
        if acc > (u64::MAX - v) / 10 {
            proof {
                let pre = s@.subrange(from as int, (i + 1) as int);
                assert(pre =~= whole.subrange(0, (i + 1 - from) as int));
                lemma_parse_dec_prefix(whole, (i + 1 - from) as int);
                let k = (whole.len() - (i + 1 - from)) as nat;
                lemma_pow10_pos(k);
                assert(parse_dec_seq(pre) * pow10(k) >= parse_dec_seq(pre) * 1)
                    by (nonlinear_arith)
                    requires
                        pow10(k) >= 1,
                        parse_dec_seq(pre) >= 0,
                ;
                assert(parse_dec_seq(pre) == acc * 10 + v);
                assert(acc * 10 + v > u64::MAX) by (nonlinear_arith)
                    requires
                        acc > (u64::MAX - v) / 10,
                        0 <= v <= 9,
                        acc <= u64::MAX,
                ;
            }
            return None;
        }
        assert(acc * 10 + v <= u64::MAX) by (nonlinear_arith)
            requires
                acc <= (u64::MAX - v) / 10,
                0 <= v <= 9,
        ;
        acc = acc * 10 + v;
        i = i + 1;
    }
    proof {
        assert(s@.subrange(from as int, to as int) =~= s@.subrange(from as int, i as int));
    }
    Some(acc)
}

/// Relies on `std::string::String::push`: appends exactly the one
/// character to the string.
#[verifier::external_body]
pub fn push_char(s: &mut String, c: char)
    ensures
        final(s)@ == old(s)@.push(c),
{
    s.push(c);
}

/// A nanosecond figure as microseconds with two decimals, truncated.
pub open spec fn spec_us_2dec(ns: nat) -> Seq<char> {
    spec_dec(ns / 1000) + "."@ + spec_dec_fixed((ns % 1000) / 10, 2)
}

/// Render nanoseconds as microseconds with two decimals.
pub fn u64_us_2dec(ns: u64) -> (s: String)
    ensures
        s@ == spec_us_2dec(ns as nat),
{
    let mut s = u64_string(ns / 1000);
    s.append(".");
    let frac = u64_dec_fixed((ns % 1000) / 10, 2);
    s.append(frac.as_str());
    s
}

/// Substring search: does `needle` occur anywhere in `hay`?
pub fn str_contains(hay: &str, needle: &str) -> (b: bool)
    ensures
        b == contains_seq(hay@, needle@),
{
    let n = hay.unicode_len();
    let m = needle.unicode_len();
    if m > n {
        proof {
            assert(forall|i: int| !matches_at(hay@, needle@, i));
        }
        return false;
    }
    if m == 0 {
        proof {
            assert(hay@.subrange(0, 0) =~= needle@);
            assert(matches_at(hay@, needle@, 0));
        }
        return true;
    }
    let mut i: usize = 0;
    while i <= n - m
        invariant
            0 <= i <= n - m + 1,
            0 < m <= n,
            n == hay@.len(),
            m == needle@.len(),
            forall|p: int| 0 <= p < i ==> !matches_at(hay@, needle@, p),
        decreases n + 1 - m - i,
    {
        let mut k: usize = 0;
        let mut hit = true;
        while k < m
            invariant
                0 <= k <= m,
                i + m <= n,
                n == hay@.len(),
                m == needle@.len(),
                hit ==> forall|q: int| 0 <= q < k ==> hay@[i + q] == needle@[q],
                !hit ==> !matches_at(hay@, needle@, i as int),
            decreases m - k,
        {
            if hay.get_char(i + k) != needle.get_char(k) {
                proof {
                    let ki: int = k as int;
                    assert(hay@.subrange(i as int, i + m as int)[ki] != needle@[ki]);
                }
                hit = false;
                k = m;
            } else {
                k = k + 1;
            }
        }
        if hit {
            proof {
                assert(hay@.subrange(i as int, i + m as int) =~= needle@);
                assert(matches_at(hay@, needle@, i as int));
            }
            return true;
        }
        i = i + 1;
    }
    proof {
        assert(forall|p: int| #[trigger] matches_at(hay@, needle@, p) ==> 0 <= p <= n - m);
        assert(!contains_seq(hay@, needle@));
    }
    false
}

} // verus!
