//! Shared statistical groundwork: sums, extrema and order statistics of
//! sample sequences, an integer square root, and a verified sort.
//!
//! The accumulators state their contracts over these spec functions, so the
//! same model serves the concurrent-style and single-owner variants alike.

use vstd::prelude::*;
use vstd::multiset::Multiset;
use vstd::relations::{sorted_by, total_ordering};
use vstd::seq_lib::lemma_sorted_unique;

verus! {

broadcast use {vstd::seq_lib::group_to_multiset_ensures, vstd::multiset::group_multiset_axioms};

/// Sum of a sequence of samples.
pub open spec fn sum_of(s: Seq<u64>) -> nat
    decreases s.len(),
{
    if s.len() == 0 {
        0
    } else {
        sum_of(s.drop_last()) + s.last() as nat
    }
}

/// Minimum of a sequence of samples; the largest representable value when
/// the sequence is empty, matching an accumulator's reset state.
pub open spec fn min_of(s: Seq<u64>) -> nat
    decreases s.len(),
{
    if s.len() == 0 {
        u64::MAX as nat
    } else if s.last() < min_of(s.drop_last()) {
        s.last() as nat
    } else {
        min_of(s.drop_last())
    }
}

/// Maximum of a sequence of samples; zero when the sequence is empty.
pub open spec fn max_of(s: Seq<u64>) -> nat
    decreases s.len(),
{
    if s.len() == 0 {
        0
    } else if s.last() > max_of(s.drop_last()) {
        s.last() as nat
    } else {
        max_of(s.drop_last())
    }
}

/// How many samples are strictly below `t`.
pub open spec fn count_lt(s: Seq<u64>, t: u64) -> nat
    decreases s.len(),
{
    if s.len() == 0 {
        0
    } else {
        count_lt(s.drop_last(), t) + if s.last() < t {
            1nat
        } else {
            0nat
        }
    }
}

/// The ordering by which samples are sorted.
pub open spec fn u64_leq() -> spec_fn(u64, u64) -> bool {
    |a: u64, b: u64| a <= b
}

/// The sorted arrangement of a sequence of samples.  A sorted permutation
/// of a multiset is unique, so this names a single sequence.
pub open spec fn sorted_of(s: Seq<u64>) -> Seq<u64> {
    s.sort_by(u64_leq())
}

/// Every sample lies between the minimum and the maximum.
pub proof fn lemma_min_max_bound(s: Seq<u64>, i: int)
    requires
        0 <= i < s.len(),
    ensures
        min_of(s) <= s[i] <= max_of(s),
    decreases s.len(),
{
    if i == s.len() - 1 {
    } else {
        lemma_min_max_bound(s.drop_last(), i);
    }
}

/// The sum lies between `len * min` and `len * max`.
pub proof fn lemma_sum_bounds(s: Seq<u64>)
    requires
        s.len() > 0,
    ensures
        s.len() * min_of(s) <= sum_of(s) <= s.len() * max_of(s),
    decreases s.len(),
{
    if s.len() == 1 {
        assert(sum_of(s) == sum_of(s.drop_last()) + s.last());
    } else {
        let d = s.drop_last();
        lemma_sum_bounds(d);
        assert(min_of(s) <= min_of(d) && max_of(s) >= max_of(d));
        assert(min_of(s) <= s.last() && s.last() <= max_of(s)) by {
            lemma_min_max_bound(s, s.len() - 1);
        }
        assert(d.len() * min_of(d) >= d.len() * min_of(s)) by (nonlinear_arith)
            requires
                min_of(d) >= min_of(s),
                d.len() >= 0,
        ;
        assert(d.len() * max_of(d) <= d.len() * max_of(s)) by (nonlinear_arith)
            requires
                max_of(d) <= max_of(s),
                d.len() >= 0,
        ;
        assert(s.len() * min_of(s) == d.len() * min_of(s) + min_of(s)) by (nonlinear_arith)
            requires
                s.len() == d.len() + 1,
        ;
        assert(s.len() * max_of(s) == d.len() * max_of(s) + max_of(s)) by (nonlinear_arith)
            requires
                s.len() == d.len() + 1,
        ;
    }
}

/// For a nonempty sequence whose sum fits the machine word, the floored
/// mean lies between the minimum and the maximum.
pub proof fn lemma_mean_bounds(s: Seq<u64>)
    requires
        s.len() > 0,
    ensures
        min_of(s) <= sum_of(s) / s.len() as nat <= max_of(s),
{
    lemma_sum_bounds(s);
    let n = s.len() as nat;
    let lo = min_of(s);
    let hi = max_of(s);
    let sum = sum_of(s);
    assert(sum / n >= lo) by (nonlinear_arith)
        requires
            n > 0,
            sum >= n * lo,
    ;
    assert(sum / n <= hi) by (nonlinear_arith)
        requires
            n > 0,
            sum <= n * hi,
    ;
}

/// The floored square root, as a mathematical function.
pub open spec fn spec_isqrt(n: nat) -> nat
    decreases n,
{
    if n == 0 {
        0
    } else {
        let r = spec_isqrt((n - 1) as nat);
        if (r + 1) * (r + 1) <= n {
            r + 1
        } else {
            r
        }
    }
}

/// The floored square root is the unique value whose square is at most
/// `n` while the next square exceeds it.
pub proof fn lemma_isqrt_bounds(n: nat)
    ensures
        spec_isqrt(n) * spec_isqrt(n) <= n,
        (spec_isqrt(n) + 1) * (spec_isqrt(n) + 1) > n,
    decreases n,
{
    let q = spec_isqrt(n);
    if n == 0 {
        assert(q == 0);
        assert((q + 1) * (q + 1) == 1) by (nonlinear_arith)
            requires
                q == 0,
        ;
    } else {
        lemma_isqrt_bounds((n - 1) as nat);
        let r = spec_isqrt((n - 1) as nat);
        if (r + 1) * (r + 1) <= n {
            assert(q == r + 1);
            assert((q + 1) * (q + 1) > n) by (nonlinear_arith)
                requires
                    q == r + 1,
                    (r + 1) * (r + 1) > n - 1,
                    n >= 1,
            ;
        } else {
            assert(q == r);
            assert(q * q <= n - 1);
        }
    }
}

/// Any value within the square-root bounds is the floored square root.
pub proof fn lemma_isqrt_unique(n: nat, r: nat)
    requires
        r * r <= n,
        (r + 1) * (r + 1) > n,
    ensures
        r == spec_isqrt(n),
{
    lemma_isqrt_bounds(n);
    let s = spec_isqrt(n);
    if r < s {
        assert((r + 1) * (r + 1) <= s * s) by (nonlinear_arith)
            requires
                r + 1 <= s,
        ;
    }
    if s < r {
        assert((s + 1) * (s + 1) <= r * r) by (nonlinear_arith)
            requires
                s + 1 <= r,
        ;
    }
}

/// Floored integer square root.
pub fn isqrt_u64(n: u64) -> (r: u64)
    ensures
        r as nat == spec_isqrt(n as nat),
        (r as nat) * (r as nat) <= n as nat,
        ((r + 1) as nat) * ((r + 1) as nat) > n as nat,
{
    let mut lo: u64 = 0;
    let mut hi: u64 = 4294967296;
    proof {
        assert((hi as nat) * (hi as nat) > n as nat) by (nonlinear_arith)
            requires
                hi == 4294967296u64,
                n <= u64::MAX,
        ;
    }
    while lo + 1 < hi
        invariant
            lo < hi <= 4294967296,
            (lo as nat) * (lo as nat) <= n as nat,
            (hi as nat) * (hi as nat) > n as nat,
        decreases hi - lo,
    {
        let mid = lo + (hi - lo) / 2;
        proof {
            assert((mid as nat) * (mid as nat) <= 0x10000000000000000nat) by (nonlinear_arith)
                requires
                    mid <= 4294967296u64,
            ;
        }
        if (mid as u128) * (mid as u128) <= n as u128 {
            lo = mid;
        } else {
            hi = mid;
        }
    }
    proof {
        lemma_isqrt_unique(n as nat, lo as nat);
    }
    lo
}

/// Floored integer square root of a wide value; the root always fits in
/// 64 bits.
pub fn isqrt_u128(n: u128) -> (r: u64)
    ensures
        r as nat == spec_isqrt(n as nat),
        (r as nat) * (r as nat) <= n as nat,
        ((r as nat) + 1) * ((r as nat) + 1) > n as nat,
{
    let mut lo: u128 = 0;
    let mut hi: u128 = 0x10000000000000000;
    proof {
        assert((hi as nat) * (hi as nat) > n as nat) by (nonlinear_arith)
            requires
                hi == 0x10000000000000000u128,
                n <= u128::MAX,
        ;
    }
    while lo + 1 < hi
        invariant
            lo < hi <= 0x10000000000000000,
            (lo as nat) * (lo as nat) <= n as nat,
            (hi as nat) * (hi as nat) > n as nat,
        decreases hi - lo,
    {
        let mid = lo + (hi - lo) / 2;
        proof {
            assert((mid as nat) * (mid as nat) < 0x100000000000000000000000000000000nat)
                by (nonlinear_arith)
                requires
                    mid < 0x10000000000000000u128,
            ;
        }
        if mid * mid <= n {
            lo = mid;
        } else {
            hi = mid;
        }
    }
    proof {
        assert(lo < 0x10000000000000000);
        lemma_isqrt_unique(n as nat, lo as nat);
    }
    lo as u64
}

/// The cumulative histogram is monotone: a higher threshold never counts
/// fewer samples.
pub proof fn lemma_count_lt_monotone(s: Seq<u64>, t1: u64, t2: u64)
    requires
        t1 <= t2,
    ensures
        count_lt(s, t1) <= count_lt(s, t2),
    decreases s.len(),
{
    if s.len() > 0 {
        lemma_count_lt_monotone(s.drop_last(), t1, t2);
    }
}

/// Copy a vector of samples.
pub fn clone_vec_u64(v: &Vec<u64>) -> (r: Vec<u64>)
    ensures
        r@ == v@,
{
    let mut r: Vec<u64> = Vec::with_capacity(v.len());
    let mut i: usize = 0;
    while i < v.len()
        invariant
            0 <= i <= v@.len(),
            r@ == v@.subrange(0, i as int),
        decreases v@.len() - i,
    {
        r.push(v[i]);
        proof {
            assert(r@ =~= v@.subrange(0, (i + 1) as int));
        }
        i = i + 1;
    }
    proof {
        assert(r@ =~= v@);
    }
    r
}

/// Count of elements strictly below `t` in a vector of samples.
pub fn count_below_u64(v: &Vec<u64>, t: u64) -> (r: u64)
    requires
        v@.len() <= u64::MAX,
    ensures
        r as nat == count_lt(v@, t),
        r <= v@.len(),
{
    let mut r: u64 = 0;
    let mut i: usize = 0;
    proof {
        assert(v@.subrange(0, 0) =~= Seq::<u64>::empty());
    }
    while i < v.len()
        invariant
            0 <= i <= v@.len() <= u64::MAX,
            r as nat == count_lt(v@.subrange(0, i as int), t),
            r <= i,
        decreases v@.len() - i,
    {
        proof {
            assert(v@.subrange(0, (i + 1) as int).drop_last() =~= v@.subrange(0, i as int));
            assert(v@.subrange(0, (i + 1) as int).last() == v@[i as int]);
        }
        if v[i] < t {
            r = r + 1;
        }
        i = i + 1;
    }
    proof {
        assert(v@.subrange(0, i as int) =~= v@);
    }
    r
}

/// Sort a vector of samples ascending; the result is exactly the sorted
/// arrangement of the input.
pub fn sort_u64_vec(input: &Vec<u64>) -> (out: Vec<u64>)
    ensures
        out@ == sorted_of(input@),
        out@.len() == input@.len(),
{
    let ghost leq = u64_leq();
    let mut src: Vec<u64> = Vec::new();
    let mut i: usize = 0;
    while i < input.len()
        invariant
            0 <= i <= input@.len(),
            src@ == input@.subrange(0, i as int),
        decreases input@.len() - i,
    {
        src.push(input[i]);
        proof {
            assert(src@ =~= input@.subrange(0, (i + 1) as int));
        }
        i = i + 1;
    }
    proof {
        assert(src@ =~= input@);
    }
    let mut out: Vec<u64> = Vec::new();
    while src.len() > 0
        invariant
            out@.to_multiset().add(src@.to_multiset()) == input@.to_multiset(),
            sorted_by(out@, u64_leq()),
            forall|a: int, b: int|
                0 <= a < out@.len() && 0 <= b < src@.len() ==> out@[a] <= src@[b],
        decreases src.len(),
    {
        let mut mi: usize = 0;
        let mut k: usize = 1;
        while k < src.len()
            invariant
                0 <= mi < src@.len(),
                1 <= k <= src@.len(),
                forall|t: int| 0 <= t < k ==> src@[mi as int] <= src@[t],
            decreases src@.len() - k,
        {
            if src[k] < src[mi] {
                mi = k;
            }
            k = k + 1;
        }
        let ghost old_src = src@;
        let ghost old_out = out@;
        let x = src.remove(mi);
        out.push(x);
        proof {
            assert(out@.to_multiset() =~= old_out.to_multiset().insert(x));
            assert(src@.to_multiset() =~= old_src.to_multiset().remove(x));
            assert(old_src.to_multiset().count(x) > 0) by {
                assert(old_src[mi as int] == x);
                assert(old_src.contains(x));
            }
            assert(out@.to_multiset().add(src@.to_multiset()) =~= input@.to_multiset());
            assert forall|a: int, b: int|
                0 <= a < out@.len() && 0 <= b < src@.len() implies out@[a] <= src@[b] by {
                let bi = if b < mi {
                    b
                } else {
                    b + 1
                };
                assert(src@[b] == old_src[bi]);
                assert(x <= old_src[bi]);
            }
            assert forall|a: int, b: int| 0 <= a < b < out@.len() implies #[trigger] u64_leq()(
                out@[a],
                out@[b],
            ) by {
                if b < out@.len() - 1 {
                    assert(u64_leq()(old_out[a], old_out[b]));
                } else {
                    assert(out@[a] == old_out[a]);
                    assert(old_out[a] <= x);
                }
            }
            assert(sorted_by(out@, u64_leq()));
        }
    }
    proof {
        assert(src@.to_multiset() =~= Multiset::<u64>::empty());
        assert(out@.to_multiset() =~= input@.to_multiset());
        assert(total_ordering(leq)) by {
            assert(forall|a: u64| #[trigger] leq(a, a));
            assert(forall|a: u64, b: u64, c: u64|
                #[trigger] leq(a, b) && #[trigger] leq(b, c) ==> leq(a, c));
            assert(forall|a: u64, b: u64| #[trigger] leq(a, b) && #[trigger] leq(b, a) ==> a == b);
            assert(forall|a: u64, b: u64| #[trigger] leq(a, b) || #[trigger] leq(b, a));
        }
        input@.lemma_sort_by_ensures(leq);
        lemma_sorted_unique(out@, input@.sort_by(leq), leq);
        assert(out@ =~= sorted_of(input@));
        assert(out@.to_multiset().len() == input@.to_multiset().len());
    }
    out
}

} // verus!
