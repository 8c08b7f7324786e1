//! Division of the 64-bit seed space among parallel workers.
use vstd::prelude::*;
use vstd::arithmetic::div_mod::{
    lemma_mod_multiples_vanish, lemma_small_mod, lemma_sub_mod_noop,
};

verus! {

/// The number of distinct seeds, `2^64`.
pub open spec fn seed_space() -> int {
    0x1_0000_0000_0000_0000
}

/// The distance between the starting seeds of two neighbouring workers out of
/// `threads`: `floor(2^64 / threads)`.
pub open spec fn stride(threads: int) -> int {
    seed_space() / threads
}

/// The starting seed of worker `index` out of `threads`, shifted by the
/// process-wide `offset` and wrapped into 64 bits.
pub open spec fn start_seed_spec(threads: int, index: int, offset: int) -> int {
    (stride(threads) * index + offset) % seed_space()
}

/// Starting seed of worker `index` when `threads` workers share one random
/// `offset`: `floor(2^64 / threads) * index + offset`, wrapping on overflow.
pub fn start_seed(threads: u64, index: u64, offset: u64) -> (r: u64)
    requires
        threads >= 1,
        index < threads,
    ensures
        r as int == start_seed_spec(threads as int, index as int, offset as int),
{
    if threads == 1 {
        assert(stride(1) * 0 == 0);
        return offset;
    }
    let q: u64 = u64::MAX / threads;
    let rem: u64 = u64::MAX % threads;
    proof {
        let m = u64::MAX as int;
        let t = threads as int;
        assert(m == q * t + rem) by (nonlinear_arith)
            requires q == m / t, rem == m % t, t > 0;
        assert(0 <= rem < t) by (nonlinear_arith)
            requires rem == m % t, t > 0;
        assert(q * 2 <= m) by (nonlinear_arith)
            requires q == m / t, t >= 2, m >= 0;
    }
    let step: u64 = if rem == threads - 1 { q + 1 } else { q };
    proof {
        let m = u64::MAX as int;
        let t = threads as int;
        if rem == threads - 1 {
            assert(m + 1 == (q + 1) * t) by (nonlinear_arith)
                requires m == q * t + rem, rem == t - 1;
            assert((m + 1) / t == q + 1) by (nonlinear_arith)
                requires m + 1 == (q + 1) * t, t > 0;
        } else {
            assert(m + 1 == q * t + (rem + 1));
            assert((m + 1) / t == q) by (nonlinear_arith)
                requires m + 1 == q * t + (rem + 1), 0 < rem + 1 < t;
        }
        assert(step as int == stride(t));
        assert(step as int * index <= step as int * (t - 1)) by (nonlinear_arith)
            requires index < t, step >= 0;
        assert(step as int * t <= m + 1) by (nonlinear_arith)
            requires step as int == (m + 1) / t, t > 0;
        assert(step >= 1) by (nonlinear_arith)
            requires step as int == (m + 1) / t, 0 < t <= m;
        assert(step as int * (t - 1) <= m) by (nonlinear_arith)
            requires step as int * t <= m + 1, step >= 1;
    }
    let base: u64 = step * index;
    base.wrapping_add(offset)
}

/// For `i < j`, the forward distance from worker `i`'s start to worker `j`'s
/// start is `(j - i) * stride`, which lies in `[stride, 2^64 - stride]`.
proof fn lemma_forward_distance(threads: int, i: int, j: int, offset: int)
    requires
        1 <= threads < seed_space(),
        0 <= i < j < threads,
    ensures
        (start_seed_spec(threads, j, offset) - start_seed_spec(threads, i, offset)) % seed_space()
            == (j - i) * stride(threads),
        (start_seed_spec(threads, i, offset) - start_seed_spec(threads, j, offset)) % seed_space()
            == seed_space() - (j - i) * stride(threads),
        stride(threads) <= (j - i) * stride(threads) <= seed_space() - stride(threads),
{
    let n = seed_space();
    let s = stride(threads);
    let k = j - i;
    let xi = s * i + offset;
    let xj = s * j + offset;
    assert(s * threads <= n) by (nonlinear_arith)
        requires s == n / threads, threads > 0, n > 0;
    assert(s >= 1) by (nonlinear_arith)
        requires s == n / threads, 0 < threads < n;
    assert(s <= k * s <= s * (threads - 1)) by (nonlinear_arith)
        requires 1 <= k <= threads - 1, s >= 1;
    assert(s * (threads - 1) == s * threads - s) by (nonlinear_arith);
    assert(xj - xi == k * s) by (nonlinear_arith)
        requires xj == s * j + offset, xi == s * i + offset, k == j - i;
    lemma_sub_mod_noop(xj, xi, n);
    lemma_sub_mod_noop(xi, xj, n);
    lemma_small_mod((k * s) as nat, n as nat);
    lemma_mod_multiples_vanish(1, -(k * s), n);
    lemma_small_mod((n - k * s) as nat, n as nat);
}

/// Starting seeds of two different workers out of `threads` lie at least
/// `floor(2^64 / threads)` apart in both directions around the 64-bit ring,
/// whatever the shared offset.
pub proof fn lemma_partition_disjoint(threads: u64, i: u64, j: u64, offset: u64)
    requires
        threads >= 1,
        i < threads,
        j < threads,
        i != j,
    ensures
        ({
            let (t, o) = (threads as int, offset as int);
            &&& (start_seed_spec(t, j as int, o) - start_seed_spec(t, i as int, o)) % seed_space()
                >= stride(t)
            &&& (start_seed_spec(t, i as int, o) - start_seed_spec(t, j as int, o)) % seed_space()
                >= stride(t)
        }),
{
    if i < j {
        lemma_forward_distance(threads as int, i as int, j as int, offset as int);
    } else {
        lemma_forward_distance(threads as int, j as int, i as int, offset as int);
    }
}

} // verus!
