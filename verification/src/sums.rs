//! Sums of an integer weight over every 32-bit key, and how such a sum moves
//! when the weight changes at a single key.

use vstd::prelude::*;

verus! {

/// Number of distinct 32-bit keys.
pub const KEY_SPACE: u64 = 0x1_0000_0000;

/// The sum of `f(0) + f(1) + .. + f(n - 1)`.
pub open spec fn sum_upto(f: spec_fn(u32) -> int, n: nat) -> int
    decreases n,
{
    if n == 0 {
        0
    } else {
        sum_upto(f, (n - 1) as nat) + f((n - 1) as u32)
    }
}

/// The sum of `f` over the whole key space.
pub open spec fn sum_all(f: spec_fn(u32) -> int) -> int {
    sum_upto(f, KEY_SPACE as nat)
}

/// Two weights that agree everywhere but at `j` have sums that differ by
/// their difference at `j`, once the sum reaches `j`.
pub proof fn lemma_sum_upto_differs_at(
    f: spec_fn(u32) -> int,
    g: spec_fn(u32) -> int,
    j: u32,
    n: nat,
)
    requires
        n <= KEY_SPACE,
        forall|k: u32| k != j ==> #[trigger] f(k) == g(k),
    ensures
        sum_upto(g, n) == sum_upto(f, n) + (if j < n {
            g(j) - f(j)
        } else {
            0
        }),
    decreases n,
{
    if n > 0 {
        lemma_sum_upto_differs_at(f, g, j, (n - 1) as nat);
    }
}

/// A weight that stays within `[lo, hi]` has a sum within `[n * lo, n * hi]`.
pub proof fn lemma_sum_upto_bounds(f: spec_fn(u32) -> int, lo: int, hi: int, n: nat)
    requires
        forall|k: u32| lo <= #[trigger] f(k) <= hi,
    ensures
        n * lo <= sum_upto(f, n) <= n * hi,
    decreases n,
{
    if n > 0 {
        let m = (n - 1) as nat;
        lemma_sum_upto_bounds(f, lo, hi, m);
        assert(m * lo + lo == n * lo && m * hi + hi == n * hi) by (nonlinear_arith)
            requires
                m + 1 == n,
        ;
    } else {
        assert(n * lo == 0 && n * hi == 0) by (nonlinear_arith)
            requires
                n == 0,
        ;
    }
}

/// Over the whole key space: the two sums differ by the difference at `j`.
pub proof fn lemma_sum_all_differs_at(f: spec_fn(u32) -> int, g: spec_fn(u32) -> int, j: u32)
    requires
        forall|k: u32| k != j ==> #[trigger] f(k) == g(k),
    ensures
        sum_all(g) == sum_all(f) + g(j) - f(j),
{
    lemma_sum_upto_differs_at(f, g, j, KEY_SPACE as nat);
}

/// Over the whole key space: the sum lies within `KEY_SPACE` times the bounds.
pub proof fn lemma_sum_all_bounds(f: spec_fn(u32) -> int, lo: int, hi: int)
    requires
        forall|k: u32| lo <= #[trigger] f(k) <= hi,
    ensures
        KEY_SPACE * lo <= sum_all(f) <= KEY_SPACE * hi,
{
    lemma_sum_upto_bounds(f, lo, hi, KEY_SPACE as nat);
}

} // verus!
