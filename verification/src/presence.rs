//! Counting the observations that are present in a sequence with gaps, and
//! the warm-up mask that this count drives.

use vstd::prelude::*;

verus! {

/// Number of present entries among the first `n` entries of `xs`.
pub open spec fn present_count<T>(xs: Seq<Option<T>>, n: int) -> nat
    recommends
        0 <= n <= xs.len(),
    decreases n,
{
    if n <= 0 {
        0
    } else if xs[n - 1].is_some() {
        present_count(xs, n - 1) + 1
    } else {
        present_count(xs, n - 1)
    }
}

/// Position `i` is still in the warm-up: fewer than `min_periods` entries
/// are present among `xs[0..=i]`.
pub open spec fn masked<T>(xs: Seq<Option<T>>, min_periods: nat, i: int) -> bool {
    present_count(xs, i + 1) < min_periods
}

/// No entry of `xs` is absent.
pub open spec fn all_present<T>(xs: Seq<Option<T>>) -> bool {
    forall|i: int| 0 <= i < xs.len() ==> (#[trigger] xs[i]).is_some()
}

/// A prefix of length `n` holds at most `n` present entries.
pub proof fn lemma_present_count_at_most<T>(xs: Seq<Option<T>>, n: int)
    requires
        0 <= n,
    ensures
        present_count(xs, n) <= n,
    decreases n,
{
    if n > 0 {
        lemma_present_count_at_most(xs, n - 1);
    }
}

/// The count of present entries never goes down as the prefix grows.
pub proof fn lemma_present_count_monotone<T>(xs: Seq<Option<T>>, m: int, n: int)
    requires
        m <= n,
    ensures
        present_count(xs, m) <= present_count(xs, n),
    decreases n - m,
{
    if m < n {
        lemma_present_count_monotone(xs, m, n - 1);
    }
}

/// Where nothing is absent, every entry of a prefix counts.
pub proof fn lemma_present_count_without_gaps<T>(xs: Seq<Option<T>>, n: int)
    requires
        all_present(xs),
        0 <= n <= xs.len(),
    ensures
        present_count(xs, n) == n,
    decreases n,
{
    if n > 0 {
        lemma_present_count_without_gaps(xs, n - 1);
    }
}

/// The warm-up is a prefix: once position `i` is past it, so is every later
/// position, whatever the later entries are.
pub proof fn lemma_masking_never_returns<T>(xs: Seq<Option<T>>, min_periods: nat, i: int, j: int)
    requires
        i <= j,
        !masked(xs, min_periods, i),
    ensures
        !masked(xs, min_periods, j),
{
    lemma_present_count_monotone(xs, i + 1, j + 1);
}

/// Every position before the warm-up ends is itself in the warm-up.
pub proof fn lemma_masking_is_a_prefix<T>(xs: Seq<Option<T>>, min_periods: nat, i: int, j: int)
    requires
        i <= j,
        masked(xs, min_periods, j),
    ensures
        masked(xs, min_periods, i),
{
    lemma_present_count_monotone(xs, i + 1, j + 1);
}

/// A threshold above the length of the sequence keeps every position in the
/// warm-up.
pub proof fn lemma_threshold_beyond_length<T>(xs: Seq<Option<T>>, min_periods: nat, i: int)
    requires
        0 <= i < xs.len(),
        min_periods > xs.len(),
    ensures
        masked(xs, min_periods, i),
{
    lemma_present_count_at_most(xs, i + 1);
}

} // verus!
