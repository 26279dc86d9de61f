//! The guarantees of the guard, stated over the abstract registry and proved
//! once and for all.
//!
//! Hits for one call site are serialized by the shared registry's lock, so
//! any run — concurrent or not — records the hits of a call site in some
//! order, one at a time. The laws below therefore speak of the registry
//! after `k` serialized hits of a call site.

use vstd::prelude::*;

use crate::registry::{bump, count_in, one_hit};
use crate::within_limit;

verus! {

/// Whether the next hit for `key` would still be allowed under `limit`,
/// given the hits recorded so far.
pub open spec fn hit_passes(hits: Map<Seq<usize>, nat>, key: Seq<usize>, limit: nat) -> bool {
    within_limit(bump(count_in(hits, key)), limit)
}

/// The registry after `k` serialized hits for the call site `key`, starting
/// from a registry that has seen nothing.
pub open spec fn hits_from_empty(key: Seq<usize>, k: nat) -> Map<Seq<usize>, nat>
    decreases k,
{
    if k == 0 {
        Map::empty()
    } else {
        one_hit(hits_from_empty(key, (k - 1) as nat), key)
    }
}

/// After `k` serialized hits for a call site, the registry holds exactly the
/// count `k` for it: no hit is lost and none is counted twice.
pub proof fn lemma_count_after_hits(key: Seq<usize>, k: nat)
    requires
        k <= usize::MAX,
    ensures
        count_in(hits_from_empty(key, k), key) == k,
    decreases k,
{
    if k > 0 {
        lemma_count_after_hits(key, (k - 1) as nat);
    }
}

/// Serialized hits for one call site observe consecutive counts, with no
/// duplicate and no gap: the `i`-th recorded hit is handed back exactly the
/// count `i`.
pub proof fn lemma_counts_are_consecutive(key: Seq<usize>, i: nat)
    requires
        1 <= i <= usize::MAX,
    ensures
        bump(count_in(hits_from_empty(key, (i - 1) as nat), key)) == i,
{
    lemma_count_after_hits(key, (i - 1) as nat);
}

/// Calling `at_most(n)` up to `n` times in sequence from one call site never
/// fails: each of the first `n` hits for the site is still within the limit
/// when it is recorded.
pub proof fn lemma_within_limit_never_fails(key: Seq<usize>, n: nat, k: nat)
    requires
        n <= usize::MAX,
        k < n,
    ensures
        hit_passes(hits_from_empty(key, k), key, n),
{
    lemma_count_after_hits(key, k);
}

/// The `(n + 1)`-th call to `at_most(n)` from one call site fails: after `n`
/// recorded hits, the next hit for the site is over the limit.
pub proof fn lemma_next_call_fails(key: Seq<usize>, n: nat)
    requires
        n < usize::MAX,
    ensures
        !hit_passes(hits_from_empty(key, n), key, n),
{
    lemma_count_after_hits(key, n);
}

/// Distinct call sites keep independent counters: a hit for one call site
/// leaves another site's count, and with it that site's remaining budget,
/// exactly as it was.
pub proof fn lemma_call_sites_independent(
    hits: Map<Seq<usize>, nat>,
    key: Seq<usize>,
    other: Seq<usize>,
    limit: nat,
)
    requires
        key != other,
    ensures
        count_in(one_hit(hits, other), key) == count_in(hits, key),
        hit_passes(one_hit(hits, other), key, limit) == hit_passes(hits, key, limit),
{
}

/// A call site hit again and again — as inside a loop — accumulates its
/// count across the hits: every hit raises the stored count by one, and
/// nothing ever resets it.
pub proof fn lemma_hits_accumulate(hits: Map<Seq<usize>, nat>, key: Seq<usize>)
    requires
        count_in(hits, key) < usize::MAX,
    ensures
        count_in(one_hit(hits, key), key) == count_in(hits, key) + 1,
{
}

/// How many of the first `k` serialized hits for `key` pass under `limit`.
pub open spec fn successes(key: Seq<usize>, k: nat, limit: nat) -> nat
    decreases k,
{
    if k == 0 {
        0
    } else {
        successes(key, (k - 1) as nat, limit) + (if hit_passes(
            hits_from_empty(key, (k - 1) as nat),
            key,
            limit,
        ) {
            1nat
        } else {
            0nat
        })
    }
}

/// As long as a call site stays within its limit, every hit passes: the
/// first `k` hits all succeed when `k` is at most the limit.
pub proof fn lemma_all_pass_up_to_limit(key: Seq<usize>, k: nat, limit: nat)
    requires
        k <= limit,
        k <= usize::MAX,
    ensures
        successes(key, k, limit) == k,
    decreases k,
{
    if k > 0 {
        lemma_all_pass_up_to_limit(key, (k - 1) as nat, limit);
        lemma_count_after_hits(key, (k - 1) as nat);
    }
}

/// When `k` threads hit one call site concurrently and `k` exceeds the
/// limit, exactly `limit` of the calls succeed and exactly `k - limit` fail,
/// whatever the interleaving: the lock serializes the hits, so the `i`-th
/// recorded hit observes the count `i` and passes exactly when `i` is within
/// the limit.
pub proof fn lemma_exact_successes(key: Seq<usize>, k: nat, limit: nat)
    requires
        limit < k,
        k <= usize::MAX,
    ensures
        successes(key, k, limit) == limit,
        k - successes(key, k, limit) == k - limit,
    decreases k,
{
    lemma_count_after_hits(key, (k - 1) as nat);
    if k - 1 == limit {
        lemma_all_pass_up_to_limit(key, (k - 1) as nat, limit);
    } else {
        lemma_exact_successes(key, (k - 1) as nat, limit);
    }
}

} // verus!
