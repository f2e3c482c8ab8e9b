//! The mathematical model shared by both memoizer variants.
//!
//! A memoizer's externally visible state is `Option<(D, T)>`: nothing cached
//! yet, or exactly one pair of a dependency snapshot and the value computed
//! from it, together with a count of how many times an initializer has run.
//! One invocation is a [`cache_step`]; a sequence of invocations is a
//! [`cache_run`]. The laws at the bottom hold of every run, whichever variant
//! produced it.

use vstd::prelude::*;
use vstd::std_specs::cmp::PartialEqSpec;

verus! {

/// Whether an invocation that supplies `deps` must run the initializer: it
/// must when nothing is cached, or when the cached dependency does not equal
/// the supplied one under `D`'s own equality.
pub open spec fn needs_recompute<T, D: PartialEq>(cached: Option<(D, T)>, deps: D) -> bool {
    match cached {
        Option::None => true,
        Option::Some(pair) => !pair.0.eq_spec(&deps),
    }
}

/// The previous value an invocation hands to the initializer when it recomputes:
/// the cached value, or nothing on the first call.
pub open spec fn prev_value<T, D>(cached: Option<(D, T)>) -> Option<T> {
    match cached {
        Option::None => Option::None,
        Option::Some(pair) => Option::Some(pair.1),
    }
}

/// What one invocation does to a memoizer, seen through its model. `pre` and
/// `post` are the cached pair before and after, `pre_count` and `post_count`
/// the number of initializer runs before and after, and `recomputed` says
/// whether this invocation ran the initializer.
///
/// The value stored by a recomputation is not constrained here: it is whatever
/// the initializer returned, and each variant's own contract ties it to the
/// initializer's postcondition.
pub open spec fn cache_step<T, D: PartialEq>(
    pre: Option<(D, T)>,
    pre_count: nat,
    deps: D,
    post: Option<(D, T)>,
    post_count: nat,
    recomputed: bool,
) -> bool {
    &&& recomputed == needs_recompute(pre, deps)
    &&& post is Some
    &&& (recomputed ==> (post->0).0 == deps && post_count == pre_count + 1)
    &&& (!recomputed ==> post == pre && post_count == pre_count)
}

/// Invocation `i` of a run: it turns state `i` into state `i + 1`, supplying
/// `deps_seq[i]` and recomputing exactly when `flags[i]`.
pub open spec fn run_step_at<T, D: PartialEq>(
    states: Seq<Option<(D, T)>>,
    counts: Seq<nat>,
    deps_seq: Seq<D>,
    flags: Seq<bool>,
    i: int,
) -> bool {
    cache_step(states[i], counts[i], deps_seq[i], states[i + 1], counts[i + 1], flags[i])
}

/// A sequence of invocations: `states` and `counts` have one entry more than
/// `deps_seq` and `flags`, and each invocation steps from one state to the next.
pub open spec fn cache_run<T, D: PartialEq>(
    states: Seq<Option<(D, T)>>,
    counts: Seq<nat>,
    deps_seq: Seq<D>,
    flags: Seq<bool>,
) -> bool {
    &&& states.len() == deps_seq.len() + 1
    &&& counts.len() == states.len()
    &&& flags.len() == deps_seq.len()
    &&& forall|i: int|
        0 <= i < deps_seq.len() ==> #[trigger] run_step_at(states, counts, deps_seq, flags, i)
}

/// Law: the first invocation of a memoizer always recomputes, and hands the
/// initializer no previous value.
pub proof fn lemma_first_call_recomputes<T, D: PartialEq>(
    pre: Option<(D, T)>,
    pre_count: nat,
    deps: D,
    post: Option<(D, T)>,
    post_count: nat,
    recomputed: bool,
)
    requires
        pre is None,
        cache_step(pre, pre_count, deps, post, post_count, recomputed),
    ensures
        recomputed,
        prev_value(pre) is None,
{
}

/// Helper for [`lemma_stable_deps_recompute_once`]: in a run that starts empty
/// and whose dependencies all equal the first one, every state from the second
/// on is the state the first invocation produced.
proof fn lemma_stable_deps_state_fixed<T, D: PartialEq>(
    states: Seq<Option<(D, T)>>,
    counts: Seq<nat>,
    deps_seq: Seq<D>,
    flags: Seq<bool>,
    i: int,
)
    requires
        cache_run(states, counts, deps_seq, flags),
        deps_seq.len() >= 1,
        states[0] is None,
        forall|k: int| 0 <= k < deps_seq.len() ==> #[trigger] deps_seq[0].eq_spec(&deps_seq[k]),
        1 <= i <= deps_seq.len(),
    ensures
        states[i] == states[1],
        counts[i] == counts[1],
        states[i] matches Option::Some(pair) && pair.0 == deps_seq[0],
    decreases i,
{
    assert(run_step_at(states, counts, deps_seq, flags, 0));
    if i > 1 {
        lemma_stable_deps_state_fixed(states, counts, deps_seq, flags, i - 1);
        assert(run_step_at(states, counts, deps_seq, flags, i - 1));
        assert(!needs_recompute(states[i - 1], deps_seq[i - 1]));
    }
}

/// Law: across a run that starts with nothing cached and whose dependency
/// never changes (every supplied dependency equals the first one under `D`'s
/// equality), the initializer runs exactly once, on the first invocation, and
/// the value it produced then is still the cached value at the end.
pub proof fn lemma_stable_deps_recompute_once<T, D: PartialEq>(
    states: Seq<Option<(D, T)>>,
    counts: Seq<nat>,
    deps_seq: Seq<D>,
    flags: Seq<bool>,
)
    requires
        cache_run(states, counts, deps_seq, flags),
        deps_seq.len() >= 1,
        states[0] is None,
        forall|k: int| 0 <= k < deps_seq.len() ==> #[trigger] deps_seq[0].eq_spec(&deps_seq[k]),
    ensures
        flags[0],
        forall|k: int| 1 <= k < flags.len() ==> !flags[k],
        counts.last() == counts[0] + 1,
        states.last() == states[1],
{
    assert(run_step_at(states, counts, deps_seq, flags, 0));
    assert forall|k: int| 1 <= k < flags.len() implies !flags[k] by {
        lemma_stable_deps_state_fixed(states, counts, deps_seq, flags, k);
        assert(run_step_at(states, counts, deps_seq, flags, k));
    }
    lemma_stable_deps_state_fixed(states, counts, deps_seq, flags, deps_seq.len() as int);
    assert(counts.last() == counts[1]);
}

/// Law: once the invocation at index `j` has recomputed, and no invocation
/// after it up to index `n` recomputes, the state reached by invocation `n - 1`
/// still caches exactly what invocation `j` stored. An invocation at index `n`
/// that recomputes is therefore handed the value produced by the most recent
/// recomputation as its previous value.
pub proof fn lemma_prev_is_last_recomputed<T, D: PartialEq>(
    states: Seq<Option<(D, T)>>,
    counts: Seq<nat>,
    deps_seq: Seq<D>,
    flags: Seq<bool>,
    j: int,
    n: int,
)
    requires
        cache_run(states, counts, deps_seq, flags),
        0 <= j < n <= deps_seq.len(),
        flags[j],
        forall|k: int| j < k < n ==> !(#[trigger] flags[k]),
    ensures
        states[n] == states[j + 1],
        counts[n] == counts[j + 1],
        prev_value(states[n]) == Option::Some((states[j + 1]->0).1),
    decreases n - j,
{
    assert(run_step_at(states, counts, deps_seq, flags, j));
    if n > j + 1 {
        assert(run_step_at(states, counts, deps_seq, flags, n - 1));
        lemma_prev_is_last_recomputed(states, counts, deps_seq, flags, j, n - 1);
    }
}

} // verus!
