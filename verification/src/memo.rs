//! The value-returning memoizer: a cell holding at most one cached
//! `(dependency, value)` pair, whose accessors hand the cached value back by
//! cloning it.
//!
//! The cell itself is the caller's persistent storage slot: the caller keeps
//! one `MemoCell` per computation it wants memoized and passes it to every
//! invocation, exclusively borrowed for the invocation's duration.

use vstd::pervasive::cloned;
use vstd::prelude::*;
use vstd::std_specs::cmp::PartialEqSpec;

use crate::model::cache_step;
use crate::model::needs_recompute;
use crate::model::prev_value;

verus! {

struct Memoized<T, D> {
    value: T,
    deps: D,
}

/// A memoization cell: created empty, and from the first invocation on always
/// holding exactly one cached pair, replaced wholesale whenever the supplied
/// dependency is not equal to the stored one.
pub struct MemoCell<T, D> {
    memo: Option<Memoized<T, D>>,
    recomputes: Ghost<nat>,
}

impl<T, D> MemoCell<T, D> {
    /// The cell's model: the cached `(dependency, value)` pair, if any.
    pub closed spec fn cached(self) -> Option<(D, T)> {
        match self.memo {
            Option::None => Option::None,
            Option::Some(m) => Option::Some((m.deps, m.value)),
        }
    }

    /// How many times an initializer has run on this cell.
    pub closed spec fn recompute_count(self) -> nat {
        self.recomputes@
    }

    /// Whether the cell currently holds a cached pair.
    pub open spec fn is_cached(self) -> bool {
        self.cached() is Some
    }

    /// The cached dependency snapshot.
    pub open spec fn deps(self) -> D
        recommends
            self.is_cached(),
    {
        (self.cached()->0).0
    }

    /// The cached value.
    pub open spec fn value(self) -> T
        recommends
            self.is_cached(),
    {
        (self.cached()->0).1
    }

    /// Creates an empty cell: nothing cached, no initializer run yet.
    pub fn new() -> (cell: MemoCell<T, D>)
        ensures
            !cell.is_cached(),
            cell.recompute_count() == 0,
    {
        MemoCell { memo: Option::None, recomputes: Ghost(0) }
    }

    /// Borrows the cached value without touching the cell.
    pub fn borrow_value(&self) -> (value: &T)
        requires
            self.is_cached(),
        ensures
            *value == self.value(),
    {
        &self.memo.as_ref().unwrap().value
    }
}

impl<T, D: PartialEq> MemoCell<T, D> {
    /// One memoizing invocation. If the cell is empty, or the stored dependency
    /// is not equal to `deps`, the previous value (if any) is taken out of the
    /// cell and handed to `f`, and the pair `(deps, f's result)` is stored;
    /// otherwise the cell is left entirely untouched and `f` is never run. The
    /// result says whether `f` ran.
    pub fn compute_with_prev<F: FnOnce(Option<T>) -> T>(&mut self, deps: D, f: F) -> (recomputed:
        bool)
        requires
            D::obeys_eq_spec(),
            !old(self).is_cached() ==> call_requires(f, (Option::None::<T>,)),
            old(self).is_cached() && !old(self).deps().eq_spec(&deps) ==> call_requires(
                f,
                (Option::Some(old(self).value()),),
            ),
        ensures
            cache_step(
                old(self).cached(),
                old(self).recompute_count(),
                deps,
                final(self).cached(),
                final(self).recompute_count(),
                recomputed,
            ),
            recomputed ==> call_ensures(f, (prev_value(old(self).cached()),), final(self).value()),
    {
        let deps_unchanged = match &self.memo {
            Option::Some(m) => m.deps == deps,
            Option::None => false,
        };
        if deps_unchanged {
            return false;
        }
        let prev = match self.memo.take() {
            Option::Some(m) => Option::Some(m.value),
            Option::None => Option::None,
        };
        let value = f(prev);
        self.memo = Option::Some(Memoized { value, deps });
        self.recomputes = Ghost(self.recomputes@ + 1);
        true
    }
}

/// Memoized computation: returns the cached value, recomputing it through
/// `f` — which receives the previous value, or nothing on the first call —
/// only when `deps` is not equal to the dependency cached in `cell`.
pub fn use_computed_with_prev<T: Clone, D: PartialEq, F: FnOnce(Option<T>) -> T>(
    cell: &mut MemoCell<T, D>,
    deps: D,
    f: F,
) -> (value: T)
    requires
        D::obeys_eq_spec(),
        !old(cell).is_cached() ==> call_requires(f, (Option::None::<T>,)),
        old(cell).is_cached() && !old(cell).deps().eq_spec(&deps) ==> call_requires(
            f,
            (Option::Some(old(cell).value()),),
        ),
    ensures
        cache_step(
            old(cell).cached(),
            old(cell).recompute_count(),
            deps,
            final(cell).cached(),
            final(cell).recompute_count(),
            needs_recompute(old(cell).cached(), deps),
        ),
        needs_recompute(old(cell).cached(), deps) ==> call_ensures(
            f,
            (prev_value(old(cell).cached()),),
            final(cell).value(),
        ),
        cloned(final(cell).value(), value),
{
    cell.compute_with_prev(deps, f);
    cell.borrow_value().clone()
}

/// Memoized computation without access to the previous value: returns the
/// cached value, recomputing it through `init` only when `deps` is not equal
/// to the dependency cached in `cell`.
pub fn use_computed<T: Clone, D: PartialEq, F: FnOnce() -> T>(
    cell: &mut MemoCell<T, D>,
    deps: D,
    init: F,
) -> (value: T)
    requires
        D::obeys_eq_spec(),
        needs_recompute(old(cell).cached(), deps) ==> call_requires(init, ()),
    ensures
        cache_step(
            old(cell).cached(),
            old(cell).recompute_count(),
            deps,
            final(cell).cached(),
            final(cell).recompute_count(),
            needs_recompute(old(cell).cached(), deps),
        ),
        needs_recompute(old(cell).cached(), deps) ==> call_ensures(init, (), final(cell).value()),
        cloned(final(cell).value(), value),
{
    let ignore_prev = |_prev: Option<T>| -> (r: T)
        requires
            call_requires(init, ()),
        ensures
            call_ensures(init, (), r),
        { init() };
    use_computed_with_prev(cell, deps, ignore_prev)
}

} // verus!
