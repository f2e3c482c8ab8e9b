//! The signal-exposing memoizer: the same memoization contract as
//! [`crate::memo`], but the cached value lives in an observable cell that a
//! reader can peek at after any number of invocations.
//!
//! [`ObservableCell`] models the host framework's reactive storage location:
//! it carries, besides its value, a ghost count of committed writes — the
//! events a subscribed observer is notified of. A `ComputedSignal` keeps two
//! such cells, one for the last-seen dependency and one for the computed
//! value, and commits exactly one write to each per dependency change and none
//! otherwise.

use vstd::prelude::*;
use vstd::std_specs::cmp::PartialEqSpec;

use crate::model::cache_step;
use crate::model::needs_recompute;
use crate::model::prev_value;

verus! {

/// A storage location whose committed writes are observable. Reading it never
/// changes it: `peek` takes the cell by shared reference, so no use of `peek`
/// can move its write count.
pub struct ObservableCell<T> {
    value: T,
    writes: Ghost<nat>,
}

impl<T> ObservableCell<T> {
    /// The value currently stored.
    pub closed spec fn value(self) -> T {
        self.value
    }

    /// How many writes have been committed since the cell was created; an
    /// observer subscribed to the cell is notified exactly when this grows.
    pub closed spec fn write_count(self) -> nat {
        self.writes@
    }

    /// Creates a cell holding `value`; creation is not a write.
    pub fn new(value: T) -> (cell: ObservableCell<T>)
        ensures
            cell.value() == value,
            cell.write_count() == 0,
    {
        ObservableCell { value, writes: Ghost(0) }
    }

    /// Reads the current value without subscribing to the cell.
    pub fn peek(&self) -> (value: &T)
        ensures
            *value == self.value(),
    {
        &self.value
    }
}

/// The memoizer whose cached value is exposed observably: empty until its
/// first invocation, which creates both cells; afterwards the dependency cell
/// always holds the last dependency that caused a recomputation, and the value
/// cell the value computed from it.
pub struct ComputedSignal<T, D> {
    cells: Option<Cells<T, D>>,
    recomputes: Ghost<nat>,
}

struct Cells<T, D> {
    deps_cell: ObservableCell<D>,
    value_cell: ObservableCell<T>,
}

impl<T, D> ComputedSignal<T, D> {
    /// The memoizer's model: the cached `(dependency, value)` pair, if any.
    pub closed spec fn cached(self) -> Option<(D, T)> {
        match self.cells {
            Option::None => Option::None,
            Option::Some(c) => Option::Some((c.deps_cell.value(), c.value_cell.value())),
        }
    }

    /// How many times an initializer has run on this memoizer.
    pub closed spec fn recompute_count(self) -> nat {
        self.recomputes@
    }

    /// Writes committed to the dependency cell since it was created.
    pub closed spec fn deps_write_count(self) -> nat
        recommends
            self.is_initialized(),
    {
        self.cells->0.deps_cell.write_count()
    }

    /// Writes committed to the value cell since it was created.
    pub closed spec fn value_write_count(self) -> nat
        recommends
            self.is_initialized(),
    {
        self.cells->0.value_cell.write_count()
    }

    /// Whether the first invocation has happened and the cells exist.
    pub open spec fn is_initialized(self) -> bool {
        self.cached() is Some
    }

    /// The dependency stored by the most recent recomputation.
    pub open spec fn deps(self) -> D
        recommends
            self.is_initialized(),
    {
        (self.cached()->0).0
    }

    /// The value stored by the most recent recomputation.
    pub open spec fn value(self) -> T
        recommends
            self.is_initialized(),
    {
        (self.cached()->0).1
    }

    /// Creates a memoizer whose cells do not exist yet.
    pub fn new() -> (signal: ComputedSignal<T, D>)
        ensures
            !signal.is_initialized(),
            signal.recompute_count() == 0,
    {
        ComputedSignal { cells: Option::None, recomputes: Ghost(0) }
    }

    /// The read-only handle to the value cell: reading through it observes
    /// every value a recomputation stores, and nothing else writes to it.
    pub fn value_cell(&self) -> (cell: &ObservableCell<T>)
        requires
            self.is_initialized(),
        ensures
            cell.value() == self.value(),
            cell.write_count() == self.value_write_count(),
    {
        &self.cells.as_ref().unwrap().value_cell
    }

    /// Reads the computed value without subscribing.
    pub fn peek_value(&self) -> (value: &T)
        requires
            self.is_initialized(),
        ensures
            *value == self.value(),
    {
        self.cells.as_ref().unwrap().value_cell.peek()
    }

    /// Reads the dependency cell without subscribing: no observer of either
    /// cell is notified by this, since it cannot commit a write.
    pub fn peek_deps(&self) -> (deps: &D)
        requires
            self.is_initialized(),
        ensures
            *deps == self.deps(),
    {
        self.cells.as_ref().unwrap().deps_cell.peek()
    }
}

impl<T, D: PartialEq> ComputedSignal<T, D> {
    /// One memoizing invocation. On the first call both cells are created, the
    /// dependency cell from `deps` and the value cell from `f`'s result. On a
    /// later call whose `deps` is not equal to the peeked stored dependency, a
    /// write transaction hands the current value to `f`, stores the returned
    /// value, and updates the dependency cell: exactly one write to each cell.
    /// Otherwise nothing at all is written and `f` is never run. The result
    /// says whether `f` ran.
    pub fn compute_with_prev<F: FnOnce(Option<T>) -> T>(&mut self, deps: D, f: F) -> (recomputed:
        bool)
        requires
            D::obeys_eq_spec(),
            !old(self).is_initialized() ==> call_requires(f, (Option::None::<T>,)),
            old(self).is_initialized() && !old(self).deps().eq_spec(&deps) ==> call_requires(
                f,
                (Option::Some(old(self).value()),),
            ),
        ensures
            cache_step(
                old(self).cached(),
                old(self).recompute_count(),
                deps,
                final(self).cached(),
                final(self).recompute_count(),
                recomputed,
            ),
            recomputed ==> call_ensures(f, (prev_value(old(self).cached()),), final(self).value()),
            !recomputed ==> *final(self) == *old(self),
            !old(self).is_initialized() ==> {
                &&& final(self).deps_write_count() == 0
                &&& final(self).value_write_count() == 0
            },
            recomputed && old(self).is_initialized() ==> {
                &&& final(self).deps_write_count() == old(self).deps_write_count() + 1
                &&& final(self).value_write_count() == old(self).value_write_count() + 1
            },
    {
        match self.cells.take() {
            Option::None => {
                let value = f(Option::None);
                self.cells = Option::Some(
                    Cells {
                        deps_cell: ObservableCell::new(deps),
                        value_cell: ObservableCell::new(value),
                    },
                );
                self.recomputes = Ghost(self.recomputes@ + 1);
                true
            },
            Option::Some(cells) => {
                let deps_changed = !(*cells.deps_cell.peek() == deps);
                if deps_changed {
                    let Cells { deps_cell, value_cell } = cells;
                    let ObservableCell { value: prev, writes: value_writes } = value_cell;
                    let ObservableCell { value: _, writes: deps_writes } = deps_cell;
                    let value = f(Option::Some(prev));
                    self.cells = Option::Some(
                        Cells {
                            deps_cell: ObservableCell {
                                value: deps,
                                writes: Ghost(deps_writes@ + 1),
                            },
                            value_cell: ObservableCell {
                                value,
                                writes: Ghost(value_writes@ + 1),
                            },
                        },
                    );
                    self.recomputes = Ghost(self.recomputes@ + 1);
                    true
                } else {
                    self.cells = Option::Some(cells);
                    false
                }
            },
        }
    }
}

/// Memoized computation behind an observable cell: recomputes through `f` —
/// which receives the previous value, or nothing on the first call — only when
/// `deps` is not equal to the stored dependency, and returns whether it did.
/// The computed value is then read through the memoizer's value cell.
pub fn use_computed_signal_with_prev<T, D: PartialEq, F: FnOnce(Option<T>) -> T>(
    signal: &mut ComputedSignal<T, D>,
    deps: D,
    f: F,
) -> (recomputed: bool)
    requires
        D::obeys_eq_spec(),
        !old(signal).is_initialized() ==> call_requires(f, (Option::None::<T>,)),
        old(signal).is_initialized() && !old(signal).deps().eq_spec(&deps) ==> call_requires(
            f,
            (Option::Some(old(signal).value()),),
        ),
    ensures
        cache_step(
            old(signal).cached(),
            old(signal).recompute_count(),
            deps,
            final(signal).cached(),
            final(signal).recompute_count(),
            recomputed,
        ),
        recomputed ==> call_ensures(
            f,
            (prev_value(old(signal).cached()),),
            final(signal).value(),
        ),
        !recomputed ==> *final(signal) == *old(signal),
        !old(signal).is_initialized() ==> {
            &&& final(signal).deps_write_count() == 0
            &&& final(signal).value_write_count() == 0
        },
        recomputed && old(signal).is_initialized() ==> {
            &&& final(signal).deps_write_count() == old(signal).deps_write_count() + 1
            &&& final(signal).value_write_count() == old(signal).value_write_count() + 1
        },
{
    signal.compute_with_prev(deps, f)
}

/// Memoized computation behind an observable cell, without access to the
/// previous value: recomputes through `init` only when `deps` is not equal to
/// the stored dependency, and returns whether it did.
pub fn use_computed_signal<T, D: PartialEq, F: FnOnce() -> T>(
    signal: &mut ComputedSignal<T, D>,
    deps: D,
    init: F,
) -> (recomputed: bool)
    requires
        D::obeys_eq_spec(),
        needs_recompute(old(signal).cached(), deps) ==> call_requires(init, ()),
    ensures
        cache_step(
            old(signal).cached(),
            old(signal).recompute_count(),
            deps,
            final(signal).cached(),
            final(signal).recompute_count(),
            recomputed,
        ),
        recomputed ==> call_ensures(init, (), final(signal).value()),
        !recomputed ==> *final(signal) == *old(signal),
        !old(signal).is_initialized() ==> {
            &&& final(signal).deps_write_count() == 0
            &&& final(signal).value_write_count() == 0
        },
        recomputed && old(signal).is_initialized() ==> {
            &&& final(signal).deps_write_count() == old(signal).deps_write_count() + 1
            &&& final(signal).value_write_count() == old(signal).value_write_count() + 1
        },
{
    let ignore_prev = |_prev: Option<T>| -> (r: T)
        requires
            call_requires(init, ()),
        ensures
            call_ensures(init, (), r),
        { init() };
    signal.compute_with_prev(deps, ignore_prev)
}

} // verus!
