use std::cell::Cell;

use dioxus_use_computed::memo::use_computed;
use dioxus_use_computed::memo::use_computed_with_prev;
use dioxus_use_computed::memo::MemoCell;
use dioxus_use_computed::signal::use_computed_signal;
use dioxus_use_computed::signal::use_computed_signal_with_prev;
use dioxus_use_computed::signal::ComputedSignal;
use dioxus_use_computed::signal::ObservableCell;

#[test]
fn first_call_receives_no_previous_value() {
    let mut cell: MemoCell<u64, u64> = MemoCell::new();
    let v = use_computed_with_prev(&mut cell, 1u64, |prev| {
        assert!(prev.is_none());
        42u64
    });
    assert_eq!(v, 42);
}

#[test]
fn stable_deps_invoke_initializer_exactly_once() {
    let mut cell: MemoCell<u64, u64> = MemoCell::new();
    let runs = Cell::new(0u32);
    for _ in 0..5 {
        let v = use_computed(&mut cell, 7u64, || {
            runs.set(runs.get() + 1);
            7u64 * 3
        });
        assert_eq!(v, 21);
    }
    assert_eq!(runs.get(), 1);
}

#[test]
fn changed_deps_hand_over_the_last_computed_value() {
    let mut cell: MemoCell<String, u64> = MemoCell::new();
    let v1 = use_computed_with_prev(&mut cell, 1u64, |prev| {
        assert_eq!(prev, None);
        String::from("one")
    });
    assert_eq!(v1, "one");
    // Unchanged dependency: the initializer must not run at all.
    let v2 = use_computed_with_prev(&mut cell, 1u64, |_prev| -> String {
        panic!("initializer ran although the dependency was unchanged");
    });
    assert_eq!(v2, "one");
    let v3 = use_computed_with_prev(&mut cell, 2u64, |prev| {
        assert_eq!(prev.as_deref(), Some("one"));
        String::from("two")
    });
    assert_eq!(v3, "two");
}

#[test]
fn returned_value_is_the_most_recently_produced_one() {
    let mut cell: MemoCell<String, &str> = MemoCell::new();
    let v1 = use_computed(&mut cell, "a", || String::from("alpha"));
    assert_eq!(v1, "alpha");
    let v2 = use_computed(&mut cell, "b", || String::from("beta"));
    assert_eq!(v2, "beta");
    let v3 = use_computed(&mut cell, "b", || String::from("gamma"));
    assert_eq!(v3, "beta");
    assert_eq!(*cell.borrow_value(), "beta");
}

#[test]
fn scenario_doubling_without_previous_value() {
    let deps_seq: [u64; 5] = [1, 1, 2, 2, 3];
    let expected: [u64; 5] = [2, 2, 4, 4, 6];
    let expected_runs: [u32; 5] = [1, 1, 2, 2, 3];
    let mut cell: MemoCell<u64, u64> = MemoCell::new();
    let runs = Cell::new(0u32);
    for i in 0..5 {
        let deps = deps_seq[i];
        let v = use_computed(&mut cell, deps, || {
            runs.set(runs.get() + 1);
            deps * 2
        });
        assert_eq!(v, expected[i]);
        assert_eq!(runs.get(), expected_runs[i]);
    }
}

#[test]
fn scenario_doubling_with_previous_value_compounds() {
    let deps_seq: [u64; 5] = [1, 1, 2, 2, 3];
    let expected: [u64; 5] = [2, 2, 4, 4, 8];
    let mut cell: MemoCell<u64, u64> = MemoCell::new();
    for i in 0..5 {
        let deps = deps_seq[i];
        let v = use_computed_with_prev(&mut cell, deps, |prev| prev.unwrap_or(deps) * 2);
        assert_eq!(v, expected[i]);
    }
}

#[test]
fn reading_the_cached_value_does_not_disturb_the_cache() {
    let mut cell: MemoCell<u64, u64> = MemoCell::new();
    let runs = Cell::new(0u32);
    use_computed(&mut cell, 1u64, || {
        runs.set(runs.get() + 1);
        10u64
    });
    assert_eq!(*cell.borrow_value(), 10);
    assert_eq!(*cell.borrow_value(), 10);
    assert_eq!(*cell.borrow_value(), 10);
    // The reads above must not have invalidated the cache.
    let v = use_computed(&mut cell, 1u64, || {
        runs.set(runs.get() + 1);
        10u64
    });
    assert_eq!(v, 10);
    assert_eq!(runs.get(), 1);
}

#[test]
fn recompute_reports_when_the_initializer_ran() {
    let mut cell: MemoCell<u64, u64> = MemoCell::new();
    assert!(cell.compute_with_prev(1u64, |_| 2u64));
    assert!(!cell.compute_with_prev(1u64, |_| 99u64));
    assert!(cell.compute_with_prev(2u64, |_| 4u64));
    assert_eq!(*cell.borrow_value(), 4);
}

#[test]
fn signal_first_call_initializes_both_cells() {
    let mut signal: ComputedSignal<u64, u64> = ComputedSignal::new();
    let recomputed = use_computed_signal(&mut signal, 5u64, || 50u64);
    assert!(recomputed);
    assert_eq!(*signal.peek_value(), 50);
    assert_eq!(*signal.peek_deps(), 5);
}

#[test]
fn signal_reflects_new_value_after_dependency_change() {
    let mut signal: ComputedSignal<String, u64> = ComputedSignal::new();
    use_computed_signal(&mut signal, 1u64, || String::from("first"));
    assert_eq!(*signal.peek_value(), "first");
    let recomputed = use_computed_signal(&mut signal, 2u64, || String::from("second"));
    assert!(recomputed);
    assert_eq!(*signal.peek_value(), "second");
    assert_eq!(*signal.peek_deps(), 2);
}

#[test]
fn signal_keeps_prior_value_without_dependency_change() {
    let mut signal: ComputedSignal<u64, u64> = ComputedSignal::new();
    let runs = Cell::new(0u32);
    for i in 0..4 {
        let recomputed = use_computed_signal(&mut signal, 9u64, || {
            runs.set(runs.get() + 1);
            81u64
        });
        assert_eq!(recomputed, i == 0);
        assert_eq!(*signal.peek_value(), 81);
    }
    assert_eq!(runs.get(), 1);
}

#[test]
fn signal_with_prev_receives_the_stored_value() {
    let mut signal: ComputedSignal<u64, u64> = ComputedSignal::new();
    use_computed_signal_with_prev(&mut signal, 1u64, |prev| {
        assert_eq!(prev, None);
        2u64
    });
    let recomputed = use_computed_signal_with_prev(&mut signal, 3u64, |prev| {
        assert_eq!(prev, Some(2));
        6u64
    });
    assert!(recomputed);
    assert_eq!(*signal.peek_value(), 6);
}

#[test]
fn peeking_cells_is_idempotent() {
    let mut signal: ComputedSignal<u64, u64> = ComputedSignal::new();
    use_computed_signal(&mut signal, 4u64, || 16u64);
    assert_eq!(*signal.peek_deps(), 4);
    assert_eq!(*signal.peek_deps(), 4);
    assert_eq!(*signal.peek_value(), 16);
    assert_eq!(*signal.peek_value(), 16);
    // Peeking must not have looked like a dependency change.
    let recomputed = use_computed_signal(&mut signal, 4u64, || 0u64);
    assert!(!recomputed);
    assert_eq!(*signal.peek_value(), 16);
}

#[test]
fn value_cell_handle_tracks_the_computed_value() {
    let mut signal: ComputedSignal<u64, u64> = ComputedSignal::new();
    use_computed_signal(&mut signal, 1u64, || 11u64);
    assert_eq!(*signal.value_cell().peek(), 11);
    use_computed_signal(&mut signal, 2u64, || 22u64);
    assert_eq!(*signal.value_cell().peek(), 22);
}

#[test]
fn observable_cell_peek_returns_the_stored_value() {
    let cell = ObservableCell::new(String::from("stored"));
    assert_eq!(*cell.peek(), "stored");
    assert_eq!(*cell.peek(), "stored");
}
