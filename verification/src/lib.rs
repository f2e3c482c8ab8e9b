//! Memoization helpers for equality-gated recomputation: each memoizer holds at
//! most one cached `(dependency, value)` pair and re-runs its initializer only
//! when the supplied dependency differs from the cached one.
//!
//! Two variants share one model: [`memo::MemoCell`] returns the cached value by
//! value, [`signal::ComputedSignal`] exposes it through an observable cell.
//! The shared transition model and its laws live in [`model`].

pub mod memo;
pub mod model;
pub mod signal;
