//! The process-wide ESI error budget.
//!
//! ESI allows a client a limited number of non-2xx answers per minute.
//! Batches consult this gauge before they start and skip their tick when
//! too little budget is left; every failed call takes one from it, and the
//! worker restores it to the ceiling once a minute.

use vstd::prelude::*;

verus! {

pub const DEFAULT_CEILING: i16 = 100i16;

pub const DEFAULT_DEFER_THRESHOLD: i16 = 20i16;

pub struct EsiBudgetGuard {
    /// Estimated non-2xx answers left before ESI starts refusing.
    remaining: i16,
    /// Below this many, callers should defer.
    defer_threshold: i16,
    ceiling: i16,
}

pub struct BudgetView {
    pub remaining: i16,
    pub defer_threshold: i16,
    pub ceiling: i16,
}

impl View for EsiBudgetGuard {
    type V = BudgetView;

    closed spec fn view(&self) -> BudgetView {
        BudgetView {
            remaining: self.remaining,
            defer_threshold: self.defer_threshold,
            ceiling: self.ceiling,
        }
    }
}

impl Default for EsiBudgetGuard {
    fn default() -> (r: Self)
        ensures
            r@.remaining == DEFAULT_CEILING,
            r@.ceiling == DEFAULT_CEILING,
            r@.defer_threshold == DEFAULT_DEFER_THRESHOLD,
    {
        EsiBudgetGuard::new(DEFAULT_CEILING, DEFAULT_DEFER_THRESHOLD)
    }
}

impl EsiBudgetGuard {
    /// A full budget of `ceiling`, deferring below `defer_threshold`.
    pub fn new(ceiling: i16, defer_threshold: i16) -> (r: Self)
        ensures
            r@.remaining == ceiling,
            r@.ceiling == ceiling,
            r@.defer_threshold == defer_threshold,
    {
        EsiBudgetGuard { remaining: ceiling, defer_threshold, ceiling }
    }

    /// Enough budget is left to start another batch.
    pub fn has_budget(&self) -> (r: bool)
        ensures
            r == (self@.remaining >= self@.defer_threshold),
    {
        self.remaining >= self.defer_threshold
    }

    /// The budget left.
    pub fn remaining(&self) -> (r: i16)
        ensures
            r == self@.remaining,
    {
        self.remaining
    }

    /// Takes one for a non-2xx answer; never goes below zero.
    pub fn record_non_2xx(&mut self)
        ensures
            final(self)@.remaining == if old(self)@.remaining > 0 {
                old(self)@.remaining - 1
            } else {
                old(self)@.remaining as int
            },
            final(self)@.ceiling == old(self)@.ceiling,
            final(self)@.defer_threshold == old(self)@.defer_threshold,
    {
        if self.remaining > 0 {
            self.remaining = self.remaining - 1;
        }
    }

    /// Restores the full budget.
    pub fn reset(&mut self)
        ensures
            final(self)@.remaining == old(self)@.ceiling,
            final(self)@.ceiling == old(self)@.ceiling,
            final(self)@.defer_threshold == old(self)@.defer_threshold,
    {
        self.remaining = self.ceiling;
    }
}

/// Accounts for the outcome of an ESI call: an error takes one from the
/// budget; the outcome itself passes through unchanged.
pub fn budgeted<T, E>(guard: &mut EsiBudgetGuard, outcome: Result<T, E>) -> (r: Result<T, E>)
    ensures
        r == outcome,
        outcome is Ok ==> final(guard)@ == old(guard)@,
        outcome is Err ==> final(guard)@.remaining == (if old(guard)@.remaining > 0 {
            old(guard)@.remaining - 1
        } else {
            old(guard)@.remaining as int
        }),
        final(guard)@.ceiling == old(guard)@.ceiling,
        final(guard)@.defer_threshold == old(guard)@.defer_threshold,
{
    match outcome {
        Ok(v) => Ok(v),
        Err(e) => {
            guard.record_non_2xx();
            Err(e)
        },
    }
}

} // verus!
