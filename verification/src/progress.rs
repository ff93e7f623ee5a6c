//! Progress of a run: whether it is shown, and how far an operation is.

use vstd::prelude::*;

verus! {

/// Decides whether progress is shown.
pub struct ProgressTracker {
    pub enabled: bool,
}

impl ProgressTracker {
    /// A tracker that shows progress if `enabled`.
    pub fn new(enabled: bool) -> (r: Self)
        ensures
            r.enabled == enabled,
    {
        Self { enabled }
    }

    /// Whether an operation of `total` steps gets a progress bar: only if
    /// progress is shown at all and there is a step to take.
    pub fn shows_bar(&self, total: usize) -> (r: bool)
        ensures
            r == (self.enabled && total > 0),
    {
        self.enabled && total != 0
    }

    /// Whether an operation of unknown length gets a spinner.
    pub fn shows_spinner(&self) -> (r: bool)
        ensures
            r == self.enabled,
    {
        self.enabled
    }
}

/// An operation of a known number of steps, with the data it works on.
pub struct ProgressAwareOperation<T> {
    pub total: usize,
    pub current: usize,
    pub data: T,
}

impl<T> ProgressAwareOperation<T> {
    /// An operation of `total` steps, none of them taken.
    pub fn new(data: T, total: usize) -> (r: Self)
        ensures
            r.total == total,
            r.current == 0,
            r.data == data,
    {
        Self { total, current: 0, data }
    }

    /// Takes one step.
    pub fn increment(&mut self)
        requires
            old(self).current < usize::MAX,
        ensures
            final(self).current == old(self).current + 1,
            final(self).total == old(self).total,
            final(self).data == old(self).data,
    {
        self.current += 1;
    }

    /// Whether as many steps are taken as the operation has.
    pub fn is_complete(&self) -> (r: bool)
        ensures
            r == (self.current >= self.total),
    {
        self.current >= self.total
    }
}

} // verus!
