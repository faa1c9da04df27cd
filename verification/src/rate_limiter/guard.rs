//! The guard placed at a call site: a held resource, and the quota that one use
//! of it costs.

use vstd::prelude::*;

verus! {

/// Holds a resource that may only be used once the limiter has admitted the use, together
/// with the quota that one use costs.
///
/// The guard does not wait: whoever drives the limiter asks it for
/// [`cost`](ActionRateLimiter::cost) units, and calls
/// [`invoke`](ActionRateLimiter::invoke) once they are granted.
#[derive(Debug)]
pub struct ActionRateLimiter<T> {
    component: T,
    cost: u64,
}

impl<T> ActionRateLimiter<T> {
    /// The resource that the guard holds.
    pub closed spec fn held(&self) -> T {
        self.component
    }

    /// The quota that one use of the resource costs.
    pub closed spec fn price(&self) -> u64 {
        self.cost
    }

    /// A guard around `component`, each use of which costs `cost` units.
    pub fn new(component: T, cost: u64) -> (guard: Self)
        ensures
            guard.held() == component,
            guard.price() == cost,
    {
        ActionRateLimiter { component, cost }
    }

    /// The quota to ask the limiter for before a use.
    pub fn cost(&self) -> (cost: u64)
        ensures
            cost == self.price(),
    {
        self.cost
    }

    /// The resource itself.
    pub fn component(&self) -> (component: &T)
        ensures
            *component == self.held(),
    {
        &self.component
    }

    /// Runs `operation` on the held resource and hands back what it produced,
    /// unchanged: its value, or the error it raised.
    pub fn invoke<'a, R, F: FnOnce(&'a T) -> R>(&'a self, operation: F) -> (produced: R)
        requires
            operation.requires((&self.held(),)),
        ensures
            operation.ensures((&self.held(),), produced),
    {
        operation(&self.component)
    }
}

} // verus!
