//! Shutdown callback registry.
//!
//! Cleanup callbacks are registered once and must run exactly once per
//! logical exit, whichever of the independent triggers fires first: the
//! in-loop exit request, the terminate-signal flag observed by the loop,
//! or the last-resort process-exit hook. All three converge on draining
//! this registry; because draining empties it, callbacks registered before
//! the first trigger run exactly once, while late registrants remain
//! reachable by a later trigger.

use vstd::prelude::*;

verus! {

/// A request to run the carried callback when the process exits.
pub struct RegisterOnExit<T>(pub T);

/// The ordered, drain-once list of shutdown callbacks.
pub struct CallbackRegistry<T> {
    pub callbacks: Vec<T>,
}

impl<T> CallbackRegistry<T> {
    /// An empty registry.
    pub fn new() -> (r: Self)
        ensures
            r.callbacks@ == Seq::<T>::empty(),
    {
        CallbackRegistry { callbacks: Vec::new() }
    }

    /// Append a callback; registration order is invocation order.
    pub fn register(&mut self, callback: T)
        ensures
            final(self).callbacks@ == old(self).callbacks@.push(callback),
    {
        self.callbacks.push(callback);
    }

    /// Take every registered callback, in registration order, leaving the
    /// registry empty: running what this returns and draining again later
    /// can never run a callback twice.
    pub fn drain(&mut self) -> (r: Vec<T>)
        ensures
            r@ == old(self).callbacks@,
            final(self).callbacks@ == Seq::<T>::empty(),
    {
        let mut taken: Vec<T> = Vec::new();
        core::mem::swap(&mut taken, &mut self.callbacks);
        taken
    }

    pub fn is_empty(&self) -> (r: bool)
        ensures
            r == (self.callbacks@.len() == 0),
    {
        self.callbacks.len() == 0
    }
}

/// Whether this tick must run the shutdown callbacks: either the host
/// observed an exit request, or the terminate-signal flag was set
/// asynchronously and is being observed now.
pub fn exit_triggered(sigterm_flag: bool, exit_requested: bool) -> (r: bool)
    ensures
        r == (sigterm_flag || exit_requested),
{
    sigterm_flag || exit_requested
}

} // verus!
