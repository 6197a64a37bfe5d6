//! The relay that carries a plugin's log records to the host's logger.
//!
//! A plugin is built as a library of its own and would otherwise log to a
//! sink of its own. The host passes a callback into the plugin's constructor;
//! the plugin installs a logger that hands every record to that callback, so
//! that one process has one logging destination.

use vstd::prelude::*;

verus! {

/// A logger that forwards every record to the host's callback.
pub struct ExternalLogger<F> {
    callback: F,
}

impl<F> ExternalLogger<F> {
    /// The callback that records are forwarded to.
    pub closed spec fn callback(self) -> F {
        self.callback
    }

    /// A logger that forwards to `callback`.
    pub fn new(callback: F) -> (logger: Self)
        ensures
            logger.callback() == callback,
    {
        Self { callback }
    }

    /// Whether a record would be forwarded: every record is, and the host
    /// decides what to keep.
    pub fn enabled(&self) -> (enabled: bool)
        ensures
            enabled,
    {
        true
    }

    /// Forwards `record` to the callback; gives what the callback gives.
    pub fn log<R, T>(&self, record: R) -> (answer: T) where F: Fn(R) -> T
        requires
            self.callback().requires((record,)),
        ensures
            self.callback().ensures((record,), answer),
    {
        (self.callback)(record)
    }
}

} // verus!
