//! Cooperative cancellation.

use std::sync::atomic::{AtomicBool, Ordering};
use std::sync::Arc;
use vstd::prelude::*;

verus! {

/// A one-shot abort flag shared between every clone of a handle.
///
/// The flag lives behind an atomic, so any other handle may set it between two
/// calls on this one: no contract of a single handle can say what
/// [`Breaker::is_aborted`] returns.
#[derive(Debug)]
pub struct Breaker {
    state: Arc<AtomicBool>,
}

impl Breaker {
    /// A fresh flag, not aborted, shared with nobody yet.
    pub fn new() -> Self {
        Self { state: Arc::new(AtomicBool::new(false)) }
    }

    /// Clears the flag for every handle that shares it. Only a walker does
    /// so, when it starts to collect.
    pub(crate) fn reset(&mut self) {
        self.state.store(false, Ordering::SeqCst)
    }

    /// Reads the flag, sequentially consistent with every `abort` and `reset`.
    pub fn is_aborted(&self) -> bool {
        self.state.load(Ordering::SeqCst)
    }

    /// A function that sets the flag when it is called, for those who are to
    /// abort and nothing else.
    pub fn breaker(&self) -> impl Fn() {
        let signal = share(&self.state);
        move || signal.store(true, Ordering::SeqCst)
    }

    /// Sets the flag. Idempotent.
    pub fn abort(&self) {
        self.state.store(true, Ordering::SeqCst)
    }
}

impl Default for Breaker {
    /// A fresh flag, not aborted.
    fn default() -> Self {
        Breaker::new()
    }
}

impl Clone for Breaker {
    /// Another handle to the same flag.
    fn clone(&self) -> (r: Self)
        ensures
            r == *self,
    {
        Self { state: share(&self.state) }
    }
}

/// `<Arc<T> as Clone>::clone`: another pointer to the same allocation, that
/// is, to the same flag.
#[verifier::external_body]
fn share(flag: &Arc<AtomicBool>) -> (r: Arc<AtomicBool>)
    ensures
        r == *flag,
{
    Arc::clone(flag)
}

} // verus!
