//! Process-wide readiness flag.
//!
//! The flag is shared by its clones, and any of them may flip it between two
//! calls, so no contract says which value a read gives or what came before it. The
//! contracts say what is done to the shared cell: what it is made to hold, and what
//! is read from and written to it. The answer to a probe is stated for either value,
//! in [`crate::telemetry::http`].
use std::sync::atomic::{AtomicBool, Ordering};
use std::sync::Arc;

use vstd::prelude::*;

verus! {

/// Whether the daemon serves calls. Clones share the state.
#[derive(Debug, Clone)]
pub struct ReadinessFlag {
    inner: Arc<AtomicBool>,
}

impl ReadinessFlag {
    /// The shared cell was made to hold `ready`.
    pub closed spec fn starts_as(self, ready: bool) -> bool {
        exists|cell: AtomicBool| #[trigger]
            call_ensures(AtomicBool::new, (ready,), cell) && self.inner == Arc::new(cell)
    }

    /// A read of the shared cell gives `ready`.
    pub closed spec fn reads(self, ready: bool) -> bool {
        call_ensures(AtomicBool::load, (&*self.inner, Ordering::Acquire), ready)
    }

    /// A write of `ready` to the shared cell returns.
    pub closed spec fn writes(self, ready: bool) -> bool {
        call_ensures(AtomicBool::store, (&*self.inner, ready, Ordering::Release), ())
    }

    /// A flag that is not ready.
    pub fn new() -> (r: Self)
        ensures
            r.starts_as(false),
    {
        let cell = AtomicBool::new(false);
        ReadinessFlag { inner: Arc::new(cell) }
    }

    /// Whether the daemon is ready: the value that the shared cell holds at this
    /// moment.
    pub fn is_ready(&self) -> (r: bool)
        ensures
            self.reads(r),
    {
        self.inner.load(Ordering::Acquire)
    }

    /// Mark the daemon as ready. Idempotent.
    pub fn mark_ready(&self)
        ensures
            self.writes(true),
    {
        self.inner.store(true, Ordering::Release);
    }

    /// Mark the daemon as not ready.
    pub fn mark_not_ready(&self)
        ensures
            self.writes(false),
    {
        self.inner.store(false, Ordering::Release);
    }
}

impl Default for ReadinessFlag {
    fn default() -> (r: Self)
        ensures
            r.starts_as(false),
    {
        ReadinessFlag::new()
    }
}

} // verus!
