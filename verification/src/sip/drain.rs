//! Process-wide drain flag for graceful shutdown.
//!
//! The flag is shared by its clones, and any of them may flip it between two
//! calls, so no contract says which value a read gives or what came before it. The
//! contracts say what is done to the shared cell: what it is made to hold, and what
//! is read from and written to it. What a draining node answers is stated for either
//! value, in [`crate::sip::handler`].
use std::sync::atomic::{AtomicBool, Ordering};
use std::sync::Arc;

use vstd::prelude::*;

verus! {

/// Whether the daemon is draining for shutdown. Clones share the state.
#[derive(Debug, Clone)]
pub struct DrainFlag {
    inner: Arc<AtomicBool>,
}

impl DrainFlag {
    /// The shared cell was made to hold `draining`.
    pub closed spec fn starts_as(self, draining: bool) -> bool {
        exists|cell: AtomicBool| #[trigger]
            call_ensures(AtomicBool::new, (draining,), cell) && self.inner == Arc::new(cell)
    }

    /// A read of the shared cell gives `draining`.
    pub closed spec fn reads(self, draining: bool) -> bool {
        call_ensures(AtomicBool::load, (&*self.inner, Ordering::Acquire), draining)
    }

    /// A write of `draining` to the shared cell returns.
    pub closed spec fn writes(self, draining: bool) -> bool {
        call_ensures(AtomicBool::store, (&*self.inner, draining, Ordering::Release), ())
    }

    /// A flag that is not draining.
    pub fn new() -> (r: Self)
        ensures
            r.starts_as(false),
    {
        let cell = AtomicBool::new(false);
        DrainFlag { inner: Arc::new(cell) }
    }

    /// Whether the daemon is draining: the value that the shared cell holds at this
    /// moment.
    pub fn is_draining(&self) -> (r: bool)
        ensures
            self.reads(r),
    {
        self.inner.load(Ordering::Acquire)
    }

    /// Start draining. Idempotent; nothing ends it.
    pub fn begin(&self)
        ensures
            self.writes(true),
    {
        self.inner.store(true, Ordering::Release);
    }
}

impl Default for DrainFlag {
    fn default() -> (r: Self)
        ensures
            r.starts_as(false),
    {
        DrainFlag::new()
    }
}

} // verus!
