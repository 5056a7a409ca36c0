//! Cooperative shutdown signal shared across threads. Clones observe the same
//! flag: any clone's `cancel()` is visible to every other clone's
//! `is_canceled()`. Cancellation is one-way and sticky.

use vstd::prelude::*;
use std::sync::Arc;
use std::sync::atomic::{AtomicBool, Ordering};

verus! {

/// Cloneable one-shot cancellation flag. The run loop polls `is_canceled`
/// each tick; signal handlers and debug servers call `cancel` to stop it.
/// The flag lives in shared atomic memory that other threads write, so no
/// contract here can say what a read returns.
#[derive(Debug, Clone)]
pub struct ShutdownToken(Arc<AtomicBool>);

impl ShutdownToken {
    /// A fresh, uncanceled token.
    pub fn new() -> Self {
        ShutdownToken(Arc::new(AtomicBool::new(false)))
    }

    /// Signal shutdown to every clone of this token.
    pub fn cancel(&self) {
        self.0.store(true, Ordering::Release);
    }

    /// Whether any clone has signaled shutdown.
    pub fn is_canceled(&self) -> bool {
        self.0.load(Ordering::Acquire)
    }
}

impl Default for ShutdownToken {
    /// A fresh, uncanceled token.
    fn default() -> Self {
        Self::new()
    }
}

} // verus!
