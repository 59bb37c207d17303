use std::sync::atomic::{AtomicUsize, Ordering};

use vstd::prelude::*;

verus! {

/// A clock source whose time is set by hand, for tests.
///
/// Its reading is shared: `increment` through one reference is seen through every other.
pub struct Mock {
    offset: AtomicUsize,
}

impl Mock {
    /// A mock clock reading `offset`.
    pub fn new(offset: usize) -> Mock {
        Mock { offset: AtomicUsize::new(offset) }
    }

    /// Moves the clock forward by `amount` (wrapping around on overflow).
    pub fn increment(&self, amount: usize) {
        self.offset.fetch_add(amount, Ordering::Release);
    }

    /// The current reading.
    pub fn now(&self) -> u64 {
        self.offset.load(Ordering::Acquire) as u64
    }

    /// The current reading, taken at the start of a measured region.
    pub fn start(&self) -> u64 {
        self.offset.load(Ordering::Acquire) as u64
    }

    /// The current reading, taken at the end of a measured region.
    pub fn end(&self) -> u64 {
        self.offset.load(Ordering::Acquire) as u64
    }
}

} // verus!
