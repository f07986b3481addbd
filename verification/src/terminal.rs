//! The terminal's kill switch: a flag, shared between threads, that is
//! raised once to stop the program.
use vstd::prelude::*;
use std::sync::Arc;
use std::sync::atomic::{AtomicBool, Ordering};

verus! {

#[derive(Debug, Clone)]
pub struct Flag(Arc<AtomicBool>);

impl Flag {
    /// A flag that is not raised yet.
    pub fn new() -> Self {
        Flag(Arc::new(AtomicBool::new(false)))
    }

    /// Whether any clone of the flag has been raised.
    pub fn get(&self) -> bool {
        self.0.load(Ordering::Relaxed)
    }

    /// Raises the flag for every clone of it.
    pub fn set(&self) {
        self.0.store(true, Ordering::Relaxed);
    }
}

} // verus!
