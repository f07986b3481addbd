//! A boolean flag shared between threads.
//!
//! Every clone of a flag shares one atomic cell, so what `get` reads may have
//! been written through any of them: no contract here can say which value it is.
use vstd::prelude::*;
use std::sync::Arc;
use std::sync::atomic::{AtomicBool, Ordering};

verus! {

#[derive(Debug, Clone)]
pub struct Flag(Arc<AtomicBool>);

impl Flag {
    pub fn new(state: bool) -> Self {
        Flag(Arc::new(AtomicBool::new(state)))
    }

    pub fn get(&self) -> bool {
        self.0.load(Ordering::Relaxed)
    }

    pub fn set(&self, state: bool) {
        self.0.store(state, Ordering::Relaxed);
    }

    /// Stores `state` and returns the value it replaced.
    pub fn swap(&self, state: bool) -> bool {
        self.0.swap(state, Ordering::Relaxed)
    }
}

} // verus!
