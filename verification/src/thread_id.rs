//! Thread ids of runtimes: generated numbers, not the kernel's thread ids.
use vstd::prelude::*;

verus! {

use std::sync::atomic::{AtomicUsize, Ordering};

/// The thread id of the thread that runs blocking work, and of code that
/// runs outside any runtime.
pub const SPAWN_BLOCKING_THREAD_ID: usize = 0;

/// Generated ids start here; 1 to 15 are never handed out.
pub const FIRST_GENERATED_THREAD_ID: usize = 16;

/// A fresh generator of thread ids.
pub fn new_thread_id_generator() -> AtomicUsize {
    AtomicUsize::new(FIRST_GENERATED_THREAD_ID)
}

/// Takes the next id from `generator`. Other threads take ids from the same
/// generator concurrently, so the contract says nothing of which one.
pub fn generateThreadId(generator: &AtomicUsize) -> usize {
    generator.fetch_add(1, Ordering::Relaxed)
}

} // verus!
