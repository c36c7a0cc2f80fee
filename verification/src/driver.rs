//! What a runtime asks of its I/O driver.
use vstd::prelude::*;

verus! {

use std::time::Duration;

#[verifier::external_type_specification]
#[verifier::external_body]
pub struct ExIoError(std::io::Error);

/// Unpark a runtime of another thread.
pub trait Unpark: Sync + Send + 'static {
    /// Unblocks a thread that is blocked by the associated `Park` handle.
    ///
    /// Calling `unpark` atomically makes available the unpark token, if it
    /// is not already available.
    fn unpark(&self) -> std::io::Result<()>;
}

/// Core driver trait.
pub trait Driver {
    /// Run with driver TLS.
    fn with<R>(&self, f: impl FnOnce() -> R) -> R;

    /// Submit ops to kernel and process returned events.
    fn submit(&self) -> std::io::Result<()>;

    /// Wait infinitely and process returned events.
    fn park(&self) -> std::io::Result<()>;

    /// Wait with timeout and process returned events.
    fn park_timeout(&self, duration: Duration) -> std::io::Result<()>;

    /// The struct to wake thread from another.
    type Unpark: Unpark;

    fn getUnpark(&self) -> Self::Unpark;
}

} // verus!
