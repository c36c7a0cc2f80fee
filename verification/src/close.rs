//! The operation that closes a file descriptor.
use vstd::prelude::*;

verus! {

use crate::ready::Direction;

#[verifier::external_type_specification]
#[verifier::external_body]
pub struct ExEntry(io_uring::squeue::Entry);

/// The submission entry that `io_uring::opcode::Close` builds for the
/// descriptor `fd`: a zeroed entry whose opcode is the close code and whose
/// descriptor field is `fd`. The entry is opaque here, so it is named rather
/// than described.
pub uninterp spec fn close_sqe(fd: i32) -> io_uring::squeue::Entry;

/// Builds the entry with `io_uring::opcode::Close::new(io_uring::types::Fd(fd)).build()`.
/// Claimed: the result depends on `fd` alone, so it is `close_sqe(fd)`.
#[verifier::external_body]
fn close_entry(fd: i32) -> (r: io_uring::squeue::Entry)
    ensures
        r == close_sqe(fd),
{
    io_uring::opcode::Close::new(io_uring::types::Fd(fd)).build()
}

/// Closing a file descriptor.
pub struct Close {
    fd: i32,
}

impl Close {
    pub closed spec fn spec_fd(&self) -> i32 {
        self.fd
    }

    pub fn new(fd: i32) -> (r: Close)
        ensures
            r.spec_fd() == fd,
    {
        Close { fd }
    }

    /// The descriptor to close.
    pub fn fd(&self) -> (r: i32)
        ensures
            r == self.spec_fd(),
    {
        self.fd
    }

    /// The io_uring entry of the operation: the close entry for its descriptor.
    pub fn uring_op(&mut self) -> (r: io_uring::squeue::Entry)
        ensures
            r == close_sqe(old(self).spec_fd()),
            *final(self) == *old(self),
    {
        close_entry(self.fd)
    }

    /// Closing does not wait for readiness: the system call is made at once.
    pub fn legacy_interest(&self) -> (r: Option<(Direction, usize)>)
        ensures
            r is None,
    {
        None
    }
}

} // verus!
