//! Credentials of the process at the other end of a Unix socket.
use vstd::prelude::*;

verus! {

/// Credentials of a process.
#[derive(Copy, Clone, PartialEq, Eq, Structural, Hash, Debug)]
pub struct UCred {
    /// PID (process ID) of the process
    pid: Option<i32>,
    /// UID (user ID) of the process
    uid: u32,
    /// GID (group ID) of the process
    gid: u32,
}

impl UCred {
    pub closed spec fn spec_pid(&self) -> Option<i32> {
        self.pid
    }

    pub closed spec fn spec_uid(&self) -> u32 {
        self.uid
    }

    pub closed spec fn spec_gid(&self) -> u32 {
        self.gid
    }

    /// Gets UID (user ID) of the process.
    pub fn uid(&self) -> (r: u32)
        ensures
            r == self.spec_uid(),
    {
        self.uid
    }

    /// Gets GID (group ID) of the process.
    pub fn gid(&self) -> (r: u32)
        ensures
            r == self.spec_gid(),
    {
        self.gid
    }

    /// Gets PID (process ID) of the process.
    pub fn pid(&self) -> (r: Option<i32>)
        ensures
            r == self.spec_pid(),
    {
        self.pid
    }

    /// The credentials read by a `getsockopt` call for the peer's
    /// credentials: there are some only when the call returned 0 and filled
    /// exactly the size of the credentials structure.
    pub fn from_peer_cred(ret: i32, filled: usize, expected: usize, pid: i32, uid: u32, gid: u32) -> (r: Option<UCred>)
        ensures
            (ret == 0 && filled == expected) ==> r is Some && r->Some_0.spec_pid() == Some(pid)
                && r->Some_0.spec_uid() == uid && r->Some_0.spec_gid() == gid,
            !(ret == 0 && filled == expected) ==> r is None,
    {
        if ret == 0 && filled == expected {
            Some(UCred { pid: Some(pid), uid, gid })
        } else {
            None
        }
    }
}

} // verus!
