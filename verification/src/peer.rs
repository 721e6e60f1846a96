//! Who is on the other end of a connection.

use vstd::prelude::*;

use crate::context::TrustedPeer;

verus! {

/// The process that is connected to the daemon.
#[derive(Clone, Copy, Debug, PartialEq, Eq, Structural)]
pub struct ClientPeer {
    pub pid: u32,
    pub uid: u32,
    pub gid: i32,
}

impl ClientPeer {
    /// A peer that the kernel tells nothing of: it is neither root nor a process.
    pub fn unknown() -> (r: Self)
        ensures
            r.pid == u32::MAX,
            r.uid == u32::MAX,
            r.gid == -1,
    {
        ClientPeer { pid: u32::MAX, uid: u32::MAX, gid: -1 }
    }

    /// The process and user of the peer.
    pub fn trusted(self) -> (r: TrustedPeer)
        ensures
            r == (TrustedPeer { pid: self.pid, uid: self.uid }),
    {
        TrustedPeer { pid: self.pid, uid: self.uid }
    }

    /// The user that decides for the peer; none for root.
    pub fn approver_uid(self) -> (r: Option<u32>)
        ensures
            r == (if self.uid > 0 {
                Some(self.uid)
            } else {
                None
            }),
    {
        if self.uid > 0 {
            Some(self.uid)
        } else {
            None
        }
    }
}

} // verus!
