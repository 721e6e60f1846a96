//! The sockets that the daemon listens on.

use vstd::prelude::*;

use crate::auth::SocketRole;
use crate::paths;
use crate::store::PolicyStore;

verus! {

/// The mode that sockets are given: anybody may connect, and each request is admitted by the
/// socket that it comes in on and by its peer.
pub const SOCKET_MODE: u32 = 0o666;

/// A socket to listen on.
#[derive(Debug, PartialEq, Eq)]
pub struct Listener {
    pub path: String,
    pub mode: u32,
    pub role: SocketRole,
}

/// The daemon: a store, and the sockets that it is asked on.
pub struct PolicyServer {
    pub store: PolicyStore,
    pub host_socket_path: String,
    pub sandbox_socket_path: String,
}

impl PolicyServer {
    /// The daemon for a store and two sockets.
    pub fn new(store: PolicyStore, host_socket_path: String, sandbox_socket_path: String) -> (r:
        Self)
        ensures
            r == (PolicyServer { store, host_socket_path, sandbox_socket_path }),
    {
        PolicyServer { store, host_socket_path, sandbox_socket_path }
    }

    /// The sockets to bind, in order, or why the daemon cannot run.
    pub fn listeners(&self) -> (r: Result<Vec<Listener>, String>)
        ensures
            if paths::components(self.host_socket_path@) == paths::components(
                self.sandbox_socket_path@,
            ) {
                r matches Err(reason) && reason@ == "host and sandbox policy sockets must differ"@
            } else {
                r matches Ok(sockets) && sockets@ == seq![
                    Listener {
                        path: self.host_socket_path,
                        mode: SOCKET_MODE,
                        role: SocketRole::Host,
                    },
                    Listener {
                        path: self.sandbox_socket_path,
                        mode: SOCKET_MODE,
                        role: SocketRole::Sandbox,
                    },
                ]
            },
    {
        if paths::same_path(self.host_socket_path.as_str(), self.sandbox_socket_path.as_str()) {
            return Err("host and sandbox policy sockets must differ".to_owned());
        }
        let host = Listener {
            path: self.host_socket_path.clone(),
            mode: SOCKET_MODE,
            role: SocketRole::Host,
        };
        let sandbox = Listener {
            path: self.sandbox_socket_path.clone(),
            mode: SOCKET_MODE,
            role: SocketRole::Sandbox,
        };
        let mut sockets = Vec::new();
        sockets.push(host);
        sockets.push(sandbox);
        Ok(sockets)
    }
}

} // verus!
