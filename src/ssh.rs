//! The SSH server's configuration.
use vstd::prelude::*;

verus! {

/// Where the SSH server listens and the files and directories it serves from.
pub struct Server {
    /// The TCP port to listen on.
    pub port: String,
    /// The host key file, generated on first start where missing.
    pub host_key_path: String,
    /// The authorized-keys store, read afresh on each authentication attempt.
    pub authorized_keys_path: String,
    /// The repository root: every repository served or created lies below it.
    pub repos_dir: String,
}

impl Server {
    pub fn new(
        port: String,
        host_key_path: String,
        authorized_keys_path: String,
        repos_dir: String,
    ) -> (r: Server)
        ensures
            r.port@ == port@,
            r.host_key_path@ == host_key_path@,
            r.authorized_keys_path@ == authorized_keys_path@,
            r.repos_dir@ == repos_dir@,
    {
        Server { port, host_key_path, authorized_keys_path, repos_dir }
    }
}

} // verus!
