//! The host: a long-lived signing key pair and the identity derived from
//! it, built by a small builder.

use vstd::prelude::*;

use crate::signing::{keypair_public_key, new_server_keypair};

verus! {

/// A host: its signing key pair, its public identity, and whether it has
/// been started.
pub struct Host {
    pub kp: nkeys::KeyPair,
    pub host_id: String,
    pub started: bool,
}

/// The HostBuilder builds the configuration for a host.
#[derive(Debug, Clone, Copy, PartialEq, Eq, Structural)]
pub struct HostBuilder {}

impl Default for HostBuilder {
    fn default() -> (r: Self)
        ensures
            r == (HostBuilder {  }),
    {
        Self::new()
    }
}

impl HostBuilder {
    /// Creates a new host builder.
    pub fn new() -> (r: HostBuilder)
        ensures
            r == (HostBuilder {  }),
    {
        HostBuilder {  }
    }

    /// Constructs a host: a fresh server key pair, its public key as the
    /// host id, not yet started.
    pub fn build(self) -> (r: Host)
        ensures
            !r.started,
    {
        let kp = new_server_keypair();
        let host_id = keypair_public_key(&kp);
        Host { kp, host_id, started: false }
    }
}

} // verus!
