//! The process-wide server data: the RSA keypair, generated once per run
//! and shared read-only by every connection.  The accept loop that hands
//! sockets to connections lives outside the library.

use vstd::prelude::*;

use rsa::{RsaPrivateKey, RsaPublicKey};

verus! {

/// What every connection shares: the server's keypair.
#[derive(Clone)]
pub struct ServerData {
    pub private_key: RsaPrivateKey,
    pub public_key: RsaPublicKey,
}

impl ServerData {
    /// Generate the keypair for this server run; `None` when generation
    /// fails.
    pub fn generate() -> Option<ServerData> {
        match crate::rsa_util::generate_rsa_keypair() {
            Some((private_key, public_key)) => Some(ServerData { private_key, public_key }),
            None => None,
        }
    }
}

} // verus!
