//! The server's RSA keypair: generation, DER export of the public key, and
//! decryption of the login handshake's encrypted blocks.  All of it is the
//! rsa crate's work behind trusted declarations; nothing is assumed of the
//! values beyond what the crate's interface shows.

use vstd::prelude::*;

use rsa::pkcs8::EncodePublicKey;
use rsa::{Pkcs1v15Encrypt, RsaPrivateKey, RsaPublicKey};

verus! {

/// The rsa crate's private key type, opaque to the library's proofs.
#[verifier::external_type_specification]
#[verifier::external_body]
pub struct ExRsaPrivateKey(RsaPrivateKey);

/// The rsa crate's public key type, opaque to the library's proofs.
#[verifier::external_type_specification]
#[verifier::external_body]
pub struct ExRsaPublicKey(RsaPublicKey);

/// Relies on `rsa::RsaPrivateKey::clone`: a private key can be duplicated;
/// nothing is assumed of the copy.
pub assume_specification[ <RsaPrivateKey as Clone>::clone ](key: &RsaPrivateKey) -> RsaPrivateKey;

/// Relies on `rsa::RsaPublicKey::clone`: a public key can be duplicated;
/// nothing is assumed of the copy.
pub assume_specification[ <RsaPublicKey as Clone>::clone ](key: &RsaPublicKey) -> RsaPublicKey;

/// The RSA key size the server generates.
pub const RSA_KEY_BITS: usize = 1024;

/// Relies on `rsa::RsaPrivateKey::new` with the thread's RNG: a fresh
/// private key, or nothing when generation fails.
#[verifier::external_body]
fn generate_private_key() -> Option<RsaPrivateKey> {
    RsaPrivateKey::new(&mut rand::thread_rng(), RSA_KEY_BITS).ok()
}

/// Relies on `rsa::RsaPublicKey::from`: the public half of a private key.
#[verifier::external_body]
fn derive_public_key(private_key: &RsaPrivateKey) -> RsaPublicKey {
    RsaPublicKey::from(private_key)
}

/// Generate the server's keypair, once per run; `None` when the underlying
/// generation fails.
pub fn generate_rsa_keypair() -> Option<(RsaPrivateKey, RsaPublicKey)> {
    match generate_private_key() {
        Some(private_key) => {
            let public_key: RsaPublicKey = derive_public_key(&private_key);
            Some((private_key, public_key))
        },
        None => None,
    }
}

/// Relies on `rsa::pkcs8::EncodePublicKey::to_public_key_der`: the DER form
/// of the public key as plain bytes, or nothing when encoding fails.
#[verifier::external_body]
pub fn public_key_der(public_key: &RsaPublicKey) -> Option<Vec<u8>> {
    match public_key.to_public_key_der() {
        Ok(der) => Some(der.as_bytes().to_vec()),
        Err(_) => None,
    }
}

/// Relies on `rsa::RsaPrivateKey::decrypt` with PKCS#1 v1.5 padding: the
/// recovered plaintext, or nothing when decryption fails.  Nothing is
/// assumed of the recovered bytes; callers must hold for every value.
#[verifier::external_body]
pub fn rsa_decrypt(private_key: &RsaPrivateKey, data: &Vec<u8>) -> Option<Vec<u8>> {
    private_key.decrypt(Pkcs1v15Encrypt, data.as_slice()).ok()
}

} // verus!
