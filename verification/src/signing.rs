//! The abstract signer: the host's long-lived key pair and the signed
//! claim envelope issued for every invocation.

use vstd::prelude::*;

verus! {

#[verifier::external_type_specification]
#[verifier::external_body]
pub struct ExKeyPair(nkeys::KeyPair);

/// Relies on `nkeys::KeyPair::new_server`: a freshly generated server key
/// pair. The key is random, so nothing is promised of its value.
#[verifier::external_body]
pub fn new_server_keypair() -> nkeys::KeyPair {
    nkeys::KeyPair::new_server()
}

/// Relies on `nkeys::KeyPair::public_key`: the encoded, human-readable
/// public key of the pair.
#[verifier::external_body]
pub fn keypair_public_key(kp: &nkeys::KeyPair) -> String {
    kp.public_key()
}

/// Relies on `wascap::prelude::Claims::<Invocation>::new` and
/// `Claims::encode`: issues a signed token binding issuer, subject, target
/// URL, origin URL and payload hash. The token embeds the issue time, so
/// nothing is promised of its text.
#[verifier::external_body]
pub fn encode_claims(
    kp: &nkeys::KeyPair,
    issuer: &str,
    subject: &str,
    target_url: &str,
    origin_url: &str,
    hash: &str,
) -> Result<String, String> {
    let claims = wascap::prelude::Claims::<wascap::prelude::Invocation>::new(
        issuer.to_string(),
        subject.to_string(),
        target_url,
        origin_url,
        hash,
    );
    claims.encode(kp).map_err(|e| e.to_string())
}

/// Relies on `uuid::Uuid::new_v4`: a fresh random identifier in hyphenated
/// form. The identifier is random; only its documented 36-character shape
/// is stated.
#[verifier::external_body]
pub fn new_invocation_id() -> (r: String)
    ensures
        r@.len() == 36,
{
    uuid::Uuid::new_v4().hyphenated().to_string()
}

} // verus!
