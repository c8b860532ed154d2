use crate::store::clone_bytes;
use vstd::prelude::*;

verus! {

/// The SHA-256 digest of a byte sequence. The digest is a fixed function of
/// the input bytes alone; no shorter statement of its value exists, so it is
/// named here and pinned down only by the trusted wrapper below.
pub uninterp spec fn sha256_of(data: Seq<u8>) -> Seq<u8>;

/// Whether `signature` (64 raw bytes, r then s) is a valid ECDSA signature
/// over the prehashed message `digest` under the secp256r1 public key
/// `public_key` (65-byte uncompressed SEC1 point). False whenever the key or
/// signature bytes do not parse. A fixed function of the three byte strings
/// alone.
pub uninterp spec fn p256_verifies(public_key: Seq<u8>, digest: Seq<u8>, signature: Seq<u8>) -> bool;

/// Relies on sha2::Sha256 (through the sha2::Digest trait): the digest is 32
/// bytes and depends on the input bytes alone.
#[verifier::external_body]
pub(crate) fn sha256(data: &Vec<u8>) -> (r: Vec<u8>)
    ensures
        r@ == sha256_of(data@),
        r@.len() == 32,
{
    let digest = <sha2::Sha256 as sha2::Digest>::digest(data.as_slice());
    digest.to_vec()
}

/// Relies on p256::ecdsa::VerifyingKey::from_sec1_bytes,
/// p256::ecdsa::Signature::from_slice and PrehashVerifier::verify_prehash:
/// each returns a Result and never panics, and the verdict depends on the
/// key, digest and signature bytes alone.
#[verifier::external_body]
pub(crate) fn p256_verify(public_key: &Vec<u8>, digest: &Vec<u8>, signature: &Vec<u8>) -> (r: bool)
    ensures
        r == p256_verifies(public_key@, digest@, signature@),
{
    let vk = match p256::ecdsa::VerifyingKey::from_sec1_bytes(public_key.as_slice()) {
        Ok(vk) => vk,
        Err(_) => return false,
    };
    let sig = match p256::ecdsa::Signature::from_slice(signature.as_slice()) {
        Ok(sig) => sig,
        Err(_) => return false,
    };
    p256::ecdsa::signature::hazmat::PrehashVerifier::verify_prehash(
        &vk,
        digest.as_slice(),
        &sig,
    ).is_ok()
}

/// The two-stage WebAuthn signature check: the signed message is the
/// authenticator data followed by the SHA-256 hash of the client data, and
/// the ECDSA-P256 signature is verified over the SHA-256 digest of that
/// message. The two hashes must not be collapsed into one.
pub fn verify(
    public_key: &Vec<u8>,
    authenticator_data: &Vec<u8>,
    client_data_json: &Vec<u8>,
    signature: &Vec<u8>,
) -> (r: bool)
    ensures
        r == p256_verifies(
            public_key@,
            sha256_of(authenticator_data@ + sha256_of(client_data_json@)),
            signature@,
        ),
{
    let mut message = clone_bytes(authenticator_data);
    let mut client_data_hash = sha256(client_data_json);
    message.append(&mut client_data_hash);
    let digest = sha256(&message);
    p256_verify(public_key, &digest, signature)
}

} // verus!
