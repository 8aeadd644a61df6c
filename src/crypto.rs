use vstd::prelude::*;

use rsa::pkcs1::FromRsaPublicKey;
use rsa::PublicKey;
use sha2::Digest;

verus! {

/// The SHA-256 digest of a byte sequence.
pub uninterp spec fn sha256_of(bytes: Seq<u8>) -> Seq<u8>;

/// Relies on sha2::Sha256::digest: the 32-byte SHA-256 digest of the input.
#[verifier::external_body]
pub fn sha256(bytes: &[u8]) -> (r: Vec<u8>)
    ensures
        r@ == sha256_of(bytes@),
        r@.len() == 32,
{
    sha2::Sha256::digest(bytes).to_vec()
}

/// Whether `signature` is a valid RSA PKCS#1 v1.5 signature, with SHA-256
/// as the digest algorithm, of the digest `digest` under the public key whose
/// PKCS#1 DER encoding is `key`.
pub uninterp spec fn signature_valid(key: Seq<u8>, digest: Seq<u8>, signature: Seq<u8>) -> bool;

/// Relies on rsa::RsaPublicKey::from_pkcs1_der to read the key and on
/// rsa::PublicKey::verify with PKCS#1 v1.5 padding over SHA-256 to check the
/// signature; bytes that are no key give `false`.
#[verifier::external_body]
pub fn verify_signature(key: &[u8], digest: &[u8], signature: &[u8]) -> (r: bool)
    ensures
        r == signature_valid(key@, digest@, signature@),
{
    match rsa::RsaPublicKey::from_pkcs1_der(key) {
        Ok(k) => k.verify(rsa::PaddingScheme::new_pkcs1v15_sign(Some(rsa::Hash::SHA2_256)), digest, signature).is_ok(),
        Err(_) => false,
    }
}

/// An RSA private key; nothing inside it is read here.
#[verifier::external_type_specification]
#[verifier::external_body]
pub struct ExRsaPrivateKey(rsa::RsaPrivateKey);

/// Relies on rsa::RsaPrivateKey::sign with PKCS#1 v1.5 padding over SHA-256:
/// the signature of `digest`, or `None` when the key cannot sign it.
#[verifier::external_body]
pub fn sign_digest(key: &rsa::RsaPrivateKey, digest: &[u8]) -> (r: Option<Vec<u8>>) {
    key.sign(rsa::PaddingScheme::new_pkcs1v15_sign(Some(rsa::Hash::SHA2_256)), digest).ok()
}

} // verus!
