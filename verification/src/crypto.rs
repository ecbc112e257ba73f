//! Trusted wrappers around the outside cryptographic primitives.
//!
//! The digests and the signature check are functions of their byte inputs
//! alone; their results are given names here, and the rest of the crate is
//! verified against those names.

use vstd::prelude::*;
use rsa::pkcs1::DecodeRsaPublicKey;
use sha1::Digest;

verus! {

pub uninterp spec fn sha1_of(data: Seq<u8>) -> Seq<u8>;

pub uninterp spec fn sha256_of(data: Seq<u8>) -> Seq<u8>;

pub uninterp spec fn rsa_sha256_sig_ok(digest: Seq<u8>, sig: Seq<u8>, key_der: Seq<u8>) -> bool;

/// Relies on sha1::Sha1 through the Digest trait: the digest is 20 bytes and
/// depends on the input bytes alone.
#[verifier::external_body]
pub fn sha1_digest(data: &[u8]) -> (r: Vec<u8>)
    ensures
        r@ == sha1_of(data@),
        r@.len() == 20,
{
    sha1::Sha1::digest(data).to_vec()
}

/// Relies on sha2::Sha256 through the Digest trait: the digest is 32 bytes
/// and depends on the input bytes alone.
#[verifier::external_body]
pub fn sha256_digest(data: &[u8]) -> (r: Vec<u8>)
    ensures
        r@ == sha256_of(data@),
        r@.len() == 32,
{
    sha2::Sha256::digest(data).to_vec()
}

/// Relies on rsa::RsaPublicKey::verify with PKCS#1 v1.5 padding over a
/// SHA-256 digest, the key parsed with rsa::pkcs1::DecodeRsaPublicKey:
/// acceptance depends on the digest, signature and key bytes alone, and a
/// key that does not parse accepts nothing.
#[verifier::external_body]
pub fn rsa_sha256_verify(digest: &[u8], sig: &[u8], key_der: &[u8]) -> (r: bool)
    ensures
        r == rsa_sha256_sig_ok(digest@, sig@, key_der@),
{
    match rsa::RsaPublicKey::from_pkcs1_der(key_der) {
        Ok(key) => key.verify(rsa::Pkcs1v15Sign::new::<sha2::Sha256>(), digest, sig).is_ok(),
        Err(_) => false,
    }
}

} // verus!
