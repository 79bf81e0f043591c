//! The hash functions that commitments and scripts are built on.

use vstd::prelude::*;

verus! {

/// The SHA-256 digest of a byte string, as `bitcoin::hashes::sha256` computes
/// it.
pub uninterp spec fn sha256_of(data: Seq<u8>) -> Seq<u8>;

/// The HASH160 of a byte string (RIPEMD-160 of its SHA-256), as
/// `bitcoin::hashes::hash160` computes it.
pub uninterp spec fn hash160_of(data: Seq<u8>) -> Seq<u8>;

/// `hash` of `bitcoin::hashes::sha256::Hash`: the 32 bytes of the digest.
#[verifier::external_body]
pub(crate) fn sha256(data: &[u8]) -> (r: [u8; 32])
    ensures
        r@ == sha256_of(data@),
{
    let digest = <bitcoin::hashes::sha256::Hash as bitcoin::hashes::Hash>::hash(data);
    bitcoin::hashes::Hash::to_byte_array(digest)
}

/// `hash` of `bitcoin::hashes::hash160::Hash`: the 20 bytes of the digest.
#[verifier::external_body]
pub(crate) fn hash160(data: &[u8]) -> (r: [u8; 20])
    ensures
        r@ == hash160_of(data@),
{
    let digest = <bitcoin::hashes::hash160::Hash as bitcoin::hashes::Hash>::hash(data);
    bitcoin::hashes::Hash::to_byte_array(digest)
}

/// The digest of a message under a tag: the SHA-256 of the tag's digest
/// twice and then the message.
pub open spec fn tagged_hash_of(tag: Seq<u8>, message: Seq<u8>) -> Seq<u8> {
    sha256_of(sha256_of(tag) + sha256_of(tag) + message)
}

/// The digest of a message under a tag.
pub fn tagged_hash(tag: &[u8], message: &[u8]) -> (r: [u8; 32])
    ensures
        r@ == tagged_hash_of(tag@, message@),
{
    let t = sha256(tag);
    let mut buf: Vec<u8> = Vec::new();
    crate::bytes::extend(&mut buf, t.as_slice());
    crate::bytes::extend(&mut buf, t.as_slice());
    crate::bytes::extend(&mut buf, message);
    sha256(buf.as_slice())
}

} // verus!
