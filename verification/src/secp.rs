//! Keys, tweaks and signatures on the curve secp256k1.
//!
//! All of it is the work of the crate `secp256k1`, reached through
//! `bitcoin::secp256k1`; the library hands it bytes and takes bytes back.
//! Every result is a function of the bytes handed in: signatures are made
//! with the deterministic nonce of RFC 6979, or without auxiliary randomness.

use bitcoin::secp256k1::{Keypair, Message, PublicKey, Scalar, Secp256k1, SecretKey, XOnlyPublicKey};
use vstd::prelude::*;

verus! {

/// An optional array as an optional byte string.
pub open spec fn opt_view<const N: usize>(r: Option<[u8; N]>) -> Option<Seq<u8>> {
    match r {
        Some(a) => Some(a@),
        None => None,
    }
}

/// The compressed public key of a secret key; `None` where the 32 bytes are
/// no secret key (zero, or not below the order of the curve).
pub uninterp spec fn public_key_of(secret: Seq<u8>) -> Option<Seq<u8>>;

/// The x-only public key of a secret key; `None` where the 32 bytes are no
/// secret key.
pub uninterp spec fn xonly_public_key_of(secret: Seq<u8>) -> Option<Seq<u8>>;

/// The public key `P + t·G` for a compressed public key `P` and a tweak `t`;
/// `None` where the bytes are no key or no scalar, or the sum is no key.
pub uninterp spec fn tweaked_public_key_of(key: Seq<u8>, tweak: Seq<u8>) -> Option<Seq<u8>>;

/// The secret key `d + t` modulo the order of the curve; `None` where the
/// bytes are no key or no scalar, or the sum is no key.
pub uninterp spec fn tweaked_secret_key_of(secret: Seq<u8>, tweak: Seq<u8>) -> Option<Seq<u8>>;

/// The x-only key `P + t·G` for an x-only key `P`, and whether its `y` is
/// odd; `None` where the bytes are no key or no scalar, or the sum is no key.
pub uninterp spec fn xonly_tweaked_key_of(key: Seq<u8>, tweak: Seq<u8>) -> Option<(Seq<u8>, bool)>;

/// The secret key that belongs to the x-only key `P + t·G`, where `P` is the
/// x-only key of the secret key handed in; `None` where the bytes are no key
/// or no scalar, or the sum is no key.
pub uninterp spec fn xonly_tweaked_secret_of(secret: Seq<u8>, tweak: Seq<u8>) -> Option<Seq<u8>>;

/// The ECDSA signature of a 32-byte digest under a secret key, in DER form;
/// `None` where the 32 bytes are no secret key.
pub uninterp spec fn ecdsa_signature_of(digest: Seq<u8>, secret: Seq<u8>) -> Option<Seq<u8>>;

/// The ECDSA signature of a 32-byte digest under a secret key, with 32 bytes
/// of data folded into the making of the nonce, in DER form; `None` where the
/// 32 bytes are no secret key.
pub uninterp spec fn ecdsa_signature_with_nonce_data_of(
    digest: Seq<u8>,
    secret: Seq<u8>,
    data: Seq<u8>,
) -> Option<Seq<u8>>;

/// The BIP 340 signature of a 32-byte digest under a secret key, made without
/// auxiliary randomness; `None` where the 32 bytes are no secret key.
pub uninterp spec fn schnorr_signature_of(digest: Seq<u8>, secret: Seq<u8>) -> Option<Seq<u8>>;

/// `PublicKey::from_secret_key` on the key that `SecretKey::from_slice`
/// reads, written out by `serialize`.
#[verifier::external_body]
pub(crate) fn public_key(secret: &[u8; 32]) -> (r: Option<[u8; 33]>)
    ensures
        opt_view(r) == public_key_of(secret@),
{
    let sk = SecretKey::from_slice(secret).ok()?;
    Some(PublicKey::from_secret_key(&Secp256k1::new(), &sk).serialize())
}

/// `Keypair::x_only_public_key` on the pair that `Keypair::from_seckey_slice`
/// makes, written out by `serialize`.
#[verifier::external_body]
pub(crate) fn xonly_public_key(secret: &[u8; 32]) -> (r: Option<[u8; 32]>)
    ensures
        opt_view(r) == xonly_public_key_of(secret@),
{
    let pair = Keypair::from_seckey_slice(&Secp256k1::new(), secret).ok()?;
    Some(pair.x_only_public_key().0.serialize())
}

/// `PublicKey::add_exp_tweak` on the key that `PublicKey::from_slice` reads
/// and the scalar that `Scalar::from_be_bytes` reads, written out by
/// `serialize`.
#[verifier::external_body]
pub(crate) fn tweak_public_key(key: &[u8; 33], tweak: &[u8; 32]) -> (r: Option<[u8; 33]>)
    ensures
        opt_view(r) == tweaked_public_key_of(key@, tweak@),
{
    let pk = PublicKey::from_slice(key).ok()?;
    let t = Scalar::from_be_bytes(*tweak).ok()?;
    Some(pk.add_exp_tweak(&Secp256k1::new(), &t).ok()?.serialize())
}

/// `SecretKey::add_tweak` on the key that `SecretKey::from_slice` reads and
/// the scalar that `Scalar::from_be_bytes` reads, written out by
/// `secret_bytes`.
#[verifier::external_body]
pub(crate) fn tweak_secret_key(secret: &[u8; 32], tweak: &[u8; 32]) -> (r: Option<[u8; 32]>)
    ensures
        opt_view(r) == tweaked_secret_key_of(secret@, tweak@),
{
    let sk = SecretKey::from_slice(secret).ok()?;
    let t = Scalar::from_be_bytes(*tweak).ok()?;
    Some(sk.add_tweak(&t).ok()?.secret_bytes())
}

/// `XOnlyPublicKey::add_tweak` on the key that `XOnlyPublicKey::from_slice`
/// reads and the scalar that `Scalar::from_be_bytes` reads; the key is
/// written out by `serialize`, and the flag says whether the parity is odd.
#[verifier::external_body]
pub(crate) fn tweak_xonly_key(key: &[u8; 32], tweak: &[u8; 32]) -> (r: Option<([u8; 32], bool)>)
    ensures
        match r {
            Some((k, odd)) => xonly_tweaked_key_of(key@, tweak@) == Some((k@, odd)),
            None => xonly_tweaked_key_of(key@, tweak@) is None,
        },
{
    let pk = XOnlyPublicKey::from_slice(key).ok()?;
    let t = Scalar::from_be_bytes(*tweak).ok()?;
    let (out, parity) = pk.add_tweak(&Secp256k1::new(), &t).ok()?;
    Some((out.serialize(), parity == bitcoin::secp256k1::Parity::Odd))
}

/// `Keypair::add_xonly_tweak` on the pair that `Keypair::from_seckey_slice`
/// makes and the scalar that `Scalar::from_be_bytes` reads, written out by
/// `secret_bytes`.
#[verifier::external_body]
pub(crate) fn tweak_xonly_secret(secret: &[u8; 32], tweak: &[u8; 32]) -> (r: Option<[u8; 32]>)
    ensures
        opt_view(r) == xonly_tweaked_secret_of(secret@, tweak@),
{
    let secp = Secp256k1::new();
    let pair = Keypair::from_seckey_slice(&secp, secret).ok()?;
    let t = Scalar::from_be_bytes(*tweak).ok()?;
    Some(pair.add_xonly_tweak(&secp, &t).ok()?.secret_bytes())
}

/// `Secp256k1::sign_ecdsa` on the digest and the key that
/// `SecretKey::from_slice` reads, written out by `serialize_der`.
#[verifier::external_body]
pub(crate) fn sign_ecdsa(digest: &[u8; 32], secret: &[u8; 32]) -> (r: Option<Vec<u8>>)
    ensures
        match r {
            Some(sig) => ecdsa_signature_of(digest@, secret@) == Some(sig@),
            None => ecdsa_signature_of(digest@, secret@) is None,
        },
{
    let sk = SecretKey::from_slice(secret).ok()?;
    let sig = Secp256k1::new().sign_ecdsa(&Message::from_digest(*digest), &sk);
    Some(sig.serialize_der().to_vec())
}

/// `Secp256k1::sign_ecdsa_with_noncedata` on the digest, the key that
/// `SecretKey::from_slice` reads and the nonce data, written out by
/// `serialize_der`.
#[verifier::external_body]
pub(crate) fn sign_ecdsa_with_nonce_data(
    digest: &[u8; 32],
    secret: &[u8; 32],
    data: &[u8; 32],
) -> (r: Option<Vec<u8>>)
    ensures
        match r {
            Some(sig) => ecdsa_signature_with_nonce_data_of(digest@, secret@, data@) == Some(sig@),
            None => ecdsa_signature_with_nonce_data_of(digest@, secret@, data@) is None,
        },
{
    let sk = SecretKey::from_slice(secret).ok()?;
    let msg = Message::from_digest(*digest);
    let sig = Secp256k1::new().sign_ecdsa_with_noncedata(&msg, &sk, data);
    Some(sig.serialize_der().to_vec())
}

/// `Secp256k1::sign_schnorr_no_aux_rand` on the digest and the pair that
/// `Keypair::from_seckey_slice` makes, written out by `serialize`.
#[verifier::external_body]
pub(crate) fn sign_schnorr(digest: &[u8; 32], secret: &[u8; 32]) -> (r: Option<[u8; 64]>)
    ensures
        opt_view(r) == schnorr_signature_of(digest@, secret@),
{
    let secp = Secp256k1::new();
    let pair = Keypair::from_seckey_slice(&secp, secret).ok()?;
    Some(secp.sign_schnorr_no_aux_rand(&Message::from_digest(*digest), &pair).serialize())
}

} // verus!
