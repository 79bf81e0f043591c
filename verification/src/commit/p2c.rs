//! Pay-to-contract and sign-to-contract: a commitment to a contract in a
//! public key, or in the nonce of a signature.
//!
//! Both rest on one tweak, the digest of the key and the contract hash. In
//! pay-to-contract the tweak is added to the key, which changes; in
//! sign-to-contract it goes into the making of the nonce, and the key stays.

use vstd::prelude::*;

use crate::hashes::{sha256, sha256_of};
use crate::secp::{tweak_public_key, tweaked_public_key_of};

verus! {

/// The tweak that commits a key to a contract: the digest of the key
/// followed by the contract hash.
pub open spec fn contract_tweak_of(key: Seq<u8>, contract: Seq<u8>) -> Seq<u8> {
    sha256_of(key + contract)
}

/// A key committed to a contract: the tweak, and the key with the tweak
/// added.
#[derive(Copy, Clone, PartialEq, Eq, Debug)]
pub struct KeyTweak {
    /// The tweak `t`.
    pub tweak: [u8; 32],
    /// The key `P + t·G`, compressed.
    pub tweaked_key: [u8; 33],
}

/// The tweak that commits a key to a contract.
pub fn contract_tweak(key: &[u8; 33], contract: &[u8; 32]) -> (t: [u8; 32])
    ensures
        t@ == contract_tweak_of(key@, contract@),
{
    let mut text: Vec<u8> = Vec::new();
    crate::bytes::extend(&mut text, key.as_slice());
    crate::bytes::extend(&mut text, contract.as_slice());
    sha256(text.as_slice())
}

/// The key committed to a contract, from the tweak and from what the curve
/// gave for `P + t·G`: nothing where the curve gave nothing.
pub fn key_tweak_from(tweak: [u8; 32], tweaked: Option<[u8; 33]>) -> (r: Option<KeyTweak>)
    ensures
        r == (match tweaked {
            Some(q) => Some(KeyTweak { tweak, tweaked_key: q }),
            None => None,
        }),
{
    match tweaked {
        Some(q) => Some(KeyTweak { tweak, tweaked_key: q }),
        None => None,
    }
}

/// Commits the key `P` to a contract hash `c`: the tweak is `t = H(P ‖ c)`
/// and the new key is `P + t·G`. There is none where `P` is no key, or `t`
/// no scalar, or the sum no key.
pub fn pay_to_contract(key: &[u8; 33], contract: &[u8; 32]) -> (r: Option<KeyTweak>)
    ensures
        match r {
            Some(kt) => {
                &&& kt.tweak@ == contract_tweak_of(key@, contract@)
                &&& tweaked_public_key_of(key@, kt.tweak@) == Some(kt.tweaked_key@)
            },
            None => tweaked_public_key_of(key@, contract_tweak_of(key@, contract@)) is None,
        },
{
    let tweak = contract_tweak(key, contract);
    let tweaked = tweak_public_key(key, &tweak);
    key_tweak_from(tweak, tweaked)
}

/// The data that goes into the nonce of a signature that commits to a
/// contract under the key `P`: the tweak `H(P ‖ c)`. The key is not changed.
pub fn sign_to_contract(key: &[u8; 33], contract: &[u8; 32]) -> (t: [u8; 32])
    ensures
        t@ == contract_tweak_of(key@, contract@),
{
    contract_tweak(key, contract)
}

/// Two contract hashes that are hashed to a tweak from the same text, under
/// one key, are the same.
pub proof fn lemma_contract_text_injective(key: Seq<u8>, c1: Seq<u8>, c2: Seq<u8>)
    requires
        key + c1 == key + c2,
    ensures
        c1 == c2,
{
    assert((key + c1).subrange(key.len() as int, (key + c1).len() as int) =~= c1);
    assert((key + c2).subrange(key.len() as int, (key + c2).len() as int) =~= c2);
}

} // verus!
