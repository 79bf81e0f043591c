//! Resolving the commitment that an output was asked for: the tweak is
//! computed, the proof is made, and what has to last is written into the
//! proprietary map of the output.

use vstd::pervasive::unreached;
use vstd::prelude::*;

use crate::commit::lnpbp4::{
    commitment_root, entropy_of, fits, lemma_sorted_distinct, lemma_sorted_unique, sort_messages,
    sorted_by_protocol, MultiCommitment, ProtocolMessage,
};
use crate::commit::p2c::{contract_tweak, contract_tweak_of, pay_to_contract};
use crate::commit::tapret::{tapret_commit, tapret_tweak_of, TapretProof, LEAF_VERSION_TAPSCRIPT};
use crate::error::Error;
use crate::hashes::{hash160, hash160_of};
use crate::proprietary::{
    KeyTriple, ProprietaryKey, PSBT_IN_P2C_TWEAK, PSBT_LNPBP4_PREFIX, PSBT_OUT_LNPBP4_ENTROPY,
    PSBT_OUT_LNPBP4_MIN_TREE_DEPTH, PSBT_OUT_TAPRET_COMMITMENT, PSBT_OUT_TAPRET_PROOF,
    PSBT_P2C_PREFIX, PSBT_TAPRET_PREFIX,
};
use crate::psbt::{CommitmentRequest, CommitmentScheme, Output, ProofAux, TweakProof};
use crate::script::{p2pkh, p2pkh_of, p2tr, p2tr_of, p2wpkh, p2wpkh_of};
use crate::secp::{opt_view, tweaked_public_key_of, xonly_tweaked_key_of};

verus! {

/// The key of the minimum tree depth.
pub open spec fn depth_key() -> KeyTriple {
    KeyTriple {
        prefix: PSBT_LNPBP4_PREFIX@,
        subtype: PSBT_OUT_LNPBP4_MIN_TREE_DEPTH,
        key: Seq::empty(),
    }
}

/// The key of the entropy.
pub open spec fn entropy_key() -> KeyTriple {
    KeyTriple { prefix: PSBT_LNPBP4_PREFIX@, subtype: PSBT_OUT_LNPBP4_ENTROPY, key: Seq::empty() }
}

/// The key of the commitment that the output holds.
pub open spec fn commitment_key() -> KeyTriple {
    KeyTriple {
        prefix: PSBT_TAPRET_PREFIX@,
        subtype: PSBT_OUT_TAPRET_COMMITMENT,
        key: Seq::empty(),
    }
}

/// The key of the proof of a taproot anchor.
pub open spec fn proof_key() -> KeyTriple {
    KeyTriple { prefix: PSBT_TAPRET_PREFIX@, subtype: PSBT_OUT_TAPRET_PROOF, key: Seq::empty() }
}

/// The key of the pay-to-contract tweak of a public key.
pub open spec fn p2c_key(key: Seq<u8>) -> KeyTriple {
    KeyTriple { prefix: PSBT_P2C_PREFIX@, subtype: PSBT_IN_P2C_TWEAK, key }
}

/// Whether a row holds exactly the protocol messages that an output stores.
pub open spec fn holds_exactly(out: Output, msgs: Seq<ProtocolMessage>) -> bool {
    forall|m: ProtocolMessage| msgs.contains(m) <==> out.stores(m)
}

/// The protocol messages that an output stores, in the order of their
/// protocol identifiers.
pub open spec fn stored_messages(out: Output) -> Seq<ProtocolMessage> {
    choose|msgs: Seq<ProtocolMessage>| sorted_by_protocol(msgs) && holds_exactly(out, msgs)
}

/// The root over the protocol messages that an output stores.
pub open spec fn stored_root(out: Output, depth: u8) -> Seq<u8> {
    commitment_root(stored_messages(out), depth as nat)
}

/// What stands in the way of a multi-protocol commitment: depth or entropy
/// are written already, or the tree has too few leaves.
pub open spec fn mpc_error(out: Output, depth: u8, index: usize) -> Option<Error> {
    if out.proprietary@.contains_key(depth_key()) || out.proprietary@.contains_key(entropy_key()) {
        Some(Error::CommitmentAlreadyPresent { output: index })
    } else if !fits(stored_messages(out).len(), depth) {
        Some(Error::DepthExceeded)
    } else {
        None
    }
}

/// The proprietary map with the depth and the entropy of a multi-protocol
/// commitment written into it.
pub open spec fn mpc_map(out: Output, depth: u8) -> Map<KeyTriple, Seq<u8>> {
    out.proprietary@.insert(depth_key(), seq![depth]).insert(
        entropy_key(),
        entropy_of(stored_messages(out)),
    )
}

/// The message that a taproot anchor commits to: the one given, or the root
/// over the stored protocol messages.
pub open spec fn anchor_message(out: Output, message: Option<[u8; 32]>, depth: u8) -> Seq<u8> {
    match message {
        Some(m) => m@,
        None => stored_root(out, depth),
    }
}

/// A script that pays to the hash of `key`, made to pay to the hash of
/// `new_key`; any other script as it is.
pub open spec fn retarget(script: Seq<u8>, key: Seq<u8>, new_key: Seq<u8>) -> Seq<u8> {
    if script == p2wpkh_of(hash160_of(key)) {
        p2wpkh_of(hash160_of(new_key))
    } else if script == p2pkh_of(hash160_of(key)) {
        p2pkh_of(hash160_of(new_key))
    } else {
        script
    }
}

/// What stands in the way of resolving a request on an output.
pub open spec fn request_error(out: Output, request: CommitmentRequest, index: usize) -> Option<
    Error,
> {
    let map = out.proprietary@;
    let present = Some(Error::CommitmentAlreadyPresent { output: index });
    match request {
        CommitmentRequest::MultiProtocol { min_depth } => if map.contains_key(commitment_key()) {
            present
        } else {
            mpc_error(out, min_depth, index)
        },
        CommitmentRequest::PayToContract { key, contract } => if map.contains_key(p2c_key(key@)) {
            present
        } else if tweaked_public_key_of(key@, contract_tweak_of(key@, contract@)) is None {
            Some(Error::InvalidFormat)
        } else {
            None
        },
        CommitmentRequest::SignToContract { .. } => None,
        CommitmentRequest::TaprootAnchor { internal_key, script_root, message, min_depth } => if map.contains_key(
            commitment_key(),
        ) || map.contains_key(proof_key()) {
            present
        } else if message is None && mpc_error(out, min_depth, index) is Some {
            mpc_error(out, min_depth, index)
        } else if xonly_tweaked_key_of(
            internal_key@,
            tapret_tweak_of(
                internal_key@,
                opt_view(script_root),
                anchor_message(out, message, min_depth),
                0,
            ),
        ) is None {
            Some(Error::InvalidFormat)
        } else {
            None
        },
    }
}

/// What stands in the way of resolving the commitment of an output: nothing
/// where none was asked for; the proof that is there already; or what stands
/// in the way of the request.
pub open spec fn resolution_error(out: Output, index: usize) -> Option<Error> {
    match out.host {
        None => None,
        Some(request) => if out.proof is Some {
            Some(Error::CommitmentAlreadyPresent { output: index })
        } else {
            request_error(out, request, index)
        },
    }
}

/// Whether `new` is the output `old` with its commitment resolved: amount
/// and request are kept, and proof, script and proprietary map are those of
/// the scheme.
pub open spec fn is_resolution(old: Output, index: usize, new: Output) -> bool {
    &&& new.value == old.value
    &&& new.host == old.host
    &&& old.host is Some
    &&& new.proof is Some
    &&& new.proof->0.output == index
    &&& match old.host->0 {
        CommitmentRequest::MultiProtocol { min_depth } => {
            &&& new.proof->0.scheme == CommitmentScheme::MultiProtocol
            &&& new.proof->0.applied@ == stored_root(old, min_depth)
            &&& new.proof->0.aux == (ProofAux::Merkle { sibling: None, depth: min_depth })
            &&& new.script@ == old.script@
            &&& new.proprietary@ == mpc_map(old, min_depth).insert(
                commitment_key(),
                stored_root(old, min_depth),
            )
        },
        CommitmentRequest::PayToContract { key, contract } => {
            let tweak = contract_tweak_of(key@, contract@);
            &&& new.proof->0.scheme == CommitmentScheme::PayToContract
            &&& new.proof->0.applied@ == tweak
            &&& new.proof->0.aux == (ProofAux::Contract { hash: contract })
            &&& new.script@ == retarget(old.script@, key@, tweaked_public_key_of(key@, tweak)->0)
            &&& new.proprietary@ == old.proprietary@.insert(p2c_key(key@), tweak)
        },
        CommitmentRequest::SignToContract { key, contract } => {
            &&& new.proof->0.scheme == CommitmentScheme::SignToContract
            &&& new.proof->0.applied@ == contract_tweak_of(key@, contract@)
            &&& new.proof->0.aux == (ProofAux::Contract { hash: contract })
            &&& new.script@ == old.script@
            &&& new.proprietary@ == old.proprietary@
        },
        CommitmentRequest::TaprootAnchor { internal_key, script_root, message, min_depth } => {
            let committed = anchor_message(old, message, min_depth);
            let tweak = tapret_tweak_of(internal_key@, opt_view(script_root), committed, 0);
            let proof = TapretProof {
                internal_key,
                partner: script_root,
                leaf_version: LEAF_VERSION_TAPSCRIPT,
                nonce: 0,
            };
            let base = if message is None {
                mpc_map(old, min_depth)
            } else {
                old.proprietary@
            };
            let (output_key, odd) = xonly_tweaked_key_of(internal_key@, tweak)->0;
            &&& new.proof->0.scheme == CommitmentScheme::TaprootAnchor
            &&& new.proof->0.applied@ == tweak
            &&& new.proof->0.aux == (ProofAux::Merkle {
                sibling: script_root,
                depth: if script_root is Some {
                    1u8
                } else {
                    0u8
                },
            })
            &&& new.script@ == p2tr_of(output_key)
            &&& new.proprietary@ == base.insert(commitment_key(), committed).insert(
                proof_key(),
                proof.bytes_of(),
            )
        },
    }
}

/// The multi-protocol commitment over the messages that an output stores.
fn plan_mpc(out: &Output, depth: u8, index: usize) -> (r: Result<MultiCommitment, Error>)
    ensures
        match r {
            Ok(c) => {
                &&& mpc_error(*out, depth, index) is None
                &&& c.wf()
                &&& c.depth == depth
                &&& c.messages@ == stored_messages(*out)
            },
            Err(e) => mpc_error(*out, depth, index) == Some(e),
        },
{
    let lnpbp4 = PSBT_LNPBP4_PREFIX;
    let none: [u8; 0] = [];
    assert(none@ =~= Seq::<u8>::empty());
    if out.proprietary.contains(lnpbp4.as_slice(), PSBT_OUT_LNPBP4_MIN_TREE_DEPTH, none.as_slice())
        || out.proprietary.contains(lnpbp4.as_slice(), PSBT_OUT_LNPBP4_ENTROPY, none.as_slice()) {
        return Err(Error::CommitmentAlreadyPresent { output: index });
    }
    let found = out.lnpbp4_messages();
    let sorted = match sort_messages(found.as_slice()) {
        Some(sorted) => sorted,
        // the messages that a map stores are for distinct protocols
        None => unreached(),
    };
    proof {
        assert(holds_exactly(*out, sorted@)) by {
            assert forall|m: ProtocolMessage| sorted@.contains(m) <==> out.stores(m) by {
                assert(sorted@.contains(m) <==> found@.contains(m));
            }
        }
        lemma_sorted_unique(sorted@, stored_messages(*out));
        lemma_sorted_distinct(sorted@);
    }
    match MultiCommitment::commit(sorted.as_slice(), depth) {
        Ok(c) => {
            proof {
                assert(holds_exactly(*out, c.messages@)) by {
                    assert forall|m: ProtocolMessage| c.messages@.contains(m) <==> out.stores(
                        m,
                    ) by {
                        assert(c.messages@.contains(m) <==> sorted@.contains(m));
                    }
                }
                lemma_sorted_unique(c.messages@, stored_messages(*out));
            }
            Ok(c)
        },
        Err(e) => Err(e),
    }
}

/// The key with a prefix and a subtype and no key data.
fn plain_key(prefix: &[u8], subtype: u64) -> (k: ProprietaryKey)
    ensures
        k@ == (KeyTriple { prefix: prefix@, subtype, key: Seq::empty() }),
{
    let none: [u8; 0] = [];
    assert(none@ =~= Seq::<u8>::empty());
    ProprietaryKey::new(prefix, subtype, none.as_slice())
}

/// Whether the map of an output holds the key with a prefix and a subtype
/// and no key data.
fn holds_plain(out: &Output, prefix: &[u8], subtype: u64) -> (r: bool)
    ensures
        r == out.proprietary@.contains_key(
            KeyTriple { prefix: prefix@, subtype, key: Seq::empty() },
        ),
{
    let none: [u8; 0] = [];
    assert(none@ =~= Seq::<u8>::empty());
    out.proprietary.contains(prefix, subtype, none.as_slice())
}

/// Writes depth and entropy of a multi-protocol commitment into the map of
/// an output.
fn write_mpc(out: &mut Output, c: &MultiCommitment)
    requires
        mpc_error(*old(out), c.depth, 0) is None,
        c.wf(),
        c.messages@ == stored_messages(*old(out)),
    ensures
        final(out).proprietary@ == mpc_map(*old(out), c.depth),
        final(out).script == old(out).script,
        final(out).value == old(out).value,
        final(out).host == old(out).host,
        final(out).proof == old(out).proof,
{
    let lnpbp4 = PSBT_LNPBP4_PREFIX;
    let mut depth: Vec<u8> = Vec::new();
    depth.push(c.depth);
    assert(depth@ =~= seq![c.depth]);
    out.proprietary.insert(plain_key(lnpbp4.as_slice(), PSBT_OUT_LNPBP4_MIN_TREE_DEPTH), depth);
    out.proprietary.insert(
        plain_key(lnpbp4.as_slice(), PSBT_OUT_LNPBP4_ENTROPY),
        crate::bytes::to_vec(c.entropy.as_slice()),
    );
}

/// The script of an output with a pay-to-contract commitment: where the
/// script pays to the hash of the key, it is made to pay to the hash of the
/// tweaked key.
fn retargeted(script: &[u8], key: &[u8; 33], new_key: &[u8; 33]) -> (s: Vec<u8>)
    ensures
        s@ == retarget(script@, key@, new_key@),
{
    let old_hash = hash160(key.as_slice());
    let new_hash = hash160(new_key.as_slice());
    if crate::bytes::equal(script, p2wpkh(&old_hash).as_slice()) {
        p2wpkh(&new_hash)
    } else if crate::bytes::equal(script, p2pkh(&old_hash).as_slice()) {
        p2pkh(&new_hash)
    } else {
        crate::bytes::to_vec(script)
    }
}

/// Resolves the commitment that an output was asked for. Where none was
/// asked for, nothing is done and `false` is returned. Where the output has
/// a proof already, or the map holds an entry that resolving would write,
/// the output is refused with `CommitmentAlreadyPresent`; where the tree has
/// too few leaves for the stored messages, with `DepthExceeded`; where the
/// curve has no key for the request, with `InvalidFormat`. An output that is
/// refused is left as it was.
pub fn resolve(out: &mut Output, index: usize) -> (r: Result<bool, Error>)
    ensures
        match r {
            Ok(changed) => {
                &&& resolution_error(*old(out), index) is None
                &&& changed == old(out).host is Some
                &&& changed ==> is_resolution(*old(out), index, *final(out))
                &&& !changed ==> *final(out) == *old(out)
            },
            Err(e) => resolution_error(*old(out), index) == Some(e) && *final(out) == *old(out),
        },
        old(out).wf() ==> final(out).wf(),
{
    let request = match out.host {
        Some(request) => request,
        None => {
            return Ok(false);
        },
    };
    if out.proof.is_some() {
        return Err(Error::CommitmentAlreadyPresent { output: index });
    }
    let tapret = PSBT_TAPRET_PREFIX;
    let ghost before = *out;
    match request {
        CommitmentRequest::MultiProtocol { min_depth } => {
            if holds_plain(out, tapret.as_slice(), PSBT_OUT_TAPRET_COMMITMENT) {
                return Err(Error::CommitmentAlreadyPresent { output: index });
            }
            let c = match plan_mpc(out, min_depth, index) {
                Ok(c) => c,
                Err(e) => {
                    return Err(e);
                },
            };
            write_mpc(out, &c);
            out.proprietary.insert(
                plain_key(tapret.as_slice(), PSBT_OUT_TAPRET_COMMITMENT),
                crate::bytes::to_vec(c.root.as_slice()),
            );
            out.proof = Some(
                TweakProof {
                    scheme: CommitmentScheme::MultiProtocol,
                    applied: c.root,
                    aux: ProofAux::Merkle { sibling: None, depth: min_depth },
                    output: index,
                },
            );
            Ok(true)
        },
        CommitmentRequest::PayToContract { key, contract } => {
            let p2c = PSBT_P2C_PREFIX;
            if out.proprietary.contains(p2c.as_slice(), PSBT_IN_P2C_TWEAK, key.as_slice()) {
                return Err(Error::CommitmentAlreadyPresent { output: index });
            }
            let kt = match pay_to_contract(&key, &contract) {
                Some(kt) => kt,
                None => {
                    return Err(Error::InvalidFormat);
                },
            };
            let script = retargeted(out.script.as_slice(), &key, &kt.tweaked_key);
            out.script = script;
            out.proprietary.insert(
                ProprietaryKey::new(p2c.as_slice(), PSBT_IN_P2C_TWEAK, key.as_slice()),
                crate::bytes::to_vec(kt.tweak.as_slice()),
            );
            out.proof = Some(
                TweakProof {
                    scheme: CommitmentScheme::PayToContract,
                    applied: kt.tweak,
                    aux: ProofAux::Contract { hash: contract },
                    output: index,
                },
            );
            Ok(true)
        },
        CommitmentRequest::SignToContract { key, contract } => {
            let tweak = contract_tweak(&key, &contract);
            out.proof = Some(
                TweakProof {
                    scheme: CommitmentScheme::SignToContract,
                    applied: tweak,
                    aux: ProofAux::Contract { hash: contract },
                    output: index,
                },
            );
            Ok(true)
        },
        CommitmentRequest::TaprootAnchor { internal_key, script_root, message, min_depth } => {
            if holds_plain(out, tapret.as_slice(), PSBT_OUT_TAPRET_COMMITMENT) || holds_plain(
                out,
                tapret.as_slice(),
                PSBT_OUT_TAPRET_PROOF,
            ) {
                return Err(Error::CommitmentAlreadyPresent { output: index });
            }
            let (committed, plan) = match message {
                Some(m) => (m, None),
                None => match plan_mpc(out, min_depth, index) {
                    Ok(c) => (c.root, Some(c)),
                    Err(e) => {
                        return Err(e);
                    },
                },
            };
            let anchored = match tapret_commit(&internal_key, script_root, &committed) {
                Some(anchored) => anchored,
                None => {
                    return Err(Error::InvalidFormat);
                },
            };
            match &plan {
                Some(c) => {
                    write_mpc(out, c);
                },
                None => {},
            }
            out.proprietary.insert(
                plain_key(tapret.as_slice(), PSBT_OUT_TAPRET_COMMITMENT),
                crate::bytes::to_vec(committed.as_slice()),
            );
            out.proprietary.insert(
                plain_key(tapret.as_slice(), PSBT_OUT_TAPRET_PROOF),
                anchored.proof.encode(),
            );
            out.script = p2tr(&anchored.output_key);
            out.proof = Some(
                TweakProof {
                    scheme: CommitmentScheme::TaprootAnchor,
                    applied: anchored.tweak,
                    aux: ProofAux::Merkle {
                        sibling: script_root,
                        depth: if script_root.is_some() {
                            1
                        } else {
                            0
                        },
                    },
                    output: index,
                },
            );
            Ok(true)
        },
    }
}

} // verus!
