use bitcoin::secp256k1::{PublicKey, Secp256k1, SecretKey};
use psbt_core::commit::lnpbp4::{MultiCommitment, ProtocolMessage};
use psbt_core::commit::p2c::{contract_tweak, pay_to_contract};
use psbt_core::commit::tapret::tapret_commit;
use psbt_core::script::{p2pkh, p2tr, p2wpkh, p2wsh};
use psbt_core::{
    CommitmentRequest, CommitmentScheme, Error, ErrorKind, Fingerprint, Input, Output, PartialSig,
    Phase, ProofAux, Psbt, PsbtVersion, TweakProof, Xpub, XpubOrigin, XpubRef,
};

fn hash160(data: &[u8]) -> [u8; 20] {
    let digest = <bitcoin::hashes::hash160::Hash as bitcoin::hashes::Hash>::hash(data);
    bitcoin::hashes::Hash::to_byte_array(digest)
}

fn public_key(byte: u8) -> [u8; 33] {
    let sk = SecretKey::from_slice(&[byte; 32]).unwrap();
    PublicKey::from_secret_key(&Secp256k1::new(), &sk).serialize()
}

fn xonly_key(byte: u8) -> [u8; 32] {
    let sk = SecretKey::from_slice(&[byte; 32]).unwrap();
    PublicKey::from_secret_key(&Secp256k1::new(), &sk).x_only_public_key().0.serialize()
}

fn message(protocol: u8, body: u8) -> ProtocolMessage {
    ProtocolMessage { protocol: [protocol; 32], message: [body; 32] }
}

#[test]
fn new_container_is_empty_and_commits() {
    let psbt = Psbt::new(PsbtVersion::default(), 2);
    assert_eq!(psbt.version(), PsbtVersion::V2);
    assert_eq!(psbt.tx_version(), 2);
    assert_eq!(psbt.phase(), Phase::Commit);
    assert_eq!(psbt.input_count(), 0);
    assert_eq!(psbt.output_count(), 0);
    assert_eq!(psbt.xpub_count(), 0);
    assert_eq!(psbt.lock_time(), 0);
    assert_eq!(psbt.tx_modifiable(), None);
}

#[test]
fn fields_of_the_legacy_version() {
    let mut psbt = Psbt::new(PsbtVersion::V0, 1);
    let before = psbt.clone();
    assert!(!psbt.set_fallback_locktime(9));
    assert!(!psbt.set_tx_modifiable(3));
    assert_eq!(psbt, before);
    assert!(psbt.set_lock_time(500_000));
    assert_eq!(psbt.lock_time(), 500_000);
    assert_eq!(psbt.tx_modifiable(), None);
}

#[test]
fn fields_of_the_extended_version() {
    let mut psbt = Psbt::new(PsbtVersion::V2, 2);
    let before = psbt.clone();
    assert!(!psbt.set_lock_time(500_000));
    assert_eq!(psbt, before);
    assert!(psbt.set_fallback_locktime(9));
    assert!(psbt.set_tx_modifiable(3));
    assert_eq!(psbt.lock_time(), 9);
    assert_eq!(psbt.tx_modifiable(), Some(3));
}

#[test]
fn fields_are_validated_against_the_version() {
    assert!(Psbt::with_fields(PsbtVersion::V0, 1, Some(5), None, None).is_some());
    assert!(Psbt::with_fields(PsbtVersion::V0, 1, None, None, None).is_some());
    assert!(Psbt::with_fields(PsbtVersion::V0, 1, Some(5), Some(6), None).is_none());
    assert!(Psbt::with_fields(PsbtVersion::V0, 1, None, None, Some(1)).is_none());
    assert!(Psbt::with_fields(PsbtVersion::V2, 2, None, Some(6), Some(1)).is_some());
    assert!(Psbt::with_fields(PsbtVersion::V2, 2, Some(5), None, None).is_none());
    let psbt = Psbt::with_fields(PsbtVersion::V2, 2, None, Some(6), Some(1)).unwrap();
    assert_eq!(psbt.lock_time(), 6);
    assert_eq!(psbt.tx_modifiable(), Some(1));
    assert_eq!(psbt.phase(), Phase::Commit);
}

#[test]
fn global_keys_with_their_origins() {
    let key = Xpub::from_text("xpub661MyMwAqRbcFtXgS5sYJABqqG9YLmC4Q1Rdap9gSE8NqtwybGhePY2gZ29ESFjqJoCu1Rupje8YtGqsefD265TMg7usUDFdp6W1EGMcet8").unwrap();
    let origin = XpubOrigin {
        key,
        master: XpubRef::Fingerprint(Fingerprint([0x34, 0x42, 0x19, 0x3e])),
        path: vec![0x8000_0054, 0x8000_0000],
    };
    let mut psbt = Psbt::new(PsbtVersion::V2, 2);
    psbt.add_xpub(origin.clone());
    assert_eq!(psbt.xpub_count(), 1);
    assert_eq!(psbt.xpub(0), &origin);
    assert_eq!(psbt.xpub(0).master.fingerprint(), Some(key.fingerprint()));
}

#[test]
fn inputs_and_outputs_are_kept_in_order() {
    let mut psbt = Psbt::new(PsbtVersion::V2, 2);
    assert_eq!(psbt.push_input(Input::new([1; 32], 0, 5)), Some(0));
    assert_eq!(psbt.push_input(Input::new([2; 32], 7, 6)), Some(1));
    assert_eq!(psbt.push_output(Output::new(vec![0x51], 10)), Some(0));
    assert_eq!(psbt.push_output(Output::new(vec![0x52], 20)), Some(1));
    assert_eq!(psbt.input_count(), 2);
    assert_eq!(psbt.output_count(), 2);
    assert_eq!(psbt.input(1).previous_txid, [2; 32]);
    assert_eq!(psbt.input(1).previous_index, 7);
    assert_eq!(psbt.input(1).sequence, 6);
    assert_eq!(psbt.output(1).script, vec![0x52]);
    assert_eq!(psbt.output(1).value, 20);
    psbt.set_sighash_type(1, Some(0x81));
    psbt.set_tweak_ref(1, Some(0));
    assert_eq!(psbt.input(1).sighash_type, Some(0x81));
    assert_eq!(psbt.input(1).tweak_ref, Some(0));
    assert_eq!(psbt.input(0).sighash_type, None);
}

fn signature(key: u8, digest: u8) -> PartialSig {
    PartialSig {
        key: vec![key; 33],
        signature: vec![0x30, key],
        digest: [digest; 32],
        sighash_type: 1,
        tweak: None,
    }
}

#[test]
fn input_with_two_signatures_under_one_key_is_refused() {
    let mut input = Input::new([1; 32], 0, 0);
    input.partial_sigs = vec![signature(1, 1), signature(2, 1)];
    assert!(input.has_distinct_signers());
    assert_eq!(input.signature_index(&[2; 33]), Some(1));
    assert_eq!(input.signature_index(&[3; 33]), None);
    let mut psbt = Psbt::new(PsbtVersion::V2, 2);
    assert_eq!(psbt.push_input(input.clone()), Some(0));
    input.partial_sigs.push(signature(1, 9));
    assert!(!input.has_distinct_signers());
    let before = psbt.clone();
    assert_eq!(psbt.push_input(input), None);
    assert_eq!(psbt, before);
}

#[test]
fn signatures_are_added_never_replaced() {
    let mut psbt = Psbt::new(PsbtVersion::V2, 2);
    psbt.push_input(Input::new([1; 32], 0, 0)).unwrap();
    assert_eq!(psbt.record_signature(0, signature(1, 1)), Ok(true));
    assert_eq!(psbt.record_signature(0, signature(2, 1)), Ok(true));
    assert_eq!(psbt.record_signature(0, signature(1, 1)), Ok(false));
    assert_eq!(psbt.input(0).partial_sigs, vec![signature(1, 1), signature(2, 1)]);
    let before = psbt.clone();
    assert_eq!(
        psbt.record_signature(0, signature(1, 2)),
        Err(Error::SignatureConflict { input: 0 })
    );
    let mut other_flag = signature(1, 1);
    other_flag.sighash_type = 2;
    assert_eq!(psbt.record_signature(0, other_flag), Err(Error::SignatureConflict { input: 0 }));
    let mut other_tweak = signature(1, 1);
    other_tweak.tweak = Some([0; 32]);
    assert_eq!(psbt.record_signature(0, other_tweak), Err(Error::SignatureConflict { input: 0 }));
    assert_eq!(psbt, before);
    assert_eq!(Error::SignatureConflict { input: 0 }.kind(), ErrorKind::State);
}

#[test]
fn hosts_are_marked_in_the_commit_phase_only() {
    let mut psbt = Psbt::new(PsbtVersion::V2, 2);
    psbt.push_output(Output::new(vec![0x51], 10)).unwrap();
    psbt.push_output(Output::new(vec![0x52], 20)).unwrap();
    let request = CommitmentRequest::MultiProtocol { min_depth: 2 };
    assert_eq!(request.scheme(), CommitmentScheme::MultiProtocol);
    assert!(!psbt.set_host(2, request));
    assert!(psbt.set_host(0, request));
    assert_eq!(psbt.output(0).host, Some(request));
    assert!(!psbt.set_host(0, CommitmentRequest::MultiProtocol { min_depth: 3 }));
    assert_eq!(psbt.output(0).host, Some(request));
    assert_eq!(psbt.resolve_commitments(), Ok(()));
    assert_eq!(psbt.phase(), Phase::Sign);
    assert!(!psbt.set_host(1, request));
    assert_eq!(psbt.output(1).host, None);
    // an output that asks for a commitment cannot join any more
    let mut late = Output::new(vec![0x53], 30);
    late.host = Some(request);
    assert_eq!(psbt.push_output(late), None);
    assert_eq!(psbt.push_output(Output::new(vec![0x53], 30)), Some(2));
}

#[test]
fn output_that_comes_with_a_proof_is_refused() {
    let mut psbt = Psbt::new(PsbtVersion::V2, 2);
    let mut forged = Output::new(vec![0x51], 10);
    forged.host = Some(CommitmentRequest::MultiProtocol { min_depth: 0 });
    forged.proof = Some(TweakProof {
        scheme: CommitmentScheme::MultiProtocol,
        applied: [0; 32],
        aux: ProofAux::Merkle { sibling: None, depth: 0 },
        output: 0,
    });
    assert_eq!(psbt.push_output(forged), None);
    assert_eq!(psbt.output_count(), 0);
}

fn host_with_three_messages() -> Psbt {
    let mut psbt = Psbt::new(PsbtVersion::V2, 2);
    psbt.push_output(Output::new(vec![0x51], 10)).unwrap();
    assert!(psbt.store_message(0, message(3, 30)));
    assert!(psbt.store_message(0, message(1, 10)));
    assert!(psbt.store_message(0, message(2, 20)));
    assert!(psbt.set_host(0, CommitmentRequest::MultiProtocol { min_depth: 3 }));
    psbt
}

#[test]
fn multi_protocol_host_with_three_messages_and_depth_three() {
    let mut psbt = host_with_three_messages();
    assert!(!psbt.store_message(0, message(2, 21)));
    assert_eq!(psbt.output(0).lnpbp4_message(&[2; 32]), Some([20; 32]));
    assert_eq!(psbt.output(0).lnpbp4_message(&[4; 32]), None);
    assert_eq!(
        psbt.output(0).lnpbp4_messages(),
        vec![message(3, 30), message(1, 10), message(2, 20)]
    );
    assert_eq!(psbt.resolve_commitments(), Ok(()));
    assert_eq!(psbt.phase(), Phase::Sign);
    let expected =
        MultiCommitment::commit(&[message(1, 10), message(2, 20), message(3, 30)], 3).unwrap();
    assert_eq!(expected.depth, 3);
    assert_eq!(8 - expected.messages.len(), 5);
    let out = psbt.output(0);
    assert_eq!(
        out.proof,
        Some(TweakProof {
            scheme: CommitmentScheme::MultiProtocol,
            applied: expected.root,
            aux: ProofAux::Merkle { sibling: None, depth: 3 },
            output: 0,
        })
    );
    assert_eq!(out.script, vec![0x51]);
    assert_eq!(out.value, 10);
    assert_eq!(out.proprietary.get(b"LNPBP4", 0x04, &[]), Some(&vec![3u8]));
    assert_eq!(out.proprietary.get(b"LNPBP4", 0x01, &[]), Some(&expected.entropy.to_vec()));
    assert_eq!(out.proprietary.get(b"TAPRET", 0x01, &[]), Some(&expected.root.to_vec()));
    assert_eq!(out.proprietary.len(), 6);
    // the same run on the same container gives the same, byte for byte
    let mut again = host_with_three_messages();
    assert_eq!(again.resolve_commitments(), Ok(()));
    assert_eq!(again, psbt);
    // no message joins a resolved commitment
    assert!(!psbt.store_message(0, message(9, 9)));
}

#[test]
fn second_resolution_is_refused() {
    let mut psbt = host_with_three_messages();
    assert_eq!(psbt.resolve_output(0), Ok(true));
    assert_eq!(psbt.phase(), Phase::Commit);
    let before = psbt.clone();
    assert_eq!(psbt.resolve_output(0), Err(Error::CommitmentAlreadyPresent { output: 0 }));
    assert_eq!(psbt, before);
    // the run over all outputs passes over what is resolved, and ends the phase
    assert_eq!(psbt.resolve_commitments(), Ok(()));
    assert_eq!(psbt.phase(), Phase::Sign);
    let before = psbt.clone();
    assert_eq!(psbt.resolve_commitments(), Err(Error::CommitmentAlreadyPresent { output: 0 }));
    assert_eq!(psbt.resolve_output(0), Err(Error::CommitmentAlreadyPresent { output: 0 }));
    assert_eq!(psbt, before);
    assert_eq!(Error::CommitmentAlreadyPresent { output: 0 }.kind(), ErrorKind::State);
}

#[test]
fn output_without_request_is_left_alone() {
    let mut psbt = Psbt::new(PsbtVersion::V2, 2);
    psbt.push_output(Output::new(vec![0x51], 10)).unwrap();
    let before = psbt.clone();
    assert_eq!(psbt.resolve_output(0), Ok(false));
    assert_eq!(psbt, before);
    assert_eq!(psbt.resolve_commitments(), Ok(()));
    assert_eq!(psbt.resolve_commitments(), Ok(()));
    assert_eq!(psbt.phase(), Phase::Sign);
    assert_eq!(psbt.output(0), before.output(0));
}

#[test]
fn entries_that_resolving_would_write_are_not_overwritten() {
    let mut out = Output::new(vec![0x51], 10);
    out.proprietary.insert(psbt_core::ProprietaryKey::new(b"LNPBP4", 0x01, &[]), vec![1, 2, 3]);
    let mut psbt = Psbt::new(PsbtVersion::V2, 2);
    psbt.push_output(out).unwrap();
    assert!(psbt.set_host(0, CommitmentRequest::MultiProtocol { min_depth: 1 }));
    let before = psbt.clone();
    assert_eq!(psbt.resolve_commitments(), Err(Error::CommitmentAlreadyPresent { output: 0 }));
    assert_eq!(psbt, before);
}

#[test]
fn failed_commitment_leaves_the_others_as_they_are() {
    let mut psbt = Psbt::new(PsbtVersion::V2, 2);
    for _ in 0..3 {
        psbt.push_output(Output::new(vec![0x51], 10)).unwrap();
    }
    for o in 0..3 {
        assert!(psbt.store_message(o, message(1, 1)));
        assert!(psbt.store_message(o, message(2, 2)));
    }
    assert!(psbt.store_message(1, message(3, 3)));
    for o in 0..3 {
        assert!(psbt.set_host(o, CommitmentRequest::MultiProtocol { min_depth: 1 }));
    }
    let before = psbt.clone();
    assert_eq!(psbt.resolve_commitments(), Err(Error::DepthExceeded));
    assert_eq!(psbt.phase(), Phase::Commit);
    assert!(psbt.output(0).proof.is_some());
    assert_eq!(psbt.output(1), before.output(1));
    assert_eq!(psbt.output(2), before.output(2));
}

#[test]
fn pay_to_contract_changes_the_key_of_the_script() {
    let key = public_key(1);
    let contract = [9u8; 32];
    let kt = pay_to_contract(&key, &contract).unwrap();
    let request = CommitmentRequest::PayToContract { key, contract };
    let forms: [(Vec<u8>, Vec<u8>); 3] = [
        (p2wpkh(&hash160(&key)), p2wpkh(&hash160(&kt.tweaked_key))),
        (p2pkh(&hash160(&key)), p2pkh(&hash160(&kt.tweaked_key))),
        (p2wsh(&[7; 32]), p2wsh(&[7; 32])),
    ];
    for (script, expected) in forms {
        let mut psbt = Psbt::new(PsbtVersion::V2, 2);
        psbt.push_output(Output::new(script, 1000)).unwrap();
        assert!(psbt.set_host(0, request));
        assert_eq!(psbt.resolve_commitments(), Ok(()));
        let out = psbt.output(0);
        assert_eq!(out.script, expected);
        assert_eq!(
            out.proof,
            Some(TweakProof {
                scheme: CommitmentScheme::PayToContract,
                applied: kt.tweak,
                aux: ProofAux::Contract { hash: contract },
                output: 0,
            })
        );
        assert_eq!(out.proprietary.get(b"P2C", 0, &key), Some(&kt.tweak.to_vec()));
        assert_eq!(out.proprietary.len(), 1);
    }
}

#[test]
fn pay_to_contract_host_refuses_what_is_no_key() {
    let mut psbt = Psbt::new(PsbtVersion::V2, 2);
    psbt.push_output(Output::new(vec![0x51], 1000)).unwrap();
    assert!(psbt.set_host(0, CommitmentRequest::PayToContract { key: [0; 33], contract: [1; 32] }));
    let before = psbt.clone();
    assert_eq!(psbt.resolve_commitments(), Err(Error::InvalidFormat));
    assert_eq!(psbt, before);
}

#[test]
fn sign_to_contract_leaves_the_output_as_it_is() {
    let key = public_key(2);
    let contract = [8u8; 32];
    let script = p2wpkh(&hash160(&key));
    let mut psbt = Psbt::new(PsbtVersion::V2, 2);
    psbt.push_output(Output::new(script.clone(), 1000)).unwrap();
    assert!(psbt.set_host(0, CommitmentRequest::SignToContract { key, contract }));
    assert_eq!(psbt.resolve_commitments(), Ok(()));
    let out = psbt.output(0);
    assert_eq!(out.script, script);
    assert_eq!(out.proprietary.len(), 0);
    assert_eq!(
        out.proof,
        Some(TweakProof {
            scheme: CommitmentScheme::SignToContract,
            applied: contract_tweak(&key, &contract),
            aux: ProofAux::Contract { hash: contract },
            output: 0,
        })
    );
}

#[test]
fn taproot_anchor_of_a_given_message() {
    let internal_key = xonly_key(3);
    let message = [0x42u8; 32];
    for script_root in [None, Some([0x66u8; 32])] {
        let anchored = tapret_commit(&internal_key, script_root, &message).unwrap();
        let mut psbt = Psbt::new(PsbtVersion::V2, 2);
        psbt.push_output(Output::new(p2tr(&internal_key), 1000)).unwrap();
        psbt.push_output(Output::new(vec![0x51], 1)).unwrap();
        assert!(psbt.set_host(
            0,
            CommitmentRequest::TaprootAnchor {
                internal_key,
                script_root,
                message: Some(message),
                min_depth: 0,
            }
        ));
        assert_eq!(psbt.resolve_commitments(), Ok(()));
        let out = psbt.output(0);
        assert_eq!(out.script, p2tr(&anchored.output_key));
        assert_eq!(
            out.proof,
            Some(TweakProof {
                scheme: CommitmentScheme::TaprootAnchor,
                applied: anchored.tweak,
                aux: ProofAux::Merkle {
                    sibling: script_root,
                    depth: if script_root.is_some() { 1 } else { 0 },
                },
                output: 0,
            })
        );
        assert_eq!(out.proprietary.get(b"TAPRET", 0x01, &[]), Some(&message.to_vec()));
        assert_eq!(out.proprietary.get(b"TAPRET", 0x02, &[]), Some(&anchored.proof.encode()));
        assert_eq!(out.proprietary.len(), 2);
        assert_eq!(psbt.output(1).proof, None);
    }
}

#[test]
fn taproot_anchor_of_the_stored_messages() {
    let internal_key = xonly_key(4);
    let mut psbt = Psbt::new(PsbtVersion::V2, 2);
    psbt.push_output(Output::new(p2tr(&internal_key), 1000)).unwrap();
    assert!(psbt.store_message(0, message(2, 20)));
    assert!(psbt.store_message(0, message(1, 10)));
    assert!(psbt.set_host(
        0,
        CommitmentRequest::TaprootAnchor {
            internal_key,
            script_root: None,
            message: None,
            min_depth: 2,
        }
    ));
    assert_eq!(psbt.resolve_commitments(), Ok(()));
    let tree = MultiCommitment::commit(&[message(1, 10), message(2, 20)], 2).unwrap();
    let anchored = tapret_commit(&internal_key, None, &tree.root).unwrap();
    let out = psbt.output(0);
    assert_eq!(out.script, p2tr(&anchored.output_key));
    assert_eq!(out.proof.unwrap().applied, anchored.tweak);
    assert_eq!(out.proprietary.get(b"LNPBP4", 0x04, &[]), Some(&vec![2u8]));
    assert_eq!(out.proprietary.get(b"LNPBP4", 0x01, &[]), Some(&tree.entropy.to_vec()));
    assert_eq!(out.proprietary.get(b"TAPRET", 0x01, &[]), Some(&tree.root.to_vec()));
    assert_eq!(out.proprietary.len(), 6);
}

#[test]
fn taproot_anchor_host_refuses_what_is_no_key() {
    let mut psbt = Psbt::new(PsbtVersion::V2, 2);
    psbt.push_output(Output::new(vec![0x51], 1000)).unwrap();
    assert!(psbt.set_host(
        0,
        CommitmentRequest::TaprootAnchor {
            internal_key: [0xff; 32],
            script_root: None,
            message: Some([1; 32]),
            min_depth: 0,
        }
    ));
    let before = psbt.clone();
    assert_eq!(psbt.resolve_commitments(), Err(Error::InvalidFormat));
    assert_eq!(psbt, before);
}
