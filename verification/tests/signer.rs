use bitcoin::secp256k1::{ecdsa, schnorr, Message, PublicKey, Scalar, Secp256k1, SecretKey};
use bitcoin::sighash::{EcdsaSighashType, Prevouts, SighashCache, TapSighashType};
use psbt_core::commit::p2c::{contract_tweak, pay_to_contract};
use psbt_core::commit::tapret::{tap_leaf_hash, tapret_commit, LEAF_VERSION_TAPSCRIPT};
use psbt_core::script::{p2pkh, p2sh, p2tr, p2wpkh, p2wsh, script_kind, ScriptKind};
use psbt_core::sign::{
    advance, classify, digest, flag_for, make_signature, plan, prepare, request_from,
    serialize_prevouts, serialize_tx, sign_input, sign_request, sign_with, tweaked_key,
    SignerState, SigningPlan, SigningRequest, SpendType, TweakUse,
};
use psbt_core::{
    CommitmentRequest, Error, ErrorKind, Input, Output, PartialSig, Phase, Psbt, PsbtVersion, TxOut,
};

const SECRET: [u8; 32] = [0x01; 32];

fn hash160(data: &[u8]) -> [u8; 20] {
    let digest = <bitcoin::hashes::hash160::Hash as bitcoin::hashes::Hash>::hash(data);
    bitcoin::hashes::Hash::to_byte_array(digest)
}

fn sha256(data: &[u8]) -> [u8; 32] {
    let digest = <bitcoin::hashes::sha256::Hash as bitcoin::hashes::Hash>::hash(data);
    bitcoin::hashes::Hash::to_byte_array(digest)
}

fn public_key(secret: &[u8; 32]) -> PublicKey {
    PublicKey::from_secret_key(&Secp256k1::new(), &SecretKey::from_slice(secret).unwrap())
}

fn hex(bytes: &[u8]) -> String {
    let mut out = String::new();
    for b in bytes {
        out.push_str(&format!("{:02x}", b));
    }
    out
}

fn spending(script: Vec<u8>, value: u64) -> Input {
    let mut input = Input::new([0x11; 32], 1, 0xffff_fffd);
    input.previous_output = Some(TxOut { value, script });
    input
}

fn container(inputs: Vec<Input>) -> Psbt {
    let mut psbt = Psbt::new(PsbtVersion::V2, 2);
    for input in inputs {
        psbt.push_input(input).unwrap();
    }
    psbt.push_output(Output::new(p2wpkh(&[0x22; 20]), 49_000)).unwrap();
    psbt
}

fn signing(inputs: Vec<Input>) -> Psbt {
    let mut psbt = container(inputs);
    psbt.resolve_commitments().unwrap();
    psbt
}

fn transaction(psbt: &Psbt) -> bitcoin::Transaction {
    let mut input = Vec::new();
    for i in 0..psbt.input_count() {
        let known = psbt.input(i);
        input.push(bitcoin::TxIn {
            previous_output: bitcoin::OutPoint {
                txid: bitcoin::hashes::Hash::from_byte_array(known.previous_txid),
                vout: known.previous_index,
            },
            script_sig: bitcoin::ScriptBuf::new(),
            sequence: bitcoin::Sequence(known.sequence),
            witness: bitcoin::Witness::new(),
        });
    }
    let mut output = Vec::new();
    for o in 0..psbt.output_count() {
        let known = psbt.output(o);
        output.push(bitcoin::TxOut {
            value: bitcoin::Amount::from_sat(known.value),
            script_pubkey: bitcoin::ScriptBuf::from_bytes(known.script.clone()),
        });
    }
    bitcoin::Transaction {
        version: bitcoin::transaction::Version(psbt.tx_version() as i32),
        lock_time: bitcoin::absolute::LockTime::from_consensus(psbt.lock_time()),
        input,
        output,
    }
}

fn spent_outputs(psbt: &Psbt) -> Vec<bitcoin::TxOut> {
    let mut spent = Vec::new();
    for i in 0..psbt.input_count() {
        let known = psbt.input(i).previous_output.clone().unwrap();
        spent.push(bitcoin::TxOut {
            value: bitcoin::Amount::from_sat(known.value),
            script_pubkey: bitcoin::ScriptBuf::from_bytes(known.script),
        });
    }
    spent
}

fn segwit_digest(psbt: &Psbt, index: usize, code: &[u8], value: u64, flag: u32) -> [u8; 32] {
    let tx = transaction(psbt);
    let hash = SighashCache::new(&tx)
        .p2wsh_signature_hash(
            index,
            bitcoin::Script::from_bytes(code),
            bitcoin::Amount::from_sat(value),
            EcdsaSighashType::from_standard(flag).unwrap(),
        )
        .unwrap();
    bitcoin::hashes::Hash::to_byte_array(hash)
}

fn verifies_ecdsa(sig: &PartialSig, key: &PublicKey) -> bool {
    let parsed = ecdsa::Signature::from_der(&sig.signature).unwrap();
    Secp256k1::new().verify_ecdsa(&Message::from_digest(sig.digest), &parsed, key).is_ok()
}

fn verifies_schnorr(sig: &PartialSig, key: &[u8; 32]) -> bool {
    let parsed = schnorr::Signature::from_slice(&sig.signature).unwrap();
    let key = bitcoin::secp256k1::XOnlyPublicKey::from_slice(key).unwrap();
    Secp256k1::new().verify_schnorr(&parsed, &Message::from_digest(sig.digest), &key).is_ok()
}

fn native_segwit() -> Psbt {
    let key = public_key(&SECRET).serialize();
    let mut input = spending(p2wpkh(&hash160(&key)), 50_000);
    input.sighash_type = Some(1);
    signing(vec![input])
}

#[test]
fn native_segwit_input_is_signed_the_same_way_every_time() {
    let key = public_key(&SECRET);
    let mut psbt = native_segwit();
    assert_eq!(psbt.version(), PsbtVersion::V2);
    assert_eq!(sign_input(&mut psbt, 0, &SECRET), Ok(true));
    let sigs = &psbt.input(0).partial_sigs;
    assert_eq!(sigs.len(), 1);
    let sig = sigs[0].clone();
    assert_eq!(sig.key, key.serialize().to_vec());
    assert_eq!(sig.sighash_type, 1);
    assert_eq!(sig.tweak, None);
    let code = p2pkh(&hash160(&key.serialize()));
    assert_eq!(sig.digest, segwit_digest(&psbt, 0, &code, 50_000, 1));
    assert!(verifies_ecdsa(&sig, &key));
    assert_eq!(
        hex(&sig.key),
        "031b84c5567b126440995d3ed5aaba0565d71e1834604819ff9c17f5e9d5dd078f"
    );
    assert_eq!(
        hex(&sig.digest),
        "a4002d65e86e484e2c767aafca8effbd091f08ff508f4646135e216fa5067fbc"
    );
    assert_eq!(
        hex(&sig.signature),
        "3044022032ff849e8f1b69bec5d5a70da025b1276326321dbc34cc1a272f8278f123cd1f\
         02201190e9d0125e90489ac4e6afb388e40b9d07d850ff4a18f75e18a98834ff4074"
    );
    assert_eq!(
        hex(&serialize_tx(&psbt)),
        "0200000001111111111111111111111111111111111111111111111111111111111111111101000000\
         00fdffffff0168bf0000000000001600142222222222222222222222222222222222222222\
         00000000"
    );
    let mut again = native_segwit();
    assert_eq!(sign_input(&mut again, 0, &SECRET), Ok(true));
    assert_eq!(again, psbt);
}

#[test]
fn signing_twice_adds_nothing_and_another_flag_is_a_conflict() {
    let mut psbt = native_segwit();
    assert_eq!(sign_input(&mut psbt, 0, &SECRET), Ok(true));
    let once = psbt.clone();
    assert_eq!(sign_input(&mut psbt, 0, &SECRET), Ok(false));
    assert_eq!(psbt, once);
    assert_eq!(psbt.input(0).partial_sigs.len(), 1);
    psbt.set_sighash_type(0, Some(2));
    let before = psbt.clone();
    assert_eq!(sign_input(&mut psbt, 0, &SECRET), Err(Error::SignatureConflict { input: 0 }));
    assert_eq!(psbt, before);
    // another key signs beside the first
    assert_eq!(sign_input(&mut psbt, 0, &[0x02; 32]), Ok(true));
    assert_eq!(psbt.input(0).partial_sigs.len(), 2);
}

#[test]
fn nothing_is_signed_before_the_commitments_are_resolved() {
    let key = public_key(&SECRET).serialize();
    let mut input = spending(p2wpkh(&hash160(&key)), 50_000);
    input.tweak_ref = Some(0);
    let mut psbt = container(vec![input]);
    assert!(psbt.set_host(0, CommitmentRequest::PayToContract { key, contract: [5; 32] }));
    assert_eq!(psbt.phase(), Phase::Commit);
    let before = psbt.clone();
    let refused = Err(Error::MissingCommitmentProof { input: 0 });
    assert_eq!(sign_input(&mut psbt, 0, &SECRET), refused);
    assert_eq!(make_signature(&psbt, 0, &SECRET), Err(Error::MissingCommitmentProof { input: 0 }));
    assert_eq!(prepare(&psbt, 0), Err(Error::MissingCommitmentProof { input: 0 }));
    assert_eq!(plan(&psbt, 0), Err(Error::MissingCommitmentProof { input: 0 }));
    assert_eq!(psbt, before);
    assert_eq!(Error::MissingCommitmentProof { input: 0 }.kind(), ErrorKind::State);
}

#[test]
fn input_that_depends_on_an_output_without_proof_is_refused() {
    let key = public_key(&SECRET).serialize();
    for named in [0usize, 1, 7] {
        let mut input = spending(p2wpkh(&hash160(&key)), 50_000);
        input.tweak_ref = Some(named);
        let mut psbt = signing(vec![input]);
        assert_eq!(psbt.phase(), Phase::Sign);
        let before = psbt.clone();
        assert_eq!(
            sign_input(&mut psbt, 0, &SECRET),
            Err(Error::MissingCommitmentProof { input: 0 })
        );
        assert_eq!(psbt, before);
    }
    // without a commitment to wait for, no input is signed in the commit phase either
    let mut psbt = container(vec![spending(p2wpkh(&hash160(&key)), 50_000)]);
    assert_eq!(sign_input(&mut psbt, 0, &SECRET), Err(Error::MissingCommitmentProof { input: 0 }));
}

#[test]
fn ways_of_spending() {
    let none: Option<Vec<u8>> = None;
    let inner_key = Some(p2wpkh(&[1; 20]));
    let inner_script = Some(p2wsh(&[1; 32]));
    let some = Some(vec![0x51]);
    assert_eq!(classify(&p2pkh(&[1; 20]), &none, &none, &none), Some(SpendType::P2pkh));
    assert_eq!(classify(&[0x21, 2, 0xac], &none, &none, &none), Some(SpendType::Bare));
    assert_eq!(classify(&[], &none, &none, &none), Some(SpendType::Bare));
    assert_eq!(classify(&p2wpkh(&[1; 20]), &none, &none, &none), Some(SpendType::NativeKeyHash));
    assert_eq!(classify(&p2wsh(&[1; 32]), &none, &some, &none), Some(SpendType::NativeScriptHash));
    assert_eq!(classify(&p2sh(&[1; 20]), &inner_key, &none, &none), Some(SpendType::NestedKeyHash));
    assert_eq!(
        classify(&p2sh(&[1; 20]), &inner_script, &some, &none),
        Some(SpendType::NestedScriptHash)
    );
    assert_eq!(classify(&p2tr(&[1; 32]), &none, &none, &none), Some(SpendType::TaprootKeyPath));
    assert_eq!(classify(&p2tr(&[1; 32]), &none, &none, &some), Some(SpendType::TaprootScriptPath));
    // what is not supported
    assert_eq!(classify(&p2sh(&[1; 20]), &none, &none, &none), None);
    assert_eq!(classify(&p2sh(&[1; 20]), &some, &none, &none), None);
    assert_eq!(classify(&p2sh(&[1; 20]), &inner_key, &some, &none), None);
    assert_eq!(classify(&p2sh(&[1; 20]), &inner_script, &none, &none), None);
    assert_eq!(classify(&p2wsh(&[1; 32]), &none, &none, &none), None);
    assert_eq!(classify(&p2wpkh(&[1; 20]), &some, &none, &none), None);
    assert_eq!(classify(&p2wpkh(&[1; 20]), &none, &some, &none), None);
    assert_eq!(classify(&p2pkh(&[1; 20]), &none, &none, &some), None);
    assert_eq!(classify(&p2tr(&[1; 32]), &some, &none, &none), None);
    assert_eq!(classify(&[0x52, 0x02, 1, 2], &none, &none, &none), None);
    assert_eq!(classify(&[0x51, 0x02, 1, 2], &none, &none, &none), None);
}

#[test]
fn forms_of_scripts() {
    assert_eq!(script_kind(&p2pkh(&[1; 20])), ScriptKind::P2pkh);
    assert_eq!(script_kind(&p2sh(&[1; 20])), ScriptKind::P2sh);
    assert_eq!(script_kind(&p2wpkh(&[1; 20])), ScriptKind::P2wpkh);
    assert_eq!(script_kind(&p2wsh(&[1; 32])), ScriptKind::P2wsh);
    assert_eq!(script_kind(&p2tr(&[1; 32])), ScriptKind::P2tr);
    assert_eq!(script_kind(&[0x60, 0x02, 1, 2]), ScriptKind::WitnessUnknown);
    assert_eq!(script_kind(&[0x00, 0x03, 1, 2]), ScriptKind::Other);
    assert_eq!(script_kind(&[0x61, 0x02, 1, 2]), ScriptKind::Other);
    assert_eq!(script_kind(&[]), ScriptKind::Other);
    assert_eq!(p2pkh(&[0xab; 20]).len(), 25);
    assert_eq!(&p2pkh(&[0xab; 20])[..3], &[0x76, 0xa9, 0x14]);
    assert_eq!(&p2pkh(&[0xab; 20])[23..], &[0x88, 0xac]);
    assert_eq!(&p2sh(&[0xab; 20])[..2], &[0xa9, 0x14]);
    assert_eq!(p2sh(&[0xab; 20])[22], 0x87);
    assert_eq!(&p2wpkh(&[0xab; 20])[..2], &[0x00, 0x14]);
    assert_eq!(&p2wsh(&[0xab; 32])[..2], &[0x00, 0x20]);
    assert_eq!(&p2tr(&[0xab; 32])[..2], &[0x51, 0x20]);
}

#[test]
fn flags_that_can_be_used() {
    assert_eq!(flag_for(None, false), Some(1));
    assert_eq!(flag_for(None, true), Some(0));
    for flag in [1u32, 2, 3, 0x81, 0x82, 0x83] {
        assert_eq!(flag_for(Some(flag), false), Some(flag));
        assert_eq!(flag_for(Some(flag), true), Some(flag));
    }
    assert_eq!(flag_for(Some(0), true), Some(0));
    assert_eq!(flag_for(Some(0), false), None);
    for flag in [4u32, 0x80, 0x84, 0x41, 0x101, u32::MAX] {
        assert_eq!(flag_for(Some(flag), false), None);
        assert_eq!(flag_for(Some(flag), true), None);
    }
}

#[test]
fn flag_that_cannot_be_used_is_refused() {
    let key = public_key(&SECRET).serialize();
    for flag in [0u32, 4, 0x80] {
        let mut input = spending(p2wpkh(&hash160(&key)), 50_000);
        input.sighash_type = Some(flag);
        let mut psbt = signing(vec![input]);
        let before = psbt.clone();
        assert_eq!(sign_input(&mut psbt, 0, &SECRET), Err(Error::InvalidSighashType { input: 0 }));
        assert_eq!(psbt, before);
    }
    // "single" asks for the output at the place of the input
    let mut second = spending(p2wpkh(&hash160(&key)), 50_000);
    second.sighash_type = Some(3);
    let mut psbt = signing(vec![spending(p2wpkh(&[3; 20]), 1), second]);
    assert_eq!(sign_input(&mut psbt, 1, &SECRET), Err(Error::InvalidSighashType { input: 1 }));
    psbt.set_sighash_type(0, Some(0x83));
    assert!(plan(&psbt, 0).is_ok());
    assert_eq!(Error::InvalidSighashType { input: 0 }.kind(), ErrorKind::Input);
}

#[test]
fn unknown_spent_output_is_refused() {
    let mut psbt = signing(vec![Input::new([0x11; 32], 0, 0)]);
    assert_eq!(sign_input(&mut psbt, 0, &SECRET), Err(Error::MissingUTXOInfo { input: 0 }));
    assert_eq!(Error::MissingUTXOInfo { input: 0 }.kind(), ErrorKind::Input);
    // taproot commits to every spent output, unless other inputs may change
    let key = public_key(&SECRET).x_only_public_key().0.serialize();
    let mut psbt = signing(vec![
        spending(p2tr(&key), 10),
        spending(p2tr(&key), 20),
        Input::new([0x12; 32], 0, 0),
    ]);
    assert_eq!(sign_input(&mut psbt, 1, &SECRET), Err(Error::MissingUTXOInfo { input: 2 }));
    psbt.set_sighash_type(1, Some(0x81));
    assert_eq!(sign_input(&mut psbt, 1, &SECRET), Ok(true));
}

#[test]
fn unsupported_way_of_spending_is_refused() {
    let mut psbt = signing(vec![spending(p2sh(&[1; 20]), 10)]);
    assert_eq!(sign_input(&mut psbt, 0, &SECRET), Err(Error::UnsupportedSpendType { input: 0 }));
    let mut psbt = signing(vec![spending(vec![0x52, 0x02, 1, 2], 10)]);
    assert_eq!(sign_input(&mut psbt, 0, &SECRET), Err(Error::UnsupportedSpendType { input: 0 }));
    assert_eq!(Error::UnsupportedSpendType { input: 0 }.kind(), ErrorKind::Input);
    // the tweak of a contract cannot be applied under taproot
    let key = public_key(&SECRET);
    let mut input = spending(p2tr(&key.x_only_public_key().0.serialize()), 10);
    input.tweak_ref = Some(0);
    let mut psbt = container(vec![input]);
    assert!(psbt.set_host(
        0,
        CommitmentRequest::PayToContract { key: key.serialize(), contract: [5; 32] }
    ));
    psbt.resolve_commitments().unwrap();
    assert_eq!(sign_input(&mut psbt, 0, &SECRET), Err(Error::UnsupportedSpendType { input: 0 }));
}

#[test]
fn bytes_that_are_no_secret_key_are_refused() {
    let mut psbt = native_segwit();
    let before = psbt.clone();
    assert_eq!(sign_input(&mut psbt, 0, &[0; 32]), Err(Error::InvalidFormat));
    assert_eq!(sign_input(&mut psbt, 0, &[0xff; 32]), Err(Error::InvalidFormat));
    assert_eq!(psbt, before);
}

#[test]
fn unsigned_transaction_in_its_serialised_form() {
    let key = public_key(&SECRET).serialize();
    let mut psbt = container(vec![
        spending(p2wpkh(&hash160(&key)), 50_000),
        Input::new([0x99; 32], 4, 7),
    ]);
    psbt.push_output(Output::new(vec![0x6a; 300], 0)).unwrap();
    assert!(psbt.set_fallback_locktime(101));
    assert_eq!(serialize_tx(&psbt), bitcoin::consensus::serialize(&transaction(&psbt)));
    let known = psbt.input(0).previous_output.clone().unwrap();
    let spent = vec![
        bitcoin::TxOut {
            value: bitcoin::Amount::from_sat(known.value),
            script_pubkey: bitcoin::ScriptBuf::from_bytes(known.script),
        },
        bitcoin::TxOut {
            value: bitcoin::Amount::from_sat(0),
            script_pubkey: bitcoin::ScriptBuf::new(),
        },
    ];
    assert_eq!(serialize_prevouts(&psbt), bitcoin::consensus::serialize(&spent));
    let mut legacy = Psbt::new(PsbtVersion::V0, 1);
    legacy.push_input(Input::new([0x99; 32], 4, 7)).unwrap();
    assert!(legacy.set_lock_time(700_000));
    assert_eq!(serialize_tx(&legacy), bitcoin::consensus::serialize(&transaction(&legacy)));
}

#[test]
fn pay_to_public_key_hash_input() {
    let key = public_key(&SECRET);
    let script = p2pkh(&hash160(&key.serialize()));
    let mut psbt = signing(vec![spending(script.clone(), 10_000)]);
    assert_eq!(sign_input(&mut psbt, 0, &SECRET), Ok(true));
    let sig = psbt.input(0).partial_sigs[0].clone();
    let tx = transaction(&psbt);
    let expected = SighashCache::new(&tx)
        .legacy_signature_hash(0, bitcoin::Script::from_bytes(&script), 1)
        .unwrap();
    assert_eq!(sig.digest, bitcoin::hashes::Hash::to_byte_array(expected));
    assert_eq!(sig.sighash_type, 1);
    assert!(verifies_ecdsa(&sig, &key));
    let planned = plan(&psbt, 0).unwrap();
    assert_eq!(planned.spend_type, SpendType::P2pkh);
    assert_eq!(planned.script_code, script);
}

#[test]
fn nested_and_script_hash_inputs() {
    let key = public_key(&SECRET);
    let program = p2wpkh(&hash160(&key.serialize()));
    let witness_script = vec![0x21, 0x02, 0xac];
    let mut nested = spending(p2sh(&hash160(&program)), 30_000);
    nested.redeem_script = Some(program.clone());
    nested.sighash_type = Some(0x82);
    let mut native = spending(p2wsh(&sha256(&witness_script)), 40_000);
    native.witness_script = Some(witness_script.clone());
    let mut wrapped = spending(p2sh(&hash160(&p2wsh(&sha256(&witness_script)))), 50_000);
    wrapped.redeem_script = Some(p2wsh(&sha256(&witness_script)));
    wrapped.witness_script = Some(witness_script.clone());
    let mut psbt = signing(vec![nested, native, wrapped]);
    for index in 0..3 {
        assert_eq!(sign_input(&mut psbt, index, &SECRET), Ok(true));
    }
    let first = psbt.input(0).partial_sigs[0].clone();
    let code = p2pkh(&hash160(&key.serialize()));
    assert_eq!(first.digest, segwit_digest(&psbt, 0, &code, 30_000, 0x82));
    assert_eq!(first.sighash_type, 0x82);
    let second = psbt.input(1).partial_sigs[0].clone();
    assert_eq!(second.digest, segwit_digest(&psbt, 1, &witness_script, 40_000, 1));
    let third = psbt.input(2).partial_sigs[0].clone();
    assert_eq!(third.digest, segwit_digest(&psbt, 2, &witness_script, 50_000, 1));
    for sig in [first, second, third] {
        assert!(verifies_ecdsa(&sig, &key));
    }
    assert_eq!(plan(&psbt, 0).unwrap().spend_type, SpendType::NestedKeyHash);
    assert_eq!(plan(&psbt, 1).unwrap().spend_type, SpendType::NativeScriptHash);
    assert_eq!(plan(&psbt, 2).unwrap().spend_type, SpendType::NestedScriptHash);
}

#[test]
fn taproot_inputs() {
    let key = public_key(&SECRET).x_only_public_key().0.serialize();
    let leaf_script = vec![0x20, 0x51, 0xac];
    let mut by_script = spending(p2tr(&[0x77; 32]), 20_000);
    by_script.tap_leaf_script = Some(leaf_script.clone());
    by_script.sighash_type = Some(0x01);
    let mut psbt = signing(vec![spending(p2tr(&key), 10_000), by_script]);
    assert_eq!(sign_input(&mut psbt, 0, &SECRET), Ok(true));
    assert_eq!(sign_input(&mut psbt, 1, &SECRET), Ok(true));
    let tx = transaction(&psbt);
    let spent = spent_outputs(&psbt);
    let by_key = psbt.input(0).partial_sigs[0].clone();
    let expected = SighashCache::new(&tx)
        .taproot_key_spend_signature_hash(0, &Prevouts::All(&spent), TapSighashType::Default)
        .unwrap();
    assert_eq!(by_key.digest, bitcoin::hashes::Hash::to_byte_array(expected));
    assert_eq!(by_key.sighash_type, 0);
    assert_eq!(by_key.key, key.to_vec());
    assert_eq!(by_key.signature.len(), 64);
    assert!(verifies_schnorr(&by_key, &key));
    let by_leaf = psbt.input(1).partial_sigs[0].clone();
    let leaf: bitcoin::TapLeafHash = bitcoin::hashes::Hash::from_byte_array(tap_leaf_hash(
        LEAF_VERSION_TAPSCRIPT,
        &leaf_script,
    ));
    let expected = SighashCache::new(&tx)
        .taproot_script_spend_signature_hash(1, &Prevouts::All(&spent), leaf, TapSighashType::All)
        .unwrap();
    assert_eq!(by_leaf.digest, bitcoin::hashes::Hash::to_byte_array(expected));
    assert!(verifies_schnorr(&by_leaf, &key));
    assert_eq!(plan(&psbt, 0).unwrap().spend_type, SpendType::TaprootKeyPath);
    assert_eq!(plan(&psbt, 1).unwrap().spend_type, SpendType::TaprootScriptPath);
}

#[test]
fn pay_to_contract_tweak_is_added_to_the_key() {
    let key = public_key(&SECRET);
    let contract = [0x0c; 32];
    let kt = pay_to_contract(&key.serialize(), &contract).unwrap();
    let mut input = spending(p2wpkh(&hash160(&kt.tweaked_key)), 50_000);
    input.tweak_ref = Some(0);
    let mut psbt = container(vec![input]);
    assert!(psbt.set_host(0, CommitmentRequest::PayToContract { key: key.serialize(), contract }));
    psbt.resolve_commitments().unwrap();
    assert_eq!(sign_input(&mut psbt, 0, &SECRET), Ok(true));
    let sig = psbt.input(0).partial_sigs[0].clone();
    assert_eq!(sig.key, kt.tweaked_key.to_vec());
    assert_eq!(sig.tweak, Some(kt.tweak));
    assert!(verifies_ecdsa(&sig, &PublicKey::from_slice(&kt.tweaked_key).unwrap()));
    assert!(!verifies_ecdsa(&sig, &key));
    assert_eq!(plan(&psbt, 0).unwrap().tweak, TweakUse::Key(kt.tweak));
}

#[test]
fn sign_to_contract_tweak_goes_into_the_nonce() {
    let key = public_key(&SECRET);
    let contract = [0x0d; 32];
    let script = p2wpkh(&hash160(&key.serialize()));
    let mut input = spending(script.clone(), 50_000);
    input.tweak_ref = Some(0);
    let mut psbt = container(vec![input]);
    assert!(psbt.set_host(0, CommitmentRequest::SignToContract { key: key.serialize(), contract }));
    psbt.resolve_commitments().unwrap();
    assert_eq!(sign_input(&mut psbt, 0, &SECRET), Ok(true));
    let sig = psbt.input(0).partial_sigs[0].clone();
    let tweak = contract_tweak(&key.serialize(), &contract);
    assert_eq!(sig.key, key.serialize().to_vec());
    assert_eq!(sig.tweak, Some(tweak));
    assert!(verifies_ecdsa(&sig, &key));
    // the same input without the commitment has the same digest and another signature
    let mut plain = signing(vec![spending(script, 50_000)]);
    assert_eq!(sign_input(&mut plain, 0, &SECRET), Ok(true));
    let other = plain.input(0).partial_sigs[0].clone();
    assert_eq!(other.digest, sig.digest);
    assert_ne!(other.signature, sig.signature);
    let secp = Secp256k1::new();
    let expected = secp.sign_ecdsa_with_noncedata(
        &Message::from_digest(sig.digest),
        &SecretKey::from_slice(&SECRET).unwrap(),
        &tweak,
    );
    assert_eq!(sig.signature, expected.serialize_der().to_vec());
    assert_eq!(plan(&psbt, 0).unwrap().tweak, TweakUse::Nonce(tweak));
}

#[test]
fn taproot_anchor_tweak_is_added_to_the_internal_key() {
    let internal = public_key(&SECRET).x_only_public_key().0.serialize();
    let message = [0x0e; 32];
    let anchored = tapret_commit(&internal, None, &message).unwrap();
    let mut input = spending(p2tr(&anchored.output_key), 50_000);
    input.tweak_ref = Some(0);
    let mut psbt = container(vec![input]);
    assert!(psbt.set_host(
        0,
        CommitmentRequest::TaprootAnchor {
            internal_key: internal,
            script_root: None,
            message: Some(message),
            min_depth: 0,
        }
    ));
    psbt.resolve_commitments().unwrap();
    assert_eq!(psbt.output(0).script, p2tr(&anchored.output_key));
    assert_eq!(sign_input(&mut psbt, 0, &SECRET), Ok(true));
    let sig = psbt.input(0).partial_sigs[0].clone();
    assert_eq!(sig.key, anchored.output_key.to_vec());
    assert_eq!(sig.tweak, Some(anchored.tweak));
    assert!(verifies_schnorr(&sig, &anchored.output_key));
    assert!(!verifies_schnorr(&sig, &internal));
    assert_eq!(plan(&psbt, 0).unwrap().tweak, TweakUse::TaprootKey(anchored.tweak));
    let _ = Scalar::from_be_bytes(anchored.tweak).unwrap();
}

#[test]
fn multi_protocol_commitment_tweaks_nothing() {
    let key = public_key(&SECRET);
    let mut input = spending(p2wpkh(&hash160(&key.serialize())), 50_000);
    input.tweak_ref = Some(0);
    let mut psbt = container(vec![input]);
    assert!(psbt.set_host(0, CommitmentRequest::MultiProtocol { min_depth: 1 }));
    psbt.resolve_commitments().unwrap();
    assert_eq!(sign_input(&mut psbt, 0, &SECRET), Ok(true));
    let sig = psbt.input(0).partial_sigs[0].clone();
    assert_eq!(sig.tweak, None);
    assert!(verifies_ecdsa(&sig, &key));
}

#[test]
fn request_is_signed_elsewhere_and_recorded() {
    let key = public_key(&SECRET);
    let mut psbt = native_segwit();
    let request = prepare(&psbt, 0).unwrap();
    assert_eq!(request.plan.input, 0);
    assert_eq!(request.plan.spend_type, SpendType::NativeKeyHash);
    assert_eq!(request.plan.sighash_type, 1);
    assert_eq!(request.plan.tweak, TweakUse::Nothing);
    assert_eq!(request.plan.value, 50_000);
    assert_eq!(request.plan.script_code, p2pkh(&hash160(&key.serialize())));
    assert_eq!(digest(&psbt, &request.plan), Some(request.digest));
    let sig = sign_request(&request, &SECRET).unwrap();
    assert_eq!(make_signature(&psbt, 0, &SECRET), Ok(sig.clone()));
    assert_eq!(psbt.record_signature(0, sig.clone()), Ok(true));
    assert_eq!(psbt.input(0).partial_sigs, vec![sig]);
    assert_eq!(sign_request(&request, &[0; 32]), None);
}

#[test]
fn request_without_a_digest_is_refused() {
    let planned = SigningPlan {
        input: 3,
        spend_type: SpendType::Bare,
        sighash_type: 1,
        tweak: TweakUse::Nothing,
        script_code: vec![0x51],
        value: 5,
    };
    assert_eq!(
        request_from(planned.clone(), Some([7; 32])),
        Ok(SigningRequest { plan: planned.clone(), digest: [7; 32] })
    );
    assert_eq!(request_from(planned.clone(), None), Err(Error::InvalidSighashType { input: 3 }));
    assert_eq!(TweakUse::Nothing.tweak(), None);
    assert_eq!(TweakUse::Witness([1; 32]).tweak(), Some([1; 32]));
    // no digest is computed for an input that is not there
    let psbt = native_segwit();
    assert_eq!(digest(&psbt, &planned), None);
}

#[test]
fn signing_goes_through_its_states_in_order() {
    let psbt = native_segwit();
    let request = prepare(&psbt, 0).unwrap();
    let sig = sign_request(&request, &SECRET).unwrap();
    let classified = advance(&psbt, 0, &SECRET, SignerState::Unclassified);
    assert_eq!(classified, SignerState::Classified(request.plan.clone()));
    let hashed = advance(&psbt, 0, &SECRET, classified);
    assert_eq!(hashed, SignerState::SighashComputed(request.clone()));
    let tweaked = advance(&psbt, 0, &SECRET, hashed);
    assert_eq!(tweaked, SignerState::Tweaked { request: request.clone(), key: SECRET });
    let signed = advance(&psbt, 0, &SECRET, tweaked);
    assert_eq!(signed, SignerState::Signed(sig.clone()));
    assert_eq!(advance(&psbt, 0, &SECRET, signed.clone()), signed);
    let failed = SignerState::Failed(Error::InvalidFormat);
    assert_eq!(advance(&psbt, 0, &SECRET, failed.clone()), failed);
    assert_eq!(sign_with(&request, &SECRET), Some(sig));
    assert_eq!(tweaked_key(&TweakUse::Nothing, &SECRET), Some(SECRET));
    assert_eq!(tweaked_key(&TweakUse::Nonce([9; 32]), &SECRET), Some(SECRET));
    assert_eq!(tweaked_key(&TweakUse::Witness([9; 32]), &SECRET), Some(SECRET));
}

#[test]
fn signing_fails_from_the_state_that_cannot_go_on() {
    let unknown = signing(vec![Input::new([0x11; 32], 0, 0)]);
    assert_eq!(
        advance(&unknown, 0, &SECRET, SignerState::Unclassified),
        SignerState::Failed(Error::MissingUTXOInfo { input: 0 })
    );
    let psbt = native_segwit();
    let request = prepare(&psbt, 0).unwrap();
    let mut elsewhere = request.plan.clone();
    elsewhere.input = 5;
    assert_eq!(
        advance(&psbt, 0, &SECRET, SignerState::Classified(elsewhere)),
        SignerState::Failed(Error::InvalidSighashType { input: 5 })
    );
    assert_eq!(
        advance(&psbt, 0, &[0; 32], SignerState::Tweaked { request: request.clone(), key: [0; 32] }),
        SignerState::Failed(Error::InvalidFormat)
    );
    let mut keyed = request;
    keyed.plan.tweak = TweakUse::Key([0xff; 32]);
    assert_eq!(
        advance(&psbt, 0, &SECRET, SignerState::SighashComputed(keyed)),
        SignerState::Failed(Error::InvalidFormat)
    );
}

#[test]
fn tweak_is_added_to_the_key_that_signs() {
    let secp = Secp256k1::new();
    let tweak = [0x03; 32];
    let secret = SecretKey::from_slice(&SECRET).unwrap();
    let expected = secret.add_tweak(&Scalar::from_be_bytes(tweak).unwrap()).unwrap();
    assert_eq!(tweaked_key(&TweakUse::Key(tweak), &SECRET), Some(expected.secret_bytes()));
    let pair = bitcoin::secp256k1::Keypair::from_secret_key(&secp, &secret);
    let expected = pair.add_xonly_tweak(&secp, &Scalar::from_be_bytes(tweak).unwrap()).unwrap();
    assert_eq!(tweaked_key(&TweakUse::TaprootKey(tweak), &SECRET), Some(expected.secret_bytes()));
    assert_eq!(tweaked_key(&TweakUse::Key(tweak), &[0; 32]), None);
}
