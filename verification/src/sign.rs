//! The signer: for each input, the way of spending is classified, the
//! signature hash is computed, the tweak of a resolved commitment is applied,
//! and the signature is made and put with the input.
//!
//! The steps follow one another in a fixed order, and each has its own
//! function: `plan` settles everything that does not need an outside
//! computation, `digest` computes the signature hash, `request_from` puts the
//! two together, `sign_request` makes the signature, and the container
//! records it. `sign_input` goes through all of them for one secret key. A
//! caller that keeps its keys elsewhere goes as far as `prepare`, has the
//! request signed there, and records the signature itself.

use bitcoin::sighash::{Prevouts, SighashCache};
use vstd::pervasive::unreached;
use vstd::prelude::*;

use crate::bytes;
use crate::commit::tapret::{tap_leaf_hash, tap_leaf_hash_of, LEAF_VERSION_TAPSCRIPT};
use crate::encoding::{compact_size, le4, le8, push_le4, push_le8, write_compact_size};
use crate::error::Error;
use crate::psbt::{
    recorded, CommitmentScheme, Input, Output, PartialSig, Phase, Psbt, PsbtView, TweakProof,
};
use crate::script::{kind_of, p2pkh_of, script_kind, ScriptKind};
use crate::secp::{
    ecdsa_signature_of, ecdsa_signature_with_nonce_data_of, opt_view, public_key, public_key_of,
    schnorr_signature_of, sign_ecdsa, sign_ecdsa_with_nonce_data, sign_schnorr, tweak_secret_key,
    tweak_xonly_secret, tweaked_secret_key_of, xonly_public_key, xonly_public_key_of,
    xonly_tweaked_secret_of,
};

verus! {

/// The way in which an input spends its output. It is settled once, when the
/// input is classified, and every later step goes by it.
#[derive(Copy, Clone, PartialEq, Eq, Debug, Structural)]
pub enum SpendType {
    /// A bare script, signed under the rules from before segwit.
    Bare,
    /// Pay to public key hash, signed under the rules from before segwit.
    P2pkh,
    /// A version 0 key-hash program wrapped in pay to script hash.
    NestedKeyHash,
    /// A version 0 script-hash program wrapped in pay to script hash.
    NestedScriptHash,
    /// A native version 0 key-hash program.
    NativeKeyHash,
    /// A native version 0 script-hash program.
    NativeScriptHash,
    /// A taproot output spent by its key.
    TaprootKeyPath,
    /// A taproot output spent by one of its scripts.
    TaprootScriptPath,
}

impl SpendType {
    /// Whether the input is signed under the rules of taproot.
    pub open spec fn is_taproot(self) -> bool {
        self == SpendType::TaprootKeyPath || self == SpendType::TaprootScriptPath
    }

    /// Whether the input is signed under the rules of taproot.
    pub fn taproot(&self) -> (r: bool)
        ensures
            r == self.is_taproot(),
    {
        match self {
            SpendType::TaprootKeyPath | SpendType::TaprootScriptPath => true,
            _ => false,
        }
    }
}

/// An optional script as an optional byte string.
pub open spec fn script_view(s: Option<Vec<u8>>) -> Option<Seq<u8>> {
    match s {
        Some(v) => Some(v@),
        None => None,
    }
}

/// The way of spending an output with the given script, going by the
/// scripts that come with the input; `None` for a combination that is not
/// supported.
pub open spec fn classify_of(
    script: Seq<u8>,
    redeem: Option<Seq<u8>>,
    witness: Option<Seq<u8>>,
    leaf: Option<Seq<u8>>,
) -> Option<SpendType> {
    match kind_of(script) {
        ScriptKind::P2tr => if redeem is Some || witness is Some {
            None
        } else if leaf is Some {
            Some(SpendType::TaprootScriptPath)
        } else {
            Some(SpendType::TaprootKeyPath)
        },
        ScriptKind::P2wpkh => if redeem is None && witness is None && leaf is None {
            Some(SpendType::NativeKeyHash)
        } else {
            None
        },
        ScriptKind::P2wsh => if redeem is None && witness is Some && leaf is None {
            Some(SpendType::NativeScriptHash)
        } else {
            None
        },
        ScriptKind::P2sh => if leaf is Some || redeem is None {
            None
        } else if kind_of(redeem->0) == ScriptKind::P2wpkh && witness is None {
            Some(SpendType::NestedKeyHash)
        } else if kind_of(redeem->0) == ScriptKind::P2wsh && witness is Some {
            Some(SpendType::NestedScriptHash)
        } else {
            None
        },
        ScriptKind::P2pkh => if redeem is None && witness is None && leaf is None {
            Some(SpendType::P2pkh)
        } else {
            None
        },
        ScriptKind::Other => if redeem is None && witness is None && leaf is None {
            Some(SpendType::Bare)
        } else {
            None
        },
        ScriptKind::WitnessUnknown => None,
    }
}

/// The way in which an input spends its output, where the output is known
/// and the combination is supported.
pub open spec fn spend_type_of(input: Input) -> Option<SpendType> {
    match input.previous_output {
        None => None,
        Some(spent) => classify_of(
            spent.script@,
            script_view(input.redeem_script),
            script_view(input.witness_script),
            script_view(input.tap_leaf_script),
        ),
    }
}

/// Classifies the way of spending an output with the given script.
pub fn classify(
    script: &[u8],
    redeem: &Option<Vec<u8>>,
    witness: &Option<Vec<u8>>,
    leaf: &Option<Vec<u8>>,
) -> (r: Option<SpendType>)
    ensures
        r == classify_of(script@, script_view(*redeem), script_view(*witness), script_view(*leaf)),
{
    let plain = redeem.is_none() && witness.is_none() && leaf.is_none();
    match script_kind(script) {
        ScriptKind::P2tr => if redeem.is_some() || witness.is_some() {
            None
        } else if leaf.is_some() {
            Some(SpendType::TaprootScriptPath)
        } else {
            Some(SpendType::TaprootKeyPath)
        },
        ScriptKind::P2wpkh => if plain {
            Some(SpendType::NativeKeyHash)
        } else {
            None
        },
        ScriptKind::P2wsh => if redeem.is_none() && witness.is_some() && leaf.is_none() {
            Some(SpendType::NativeScriptHash)
        } else {
            None
        },
        ScriptKind::P2sh => match redeem {
            None => None,
            Some(inner) => if leaf.is_some() {
                None
            } else {
                match script_kind(inner.as_slice()) {
                    ScriptKind::P2wpkh => if witness.is_none() {
                        Some(SpendType::NestedKeyHash)
                    } else {
                        None
                    },
                    ScriptKind::P2wsh => if witness.is_some() {
                        Some(SpendType::NestedScriptHash)
                    } else {
                        None
                    },
                    _ => None,
                }
            },
        },
        ScriptKind::P2pkh => if plain {
            Some(SpendType::P2pkh)
        } else {
            None
        },
        ScriptKind::Other => if plain {
            Some(SpendType::Bare)
        } else {
            None
        },
        ScriptKind::WitnessUnknown => None,
    }
}

/// The signature hash flag that an input is signed with: the one declared,
/// where it is one of the standard ones; where none is declared, "all" (1),
/// and under taproot the default (0). `None` for a flag that cannot be used.
pub open spec fn effective_flag(declared: Option<u32>, taproot: bool) -> Option<u32> {
    match declared {
        None => Some(
            if taproot {
                0u32
            } else {
                1u32
            },
        ),
        Some(f) => if f == 1 || f == 2 || f == 3 || f == 0x81 || f == 0x82 || f == 0x83 || (taproot
            && f == 0) {
            Some(f)
        } else {
            None
        },
    }
}

/// Whether a flag commits to the one output at the place of the input.
pub open spec fn is_single(flag: u32) -> bool {
    flag == 3 || flag == 0x83
}

/// Whether a flag lets other inputs change.
pub open spec fn lets_inputs_change(flag: u32) -> bool {
    flag >= 0x80
}

/// The signature hash flag that an input is signed with.
pub fn flag_for(declared: Option<u32>, taproot: bool) -> (r: Option<u32>)
    ensures
        r == effective_flag(declared, taproot),
{
    match declared {
        None => Some(
            if taproot {
                0
            } else {
                1
            },
        ),
        Some(f) => if f == 1 || f == 2 || f == 3 || f == 0x81 || f == 0x82 || f == 0x83 || (taproot
            && f == 0) {
            Some(f)
        } else {
            None
        },
    }
}

/// What is done with the tweak of a resolved commitment when an input is
/// signed.
#[derive(Copy, Clone, PartialEq, Eq, Debug)]
pub enum TweakUse {
    /// There is no tweak.
    Nothing,
    /// Pay-to-contract: the tweak is added to the secret key.
    Key([u8; 32]),
    /// Sign-to-contract: the tweak goes into the making of the nonce.
    Nonce([u8; 32]),
    /// Taproot anchor, key path: the tweak is added to the internal secret
    /// key.
    TaprootKey([u8; 32]),
    /// Taproot anchor, script path: the key is not changed, and the tweak
    /// goes with the signature as part of the witness.
    Witness([u8; 32]),
}

impl TweakUse {
    /// The tweak, where there is one.
    pub open spec fn tweak_of(self) -> Option<[u8; 32]> {
        match self {
            TweakUse::Nothing => None,
            TweakUse::Key(t) | TweakUse::Nonce(t) | TweakUse::TaprootKey(t) | TweakUse::Witness(
                t,
            ) => Some(t),
        }
    }

    /// The tweak, where there is one.
    pub fn tweak(&self) -> (r: Option<[u8; 32]>)
        ensures
            r == self.tweak_of(),
    {
        match self {
            TweakUse::Nothing => None,
            TweakUse::Key(t) => Some(*t),
            TweakUse::Nonce(t) => Some(*t),
            TweakUse::TaprootKey(t) => Some(*t),
            TweakUse::Witness(t) => Some(*t),
        }
    }
}

/// Whether the key of an input depends on a commitment that is not
/// resolved: the input names an output that is not there or has no proof.
pub open spec fn unresolved(v: PsbtView, index: int) -> bool {
    v.inputs[index].tweak_ref matches Some(o) && (o >= v.outputs.len() || v.outputs[o as int].proof
        is None)
}

/// In the signing phase no input waits for the commitment of a host: an
/// input that names an output that was asked for a commitment finds its proof
/// there.
pub proof fn lemma_hosts_are_resolved(psbt: Psbt, index: int)
    requires
        psbt.wf(),
        psbt@.phase == Phase::Sign,
        0 <= index < psbt@.inputs.len(),
        psbt@.inputs[index].tweak_ref matches Some(o) && o < psbt@.outputs.len()
            && psbt@.outputs[o as int].host is Some,
    ensures
        !unresolved(psbt@, index),
        proof_for(psbt@, index) is Some,
        proof_for(psbt@, index)->0.output == psbt@.inputs[index].tweak_ref->0,
{
    let o = psbt@.inputs[index].tweak_ref->0;
    assert(psbt@.outputs[o as int].proof is Some);
}

/// Whether the tweak of a scheme can be applied in a way of spending: those
/// of the contract schemes under ECDSA, that of the taproot anchor under
/// taproot; the multi-protocol commitment tweaks nothing.
pub open spec fn scheme_fits(scheme: CommitmentScheme, spend: SpendType) -> bool {
    match scheme {
        CommitmentScheme::MultiProtocol => true,
        CommitmentScheme::PayToContract | CommitmentScheme::SignToContract => !spend.is_taproot(),
        CommitmentScheme::TaprootAnchor => spend.is_taproot(),
    }
}

/// What is done with a proof in a way of spending.
pub open spec fn tweak_use_of(held: Option<TweakProof>, spend: SpendType) -> TweakUse {
    match held {
        None => TweakUse::Nothing,
        Some(p) => match p.scheme {
            CommitmentScheme::MultiProtocol => TweakUse::Nothing,
            CommitmentScheme::PayToContract => TweakUse::Key(p.applied),
            CommitmentScheme::SignToContract => TweakUse::Nonce(p.applied),
            CommitmentScheme::TaprootAnchor => if spend == SpendType::TaprootKeyPath {
                TweakUse::TaprootKey(p.applied)
            } else {
                TweakUse::Witness(p.applied)
            },
        },
    }
}

/// The proof that an input must be signed with, where it names one.
pub open spec fn proof_for(v: PsbtView, index: int) -> Option<TweakProof> {
    match v.inputs[index].tweak_ref {
        None => None,
        Some(o) => v.outputs[o as int].proof,
    }
}

/// The first input whose spent output is not known; the number of inputs
/// where all are known.
pub open spec fn first_unknown(inputs: Seq<Input>) -> int
    decreases inputs.len(),
{
    if inputs.len() == 0 {
        0
    } else if inputs[0].previous_output is None {
        0
    } else {
        1 + first_unknown(inputs.drop_first())
    }
}

/// The script that the signature hash of an input commits to: the script of
/// the spent output under the rules from before segwit; for a key-hash
/// program its pay-to-public-key-hash script; for a script-hash program the
/// witness script; for a taproot script path the leaf script; nothing for a
/// taproot key path.
pub open spec fn script_code_of(input: Input, spend: SpendType) -> Seq<u8> {
    match spend {
        SpendType::Bare | SpendType::P2pkh => input.previous_output->0.script@,
        SpendType::NativeKeyHash => p2pkh_of(input.previous_output->0.script@.subrange(2, 22)),
        SpendType::NestedKeyHash => p2pkh_of(input.redeem_script->0@.subrange(2, 22)),
        SpendType::NativeScriptHash | SpendType::NestedScriptHash => input.witness_script->0@,
        SpendType::TaprootScriptPath => input.tap_leaf_script->0@,
        SpendType::TaprootKeyPath => Seq::empty(),
    }
}

/// What stands in the way of signing an input, before any signature hash is
/// computed. In this order: the commitments are not all resolved, or the one
/// that the input depends on is not; the spent output is not known; the way
/// of spending is not supported, or the tweak of the proof cannot be applied
/// in it; the flag cannot be used, or asks for the output at the place of
/// the input where there is none; under taproot, without the leave for
/// other inputs to change, the spent output of another input is not known.
pub open spec fn plan_error(v: PsbtView, index: usize) -> Option<Error> {
    let input = v.inputs[index as int];
    if v.phase != Phase::Sign || unresolved(v, index as int) {
        Some(Error::MissingCommitmentProof { input: index })
    } else if input.previous_output is None {
        Some(Error::MissingUTXOInfo { input: index })
    } else if spend_type_of(input) is None {
        Some(Error::UnsupportedSpendType { input: index })
    } else {
        let spend = spend_type_of(input)->0;
        let held = proof_for(v, index as int);
        let flag = effective_flag(input.sighash_type, spend.is_taproot());
        if held is Some && !scheme_fits(held->0.scheme, spend) {
            Some(Error::UnsupportedSpendType { input: index })
        } else if flag is None || (is_single(flag->0) && index >= v.outputs.len()) {
            Some(Error::InvalidSighashType { input: index })
        } else if spend.is_taproot() && !lets_inputs_change(flag->0) && first_unknown(v.inputs)
            < v.inputs.len() {
            Some(Error::MissingUTXOInfo { input: first_unknown(v.inputs) as usize })
        } else {
            None
        }
    }
}

/// Everything that is settled of the signing of an input before the
/// signature hash is computed.
#[derive(Clone, PartialEq, Eq, Debug)]
pub struct SigningPlan {
    /// The place of the input.
    pub input: usize,
    /// The way of spending.
    pub spend_type: SpendType,
    /// The signature hash flag.
    pub sighash_type: u32,
    /// What is done with the tweak of the commitment.
    pub tweak: TweakUse,
    /// The script that the signature hash commits to.
    pub script_code: Vec<u8>,
    /// The amount of the spent output.
    pub value: u64,
}

/// Whether a plan is the plan for an input of a container.
pub open spec fn is_plan(v: PsbtView, index: usize, plan: SigningPlan) -> bool {
    let input = v.inputs[index as int];
    &&& plan.input == index
    &&& Some(plan.spend_type) == spend_type_of(input)
    &&& Some(plan.sighash_type) == effective_flag(input.sighash_type, plan.spend_type.is_taproot())
    &&& plan.tweak == tweak_use_of(proof_for(v, index as int), plan.spend_type)
    &&& plan.script_code@ == script_code_of(input, plan.spend_type)
    &&& plan.value == input.previous_output->0.value
}

/// The place of the first input whose spent output is not known.
fn find_unknown(psbt: &Psbt) -> (r: usize)
    ensures
        r == first_unknown(psbt@.inputs),
        r <= psbt@.inputs.len(),
{
    let n = psbt.input_count();
    let mut i: usize = 0;
    proof {
        assert(psbt@.inputs.skip(0) =~= psbt@.inputs);
    }
    while i < n
        invariant
            i <= n,
            n == psbt@.inputs.len(),
            first_unknown(psbt@.inputs) == i + first_unknown(psbt@.inputs.skip(i as int)),
        decreases n - i,
    {
        let ghost rest = psbt@.inputs.skip(i as int);
        assert(rest[0] == psbt@.inputs[i as int]);
        if psbt.input(i).previous_output.is_none() {
            return i;
        }
        proof {
            assert(rest.drop_first() =~= psbt@.inputs.skip(i + 1));
        }
        i += 1;
    }
    i
}

/// The pay-to-public-key-hash script over the 20 bytes of a key-hash
/// program.
fn key_hash_code(program: &[u8]) -> (code: Vec<u8>)
    requires
        kind_of(program@) == ScriptKind::P2wpkh,
    ensures
        code@ == p2pkh_of(program@.subrange(2, 22)),
{
    let hash = bytes::array20(bytes::copy_range(program, 2, 22).as_slice());
    crate::script::p2pkh(&hash)
}

/// Settles the signing of an input as far as it goes without computing a
/// signature hash; what stands in the way is told by `plan_error`.
pub fn plan(psbt: &Psbt, index: usize) -> (r: Result<SigningPlan, Error>)
    requires
        psbt.wf(),
        index < psbt@.inputs.len(),
    ensures
        match r {
            Ok(p) => plan_error(psbt@, index) is None && is_plan(psbt@, index, p),
            Err(e) => plan_error(psbt@, index) == Some(e),
        },
{
    let input = psbt.input(index);
    match psbt.phase() {
        Phase::Commit => {
            return Err(Error::MissingCommitmentProof { input: index });
        },
        Phase::Sign => {},
    }
    let resolved = match input.tweak_ref {
        None => None,
        Some(o) => {
            if o >= psbt.output_count() {
                return Err(Error::MissingCommitmentProof { input: index });
            }
            let held = psbt.output(o).proof;
            match held {
                None => {
                    return Err(Error::MissingCommitmentProof { input: index });
                },
                Some(p) => Some(p),
            }
        },
    };
    let spent = match &input.previous_output {
        None => {
            return Err(Error::MissingUTXOInfo { input: index });
        },
        Some(spent) => spent,
    };
    let spend = match classify(
        spent.script.as_slice(),
        &input.redeem_script,
        &input.witness_script,
        &input.tap_leaf_script,
    ) {
        None => {
            return Err(Error::UnsupportedSpendType { input: index });
        },
        Some(spend) => spend,
    };
    let taproot = spend.taproot();
    let tweak = match resolved {
        None => TweakUse::Nothing,
        Some(p) => match p.scheme {
            CommitmentScheme::MultiProtocol => TweakUse::Nothing,
            CommitmentScheme::PayToContract => {
                if taproot {
                    return Err(Error::UnsupportedSpendType { input: index });
                }
                TweakUse::Key(p.applied)
            },
            CommitmentScheme::SignToContract => {
                if taproot {
                    return Err(Error::UnsupportedSpendType { input: index });
                }
                TweakUse::Nonce(p.applied)
            },
            CommitmentScheme::TaprootAnchor => match spend {
                SpendType::TaprootKeyPath => TweakUse::TaprootKey(p.applied),
                SpendType::TaprootScriptPath => TweakUse::Witness(p.applied),
                _ => {
                    return Err(Error::UnsupportedSpendType { input: index });
                },
            },
        },
    };
    let flag = match flag_for(input.sighash_type, taproot) {
        None => {
            return Err(Error::InvalidSighashType { input: index });
        },
        Some(flag) => flag,
    };
    if (flag == 3 || flag == 0x83) && index >= psbt.output_count() {
        return Err(Error::InvalidSighashType { input: index });
    }
    if taproot && flag < 0x80 {
        let unknown = find_unknown(psbt);
        if unknown < psbt.input_count() {
            return Err(Error::MissingUTXOInfo { input: unknown });
        }
    }
    let script_code = match spend {
        SpendType::Bare | SpendType::P2pkh => bytes::to_vec(spent.script.as_slice()),
        SpendType::NativeKeyHash => key_hash_code(spent.script.as_slice()),
        SpendType::NestedKeyHash => match &input.redeem_script {
            Some(inner) => key_hash_code(inner.as_slice()),
            None => Vec::new(),
        },
        SpendType::NativeScriptHash | SpendType::NestedScriptHash => match &input.witness_script {
            Some(inner) => bytes::to_vec(inner.as_slice()),
            None => Vec::new(),
        },
        SpendType::TaprootScriptPath => match &input.tap_leaf_script {
            Some(inner) => bytes::to_vec(inner.as_slice()),
            None => Vec::new(),
        },
        SpendType::TaprootKeyPath => Vec::new(),
    };
    Ok(
        SigningPlan {
            input: index,
            spend_type: spend,
            sighash_type: flag,
            tweak,
            script_code,
            value: spent.value,
        },
    )
}

/// An input as it stands in the unsigned transaction: the output it spends,
/// an empty signature script, and the sequence number.
pub open spec fn input_bytes(input: Input) -> Seq<u8> {
    input.previous_txid@ + le4(input.previous_index as nat) + seq![0u8] + le4(
        input.sequence as nat,
    )
}

/// A row of inputs as they stand in the unsigned transaction.
pub open spec fn inputs_bytes(inputs: Seq<Input>) -> Seq<u8>
    decreases inputs.len(),
{
    if inputs.len() == 0 {
        Seq::empty()
    } else {
        inputs_bytes(inputs.drop_last()) + input_bytes(inputs.last())
    }
}

/// An amount and a script as they stand in a transaction.
pub open spec fn txout_bytes(value: u64, script: Seq<u8>) -> Seq<u8> {
    le8(value as nat) + compact_size(script.len()) + script
}

/// A row of outputs as they stand in the unsigned transaction.
pub open spec fn outputs_bytes(outputs: Seq<Output>) -> Seq<u8>
    decreases outputs.len(),
{
    if outputs.len() == 0 {
        Seq::empty()
    } else {
        outputs_bytes(outputs.drop_last()) + txout_bytes(
            outputs.last().value,
            outputs.last().script@,
        )
    }
}

/// The output that an input spends, as it stands in a transaction; where it
/// is not known, an output of no amount and no script in its place.
pub open spec fn spent_bytes(input: Input) -> Seq<u8> {
    match input.previous_output {
        Some(spent) => txout_bytes(spent.value, spent.script@),
        None => txout_bytes(0, Seq::empty()),
    }
}

/// The outputs that a row of inputs spends, one after the other.
pub open spec fn all_spent_bytes(inputs: Seq<Input>) -> Seq<u8>
    decreases inputs.len(),
{
    if inputs.len() == 0 {
        Seq::empty()
    } else {
        all_spent_bytes(inputs.drop_last()) + spent_bytes(inputs.last())
    }
}

/// The unsigned transaction of a container in its serialised form: version,
/// inputs, outputs and lock time, with the number of inputs and of outputs
/// before each row.
pub open spec fn tx_bytes(v: PsbtView) -> Seq<u8> {
    le4(v.tx_version as nat) + compact_size(v.inputs.len()) + inputs_bytes(v.inputs) + compact_size(
        v.outputs.len(),
    ) + outputs_bytes(v.outputs) + le4(Psbt::lock_time_of(v) as nat)
}

/// The outputs that the inputs of a container spend in their serialised
/// form, with their number before them.
pub open spec fn prevouts_bytes(v: PsbtView) -> Seq<u8> {
    compact_size(v.inputs.len()) + all_spent_bytes(v.inputs)
}

/// The signature hash that `legacy_signature_hash` of
/// `bitcoin::sighash::SighashCache` gives for an input of a serialised
/// transaction, a script and a flag; `None` where it gives none.
pub uninterp spec fn legacy_sighash_of(tx: Seq<u8>, index: nat, script: Seq<u8>, flag: u32) -> Option<
    Seq<u8>,
>;

/// The signature hash that `p2wsh_signature_hash` of
/// `bitcoin::sighash::SighashCache` gives for an input of a serialised
/// transaction, a script code, the amount spent and a flag; `None` where it
/// gives none.
pub uninterp spec fn segwit_v0_sighash_of(
    tx: Seq<u8>,
    index: nat,
    script_code: Seq<u8>,
    value: u64,
    flag: u32,
) -> Option<Seq<u8>>;

/// The signature hash that `taproot_key_spend_signature_hash` of
/// `bitcoin::sighash::SighashCache` gives for an input of a serialised
/// transaction, the serialised outputs that its inputs spend, and a flag;
/// `None` where it gives none.
pub uninterp spec fn taproot_key_sighash_of(tx: Seq<u8>, index: nat, spent: Seq<u8>, flag: u8) -> Option<
    Seq<u8>,
>;

/// The signature hash that `taproot_script_spend_signature_hash` of
/// `bitcoin::sighash::SighashCache` gives for an input of a serialised
/// transaction, the serialised outputs that its inputs spend, the hash of the
/// leaf, and a flag; `None` where it gives none.
pub uninterp spec fn taproot_script_sighash_of(
    tx: Seq<u8>,
    index: nat,
    spent: Seq<u8>,
    leaf: Seq<u8>,
    flag: u8,
) -> Option<Seq<u8>>;

/// `legacy_signature_hash` of `bitcoin::sighash::SighashCache`, on the
/// transaction that `bitcoin::consensus::deserialize` reads from the bytes.
#[verifier::external_body]
fn legacy_sighash(tx: &[u8], index: usize, script: &[u8], flag: u32) -> (r: Option<[u8; 32]>)
    ensures
        opt_view(r) == legacy_sighash_of(tx@, index as nat, script@, flag),
{
    let tx: bitcoin::Transaction = bitcoin::consensus::deserialize(tx).ok()?;
    let script = bitcoin::Script::from_bytes(script);
    let hash = SighashCache::new(&tx).legacy_signature_hash(index, script, flag).ok()?;
    Some(bitcoin::hashes::Hash::to_byte_array(hash))
}

/// `p2wsh_signature_hash` of `bitcoin::sighash::SighashCache`, on the
/// transaction that `bitcoin::consensus::deserialize` reads from the bytes
/// and the flag that `EcdsaSighashType::from_standard` reads.
#[verifier::external_body]
fn segwit_v0_sighash(tx: &[u8], index: usize, script_code: &[u8], value: u64, flag: u32) -> (r:
    Option<[u8; 32]>)
    ensures
        opt_view(r) == segwit_v0_sighash_of(tx@, index as nat, script_code@, value, flag),
{
    let tx: bitcoin::Transaction = bitcoin::consensus::deserialize(tx).ok()?;
    let ty = bitcoin::sighash::EcdsaSighashType::from_standard(flag).ok()?;
    let code = bitcoin::Script::from_bytes(script_code);
    let amount = bitcoin::Amount::from_sat(value);
    let hash = SighashCache::new(&tx).p2wsh_signature_hash(index, code, amount, ty).ok()?;
    Some(bitcoin::hashes::Hash::to_byte_array(hash))
}

/// `taproot_key_spend_signature_hash` of `bitcoin::sighash::SighashCache`,
/// on the transaction and the spent outputs that
/// `bitcoin::consensus::deserialize` reads from the bytes and the flag that
/// `TapSighashType::from_consensus_u8` reads.
#[verifier::external_body]
fn taproot_key_sighash(tx: &[u8], index: usize, spent: &[u8], flag: u8) -> (r: Option<[u8; 32]>)
    ensures
        opt_view(r) == taproot_key_sighash_of(tx@, index as nat, spent@, flag),
{
    let tx: bitcoin::Transaction = bitcoin::consensus::deserialize(tx).ok()?;
    let spent: Vec<bitcoin::TxOut> = bitcoin::consensus::deserialize(spent).ok()?;
    let ty = bitcoin::sighash::TapSighashType::from_consensus_u8(flag).ok()?;
    let mut cache = SighashCache::new(&tx);
    let hash = cache.taproot_key_spend_signature_hash(index, &Prevouts::All(&spent), ty).ok()?;
    Some(bitcoin::hashes::Hash::to_byte_array(hash))
}

/// `taproot_script_spend_signature_hash` of
/// `bitcoin::sighash::SighashCache`, on the transaction and the spent outputs
/// that `bitcoin::consensus::deserialize` reads from the bytes, the leaf
/// hash, and the flag that `TapSighashType::from_consensus_u8` reads.
#[verifier::external_body]
fn taproot_script_sighash(tx: &[u8], index: usize, spent: &[u8], leaf: &[u8; 32], flag: u8) -> (r:
    Option<[u8; 32]>)
    ensures
        opt_view(r) == taproot_script_sighash_of(tx@, index as nat, spent@, leaf@, flag),
{
    let tx: bitcoin::Transaction = bitcoin::consensus::deserialize(tx).ok()?;
    let spent: Vec<bitcoin::TxOut> = bitcoin::consensus::deserialize(spent).ok()?;
    let ty = bitcoin::sighash::TapSighashType::from_consensus_u8(flag).ok()?;
    let leaf: bitcoin::TapLeafHash = bitcoin::hashes::Hash::from_byte_array(*leaf);
    let outs = Prevouts::All(&spent);
    let hash = SighashCache::new(&tx).taproot_script_spend_signature_hash(index, &outs, leaf, ty);
    Some(bitcoin::hashes::Hash::to_byte_array(hash.ok()?))
}

/// The unsigned transaction of a container in its serialised form.
pub fn serialize_tx(psbt: &Psbt) -> (out: Vec<u8>)
    ensures
        out@ == tx_bytes(psbt@),
{
    let mut out: Vec<u8> = Vec::new();
    push_le4(&mut out, psbt.tx_version() as u64);
    let n = psbt.input_count();
    write_compact_size(&mut out, n as u64);
    let ghost head = out@;
    let ghost inputs = psbt@.inputs;
    let mut i: usize = 0;
    assert(inputs_bytes(inputs.subrange(0, 0)) =~= Seq::<u8>::empty());
    assert(head + Seq::<u8>::empty() =~= head);
    while i < n
        invariant
            i <= n,
            n == inputs.len(),
            inputs == psbt@.inputs,
            out@ == head + inputs_bytes(inputs.subrange(0, i as int)),
        decreases n - i,
    {
        let input = psbt.input(i);
        let ghost before = out@;
        bytes::extend(&mut out, input.previous_txid.as_slice());
        push_le4(&mut out, input.previous_index as u64);
        out.push(0);
        push_le4(&mut out, input.sequence as u64);
        proof {
            let upto = inputs.subrange(0, i + 1);
            assert(upto.drop_last() =~= inputs.subrange(0, i as int));
            assert(upto.last() == inputs[i as int]);
            assert(out@ =~= before + input_bytes(inputs[i as int]));
            assert(out@ =~= head + inputs_bytes(upto));
        }
        i += 1;
    }
    assert(inputs.subrange(0, n as int) =~= inputs);
    let m = psbt.output_count();
    write_compact_size(&mut out, m as u64);
    let ghost middle = out@;
    let ghost outputs = psbt@.outputs;
    let mut o: usize = 0;
    assert(outputs_bytes(outputs.subrange(0, 0)) =~= Seq::<u8>::empty());
    assert(middle + Seq::<u8>::empty() =~= middle);
    while o < m
        invariant
            o <= m,
            m == outputs.len(),
            outputs == psbt@.outputs,
            out@ == middle + outputs_bytes(outputs.subrange(0, o as int)),
        decreases m - o,
    {
        let output = psbt.output(o);
        let ghost before = out@;
        push_le8(&mut out, output.value);
        write_compact_size(&mut out, output.script.len() as u64);
        bytes::extend(&mut out, output.script.as_slice());
        proof {
            let upto = outputs.subrange(0, o + 1);
            assert(upto.drop_last() =~= outputs.subrange(0, o as int));
            assert(upto.last() == outputs[o as int]);
            assert(out@ =~= before + txout_bytes(outputs[o as int].value, outputs[o as int].script@));
            assert(out@ =~= middle + outputs_bytes(upto));
        }
        o += 1;
    }
    assert(outputs.subrange(0, m as int) =~= outputs);
    push_le4(&mut out, psbt.lock_time() as u64);
    assert(out@ =~= tx_bytes(psbt@));
    out
}

/// The outputs that the inputs of a container spend in their serialised
/// form, with their number before them.
pub fn serialize_prevouts(psbt: &Psbt) -> (out: Vec<u8>)
    ensures
        out@ == prevouts_bytes(psbt@),
{
    let mut out: Vec<u8> = Vec::new();
    let n = psbt.input_count();
    write_compact_size(&mut out, n as u64);
    let ghost head = out@;
    let ghost inputs = psbt@.inputs;
    let mut i: usize = 0;
    assert(all_spent_bytes(inputs.subrange(0, 0)) =~= Seq::<u8>::empty());
    assert(head + Seq::<u8>::empty() =~= head);
    while i < n
        invariant
            i <= n,
            n == inputs.len(),
            inputs == psbt@.inputs,
            out@ == head + all_spent_bytes(inputs.subrange(0, i as int)),
        decreases n - i,
    {
        let input = psbt.input(i);
        let ghost before = out@;
        match &input.previous_output {
            Some(spent) => {
                push_le8(&mut out, spent.value);
                write_compact_size(&mut out, spent.script.len() as u64);
                bytes::extend(&mut out, spent.script.as_slice());
            },
            None => {
                push_le8(&mut out, 0);
                write_compact_size(&mut out, 0);
                assert(out@ =~= before + txout_bytes(0, Seq::empty()));
            },
        }
        proof {
            let upto = inputs.subrange(0, i + 1);
            assert(upto.drop_last() =~= inputs.subrange(0, i as int));
            assert(upto.last() == inputs[i as int]);
            assert(out@ =~= before + spent_bytes(inputs[i as int]));
            assert(out@ =~= head + all_spent_bytes(upto));
        }
        i += 1;
    }
    assert(inputs.subrange(0, n as int) =~= inputs);
    out
}

/// The signature hash of an input of a container in a way of spending, under
/// a flag, over a script code and an amount: that of the rules that the way
/// of spending is signed under.
pub open spec fn sighash_of(
    v: PsbtView,
    index: usize,
    spend: SpendType,
    flag: u32,
    code: Seq<u8>,
    value: u64,
) -> Option<Seq<u8>> {
    match spend {
        SpendType::Bare | SpendType::P2pkh => legacy_sighash_of(
            tx_bytes(v),
            index as nat,
            code,
            flag,
        ),
        SpendType::NestedKeyHash
        | SpendType::NestedScriptHash
        | SpendType::NativeKeyHash
        | SpendType::NativeScriptHash => segwit_v0_sighash_of(
            tx_bytes(v),
            index as nat,
            code,
            value,
            flag,
        ),
        SpendType::TaprootKeyPath => if flag > 0xff {
            None
        } else {
            taproot_key_sighash_of(tx_bytes(v), index as nat, prevouts_bytes(v), flag as u8)
        },
        SpendType::TaprootScriptPath => if flag > 0xff {
            None
        } else {
            taproot_script_sighash_of(
                tx_bytes(v),
                index as nat,
                prevouts_bytes(v),
                tap_leaf_hash_of(LEAF_VERSION_TAPSCRIPT, code),
                flag as u8,
            )
        },
    }
}

/// The signature hash of an input of a container as it is planned.
pub open spec fn digest_of(v: PsbtView, index: usize) -> Option<Seq<u8>> {
    let input = v.inputs[index as int];
    let spend = spend_type_of(input)->0;
    sighash_of(
        v,
        index,
        spend,
        effective_flag(input.sighash_type, spend.is_taproot())->0,
        script_code_of(input, spend),
        input.previous_output->0.value,
    )
}

/// Computes the signature hash that a plan asks for.
pub fn digest(psbt: &Psbt, plan: &SigningPlan) -> (r: Option<[u8; 32]>)
    ensures
        opt_view(r) == sighash_of(
            psbt@,
            plan.input,
            plan.spend_type,
            plan.sighash_type,
            plan.script_code@,
            plan.value,
        ),
{
    let tx = serialize_tx(psbt);
    match plan.spend_type {
        SpendType::Bare | SpendType::P2pkh => legacy_sighash(
            tx.as_slice(),
            plan.input,
            plan.script_code.as_slice(),
            plan.sighash_type,
        ),
        SpendType::NestedKeyHash
        | SpendType::NestedScriptHash
        | SpendType::NativeKeyHash
        | SpendType::NativeScriptHash => segwit_v0_sighash(
            tx.as_slice(),
            plan.input,
            plan.script_code.as_slice(),
            plan.value,
            plan.sighash_type,
        ),
        SpendType::TaprootKeyPath => {
            if plan.sighash_type > 0xff {
                return None;
            }
            let spent = serialize_prevouts(psbt);
            taproot_key_sighash(
                tx.as_slice(),
                plan.input,
                spent.as_slice(),
                plan.sighash_type as u8,
            )
        },
        SpendType::TaprootScriptPath => {
            if plan.sighash_type > 0xff {
                return None;
            }
            let spent = serialize_prevouts(psbt);
            let leaf = tap_leaf_hash(LEAF_VERSION_TAPSCRIPT, plan.script_code.as_slice());
            taproot_script_sighash(
                tx.as_slice(),
                plan.input,
                spent.as_slice(),
                &leaf,
                plan.sighash_type as u8,
            )
        },
    }
}

/// What a signer needs to sign an input: the plan and the signature hash.
#[derive(Clone, PartialEq, Eq, Debug)]
pub struct SigningRequest {
    /// What was settled before the signature hash was computed.
    pub plan: SigningPlan,
    /// The signature hash.
    pub digest: [u8; 32],
}

/// The request for a plan and the signature hash that was computed for it;
/// where none could be computed, the input is refused with
/// `InvalidSighashType`.
pub fn request_from(plan: SigningPlan, digest: Option<[u8; 32]>) -> (r: Result<
    SigningRequest,
    Error,
>)
    ensures
        r == (match digest {
            Some(d) => Ok::<SigningRequest, Error>(SigningRequest { plan, digest: d }),
            None => Err::<SigningRequest, Error>(Error::InvalidSighashType { input: plan.input }),
        }),
{
    match digest {
        Some(d) => Ok(SigningRequest { plan, digest: d }),
        None => Err(Error::InvalidSighashType { input: plan.input }),
    }
}

/// What stands in the way of a request for signing an input: what stands in
/// the way of the plan, or that no signature hash can be computed.
pub open spec fn request_error(v: PsbtView, index: usize) -> Option<Error> {
    if plan_error(v, index) is Some {
        plan_error(v, index)
    } else if digest_of(v, index) is None {
        Some(Error::InvalidSighashType { input: index })
    } else {
        None
    }
}

/// Plans the signing of an input and computes its signature hash. An input
/// whose key depends on a commitment that is not resolved is always refused
/// with `MissingCommitmentProof`.
pub fn prepare(psbt: &Psbt, index: usize) -> (r: Result<SigningRequest, Error>)
    requires
        psbt.wf(),
        index < psbt@.inputs.len(),
    ensures
        match r {
            Ok(request) => {
                &&& request_error(psbt@, index) is None
                &&& is_plan(psbt@, index, request.plan)
                &&& digest_of(psbt@, index) == Some(request.digest@)
            },
            Err(e) => request_error(psbt@, index) == Some(e),
        },
        psbt@.phase != Phase::Sign || unresolved(psbt@, index as int) ==> r == Err::<
            SigningRequest,
            Error,
        >(Error::MissingCommitmentProof { input: index }),
{
    let planned = match plan(psbt, index) {
        Ok(planned) => planned,
        Err(e) => {
            return Err(e);
        },
    };
    let hash = digest(psbt, &planned);
    request_from(planned, hash)
}

/// The secret key that signs under a tweak: the key with the tweak added for
/// pay-to-contract and for the key path of a taproot anchor, the key itself
/// otherwise.
pub open spec fn signing_key_of(secret: Seq<u8>, tweak: TweakUse) -> Option<Seq<u8>> {
    match tweak {
        TweakUse::Key(t) => tweaked_secret_key_of(secret, t@),
        TweakUse::TaprootKey(t) => xonly_tweaked_secret_of(secret, t@),
        _ => Some(secret),
    }
}

/// The public key and the signature that the key that signs gives for a
/// digest in a way of spending: a BIP 340 signature under the x-only key for
/// taproot, an ECDSA signature in DER form under the compressed key
/// otherwise, with the tweak in the nonce for sign-to-contract. `None` where
/// the bytes are no secret key.
pub open spec fn signed_by(spend: SpendType, tweak: TweakUse, digest: Seq<u8>, key: Seq<u8>) -> Option<
    (Seq<u8>, Seq<u8>),
> {
    let public = if spend.is_taproot() {
        xonly_public_key_of(key)
    } else {
        public_key_of(key)
    };
    let signature = if spend.is_taproot() {
        schnorr_signature_of(digest, key)
    } else {
        match tweak {
            TweakUse::Nonce(t) => ecdsa_signature_with_nonce_data_of(digest, key, t@),
            _ => ecdsa_signature_of(digest, key),
        }
    };
    if public is Some && signature is Some {
        Some((public->0, signature->0))
    } else {
        None
    }
}

/// The public key and the signature that a secret key gives for a digest in
/// a way of spending, under a tweak: those of the key that signs under the
/// tweak. `None` where the bytes are no secret key, with the tweak or
/// without.
pub open spec fn signature_of(spend: SpendType, tweak: TweakUse, digest: Seq<u8>, secret: Seq<u8>) -> Option<
    (Seq<u8>, Seq<u8>),
> {
    match signing_key_of(secret, tweak) {
        None => None,
        Some(key) => signed_by(spend, tweak, digest, key),
    }
}

/// The secret key that signs under a tweak.
pub fn tweaked_key(tweak: &TweakUse, secret: &[u8; 32]) -> (r: Option<[u8; 32]>)
    ensures
        opt_view(r) == signing_key_of(secret@, *tweak),
{
    match tweak {
        TweakUse::Key(t) => tweak_secret_key(secret, t),
        TweakUse::TaprootKey(t) => tweak_xonly_secret(secret, t),
        _ => Some(*secret),
    }
}

/// Signs a request with the key that signs, the tweak applied to it already.
pub fn sign_with(request: &SigningRequest, key: &[u8; 32]) -> (r: Option<PartialSig>)
    ensures
        match r {
            Some(sig) => {
                &&& signed_by(request.plan.spend_type, request.plan.tweak, request.digest@, key@)
                    == Some((sig.key@, sig.signature@))
                &&& sig.digest == request.digest
                &&& sig.sighash_type == request.plan.sighash_type
                &&& sig.tweak == request.plan.tweak.tweak_of()
            },
            None => signed_by(request.plan.spend_type, request.plan.tweak, request.digest@, key@)
                is None,
        },
{
    let (public, signature) = if request.plan.spend_type.taproot() {
        let public = match xonly_public_key(key) {
            Some(public) => bytes::to_vec(public.as_slice()),
            None => {
                return None;
            },
        };
        let signature = match sign_schnorr(&request.digest, key) {
            Some(signature) => bytes::to_vec(signature.as_slice()),
            None => {
                return None;
            },
        };
        (public, signature)
    } else {
        let public = match public_key(key) {
            Some(public) => bytes::to_vec(public.as_slice()),
            None => {
                return None;
            },
        };
        let made = match request.plan.tweak {
            TweakUse::Nonce(t) => sign_ecdsa_with_nonce_data(&request.digest, key, &t),
            _ => sign_ecdsa(&request.digest, key),
        };
        let signature = match made {
            Some(signature) => signature,
            None => {
                return None;
            },
        };
        (public, signature)
    };
    Some(
        PartialSig {
            key: public,
            signature,
            digest: request.digest,
            sighash_type: request.plan.sighash_type,
            tweak: request.plan.tweak.tweak(),
        },
    )
}

/// Signs a request with a secret key, after the tweak of the request is
/// applied to the key or the nonce.
pub fn sign_request(request: &SigningRequest, secret: &[u8; 32]) -> (r: Option<PartialSig>)
    ensures
        match r {
            Some(sig) => {
                &&& signature_of(
                    request.plan.spend_type,
                    request.plan.tweak,
                    request.digest@,
                    secret@,
                ) == Some((sig.key@, sig.signature@))
                &&& sig.digest == request.digest
                &&& sig.sighash_type == request.plan.sighash_type
                &&& sig.tweak == request.plan.tweak.tweak_of()
            },
            None => signature_of(
                request.plan.spend_type,
                request.plan.tweak,
                request.digest@,
                secret@,
            ) is None,
        },
{
    match tweaked_key(&request.plan.tweak, secret) {
        Some(key) => sign_with(request, &key),
        None => None,
    }
}

/// Where the signing of one input stands.
#[derive(Clone, PartialEq, Eq, Debug)]
pub enum SignerState {
    /// Nothing is settled yet.
    Unclassified,
    /// The way of spending, the flag and the use of the tweak are settled.
    Classified(SigningPlan),
    /// The signature hash is computed.
    SighashComputed(SigningRequest),
    /// The key that signs is made, the tweak applied where there is one.
    Tweaked { request: SigningRequest, key: [u8; 32] },
    /// The signature is made.
    Signed(PartialSig),
    /// The input was refused.
    Failed(Error),
}

/// Whether `next` is the state that follows `state` when an input of a
/// container is signed with a secret key. Each state leads to the one behind
/// it in the row, or to `Failed`; `Signed` and `Failed` lead nowhere.
pub open spec fn follows(
    v: PsbtView,
    index: usize,
    secret: Seq<u8>,
    state: SignerState,
    next: SignerState,
) -> bool {
    match state {
        SignerState::Unclassified => match plan_error(v, index) {
            Some(e) => next == SignerState::Failed(e),
            None => next matches SignerState::Classified(p) && is_plan(v, index, p),
        },
        SignerState::Classified(p) => match sighash_of(
            v,
            p.input,
            p.spend_type,
            p.sighash_type,
            p.script_code@,
            p.value,
        ) {
            None => next == SignerState::Failed(Error::InvalidSighashType { input: p.input }),
            Some(d) => next matches SignerState::SighashComputed(request) && request.plan == p
                && request.digest@ == d,
        },
        SignerState::SighashComputed(request) => match signing_key_of(secret, request.plan.tweak) {
            None => next == SignerState::Failed(Error::InvalidFormat),
            Some(k) => next matches SignerState::Tweaked { request: same, key } && same == request
                && key@ == k,
        },
        SignerState::Tweaked { request, key } => match signed_by(
            request.plan.spend_type,
            request.plan.tweak,
            request.digest@,
            key@,
        ) {
            None => next == SignerState::Failed(Error::InvalidFormat),
            Some((public, signature)) => {
                &&& next matches SignerState::Signed(sig)
                &&& sig.key@ == public
                &&& sig.signature@ == signature
                &&& sig.digest == request.digest
                &&& sig.sighash_type == request.plan.sighash_type
                &&& sig.tweak == request.plan.tweak.tweak_of()
            },
        },
        SignerState::Signed(_) | SignerState::Failed(_) => next == state,
    }
}

/// Takes the signing of an input one step further.
pub fn advance(psbt: &Psbt, index: usize, secret: &[u8; 32], state: SignerState) -> (next:
    SignerState)
    requires
        psbt.wf(),
        index < psbt@.inputs.len(),
    ensures
        follows(psbt@, index, secret@, state, next),
{
    match state {
        SignerState::Unclassified => match plan(psbt, index) {
            Ok(p) => SignerState::Classified(p),
            Err(e) => SignerState::Failed(e),
        },
        SignerState::Classified(p) => {
            let hash = digest(psbt, &p);
            match request_from(p, hash) {
                Ok(request) => SignerState::SighashComputed(request),
                Err(e) => SignerState::Failed(e),
            }
        },
        SignerState::SighashComputed(request) => match tweaked_key(&request.plan.tweak, secret) {
            Some(key) => SignerState::Tweaked { request, key },
            None => SignerState::Failed(Error::InvalidFormat),
        },
        SignerState::Tweaked { request, key } => match sign_with(&request, &key) {
            Some(sig) => SignerState::Signed(sig),
            None => SignerState::Failed(Error::InvalidFormat),
        },
        SignerState::Signed(sig) => SignerState::Signed(sig),
        SignerState::Failed(e) => SignerState::Failed(e),
    }
}

/// Whether a signature is the one that a secret key gives for an input of a
/// container.
pub open spec fn is_signature_for(v: PsbtView, index: usize, secret: Seq<u8>, sig: PartialSig) -> bool {
    let input = v.inputs[index as int];
    let spend = spend_type_of(input)->0;
    let tweak = tweak_use_of(proof_for(v, index as int), spend);
    &&& digest_of(v, index) == Some(sig.digest@)
    &&& Some(sig.sighash_type) == effective_flag(input.sighash_type, spend.is_taproot())
    &&& sig.tweak == tweak.tweak_of()
    &&& signature_of(spend, tweak, sig.digest@, secret) == Some((sig.key@, sig.signature@))
}

/// What stands in the way of signing an input with a secret key: what stands
/// in the way of the request, or that the bytes are no secret key, with the
/// tweak or without.
pub open spec fn signing_error(v: PsbtView, index: usize, secret: Seq<u8>) -> Option<Error> {
    let input = v.inputs[index as int];
    let spend = spend_type_of(input)->0;
    if request_error(v, index) is Some {
        request_error(v, index)
    } else if signature_of(
        spend,
        tweak_use_of(proof_for(v, index as int), spend),
        digest_of(v, index)->0,
        secret,
    ) is None {
        Some(Error::InvalidFormat)
    } else {
        None
    }
}

/// Makes the signature of an input with a secret key, without putting it
/// with the input.
pub fn make_signature(psbt: &Psbt, index: usize, secret: &[u8; 32]) -> (r: Result<PartialSig, Error>)
    requires
        psbt.wf(),
        index < psbt@.inputs.len(),
    ensures
        match r {
            Ok(sig) => signing_error(psbt@, index, secret@) is None && is_signature_for(
                psbt@,
                index,
                secret@,
                sig,
            ),
            Err(e) => signing_error(psbt@, index, secret@) == Some(e),
        },
{
    let classified = advance(psbt, index, secret, SignerState::Unclassified);
    let hashed = advance(psbt, index, secret, classified);
    let tweaked = advance(psbt, index, secret, hashed);
    match advance(psbt, index, secret, tweaked) {
        SignerState::Signed(sig) => Ok(sig),
        SignerState::Failed(e) => Err(e),
        _ => unreached(),
    }
}

/// Signs an input with a secret key and puts the signature with the input.
///
/// Nothing is signed before every commitment asked for is resolved: in the
/// commit phase, and for an input that depends on an output without proof,
/// the input is refused with `MissingCommitmentProof`. Where a proof exists,
/// the key or the nonce is tweaked by it. An input that is refused, for this
/// or another reason, leaves the container as it was. Signing again over the
/// same digest, flag and tweak changes nothing and gives `false`; signing
/// over anything else under a key that has signed is refused with
/// `SignatureConflict`.
pub fn sign_input(psbt: &mut Psbt, index: usize, secret: &[u8; 32]) -> (r: Result<bool, Error>)
    requires
        old(psbt).wf(),
        index < old(psbt)@.inputs.len(),
    ensures
        final(psbt).wf(),
        old(psbt)@.phase != Phase::Sign || unresolved(old(psbt)@, index as int) ==> r == Err::<
            bool,
            Error,
        >(Error::MissingCommitmentProof { input: index }),
        r is Err ==> final(psbt)@ == old(psbt)@,
        match signing_error(old(psbt)@, index, secret@) {
            Some(e) => r == Err::<bool, Error>(e),
            None => exists|sig: PartialSig|
                is_signature_for(old(psbt)@, index, secret@, sig) && #[trigger] recorded(
                    old(psbt)@,
                    index,
                    sig,
                    r,
                    final(psbt)@,
                ),
        },
{
    let sig = match make_signature(psbt, index, secret) {
        Ok(sig) => sig,
        Err(e) => {
            return Err(e);
        },
    };
    psbt.record_signature(index, sig)
}

} // verus!
