//! The container: global state, the inputs and the outputs of a partially
//! signed transaction, in one of two structural versions.
//!
//! The container goes through two phases. In the first, commitments are
//! asked for and resolved; in the second, inputs are signed. Signing reads
//! the proofs that resolving wrote, so nothing is signed before every
//! commitment asked for is resolved.

use vstd::prelude::*;

use crate::bytes;
use crate::commit::engine::{is_resolution, resolution_error, resolve};
use crate::commit::lnpbp4::ProtocolMessage;
use crate::error::Error;
use crate::proprietary::{
    first_index, lemma_first_index, KeyTriple, ProprietaryKey, ProprietaryMap, PSBT_LNPBP4_PREFIX,
    PSBT_OUT_LNPBP4_MESSAGE,
};
use crate::version::PsbtVersion;
use crate::xpubref::{Xpub, XpubRef};

verus! {

/// The phase that a container is in.
#[derive(Copy, Clone, PartialEq, Eq, Debug, Structural)]
pub enum Phase {
    /// Commitments are asked for and resolved; nothing is signed yet.
    Commit,
    /// Every commitment asked for is resolved; inputs are signed.
    Sign,
}

/// The four ways of committing.
#[derive(Copy, Clone, PartialEq, Eq, Debug, Structural)]
pub enum CommitmentScheme {
    /// One root over the messages of many protocols.
    MultiProtocol,
    /// A tweak added to a public key.
    PayToContract,
    /// A tweak folded into the nonce of a signature.
    SignToContract,
    /// A leaf added to the script tree of a taproot output.
    TaprootAnchor,
}

/// What an output is asked to commit to: the mark that makes it the host of
/// a commitment.
#[derive(Copy, Clone, PartialEq, Eq, Debug)]
pub enum CommitmentRequest {
    /// Commit to the protocol messages stored with the output, in a tree of
    /// the given depth.
    MultiProtocol { min_depth: u8 },
    /// Commit the key of the output to a contract hash by tweaking the key.
    PayToContract { key: [u8; 33], contract: [u8; 32] },
    /// Commit to a contract hash in the nonce of the signature under the key.
    SignToContract { key: [u8; 33], contract: [u8; 32] },
    /// Anchor a message in the script tree of the taproot output with the
    /// given internal key: the message given or, where none is given, the
    /// root over the protocol messages stored with the output.
    TaprootAnchor {
        internal_key: [u8; 32],
        script_root: Option<[u8; 32]>,
        message: Option<[u8; 32]>,
        min_depth: u8,
    },
}

impl CommitmentRequest {
    /// The scheme of the request.
    pub open spec fn scheme_of(self) -> CommitmentScheme {
        match self {
            CommitmentRequest::MultiProtocol { .. } => CommitmentScheme::MultiProtocol,
            CommitmentRequest::PayToContract { .. } => CommitmentScheme::PayToContract,
            CommitmentRequest::SignToContract { .. } => CommitmentScheme::SignToContract,
            CommitmentRequest::TaprootAnchor { .. } => CommitmentScheme::TaprootAnchor,
        }
    }

    /// The scheme of the request.
    pub fn scheme(&self) -> (s: CommitmentScheme)
        ensures
            s == self.scheme_of(),
    {
        match self {
            CommitmentRequest::MultiProtocol { .. } => CommitmentScheme::MultiProtocol,
            CommitmentRequest::PayToContract { .. } => CommitmentScheme::PayToContract,
            CommitmentRequest::SignToContract { .. } => CommitmentScheme::SignToContract,
            CommitmentRequest::TaprootAnchor { .. } => CommitmentScheme::TaprootAnchor,
        }
    }
}

/// What a proof holds beside the value applied.
#[derive(Copy, Clone, PartialEq, Eq, Debug)]
pub enum ProofAux {
    /// For a tree: the node that the committed leaf or root was joined with,
    /// if any, and the depth of the tree.
    Merkle { sibling: Option<[u8; 32]>, depth: u8 },
    /// For a contract: its hash.
    Contract { hash: [u8; 32] },
}

/// The proof of a resolved commitment: what was applied, under which scheme,
/// to which output.
#[derive(Copy, Clone, PartialEq, Eq, Debug)]
pub struct TweakProof {
    /// The scheme of the commitment.
    pub scheme: CommitmentScheme,
    /// The scalar or hash that was applied.
    pub applied: [u8; 32],
    /// What the scheme needs beside it.
    pub aux: ProofAux,
    /// The output that the commitment is in.
    pub output: usize,
}

impl TweakProof {
    /// Whether the proof holds what its scheme asks for: a tree for the
    /// multi-protocol commitment and the taproot anchor, a contract hash for
    /// the two contract schemes.
    pub open spec fn wf(self) -> bool {
        match self.scheme {
            CommitmentScheme::MultiProtocol | CommitmentScheme::TaprootAnchor => self.aux is Merkle,
            CommitmentScheme::PayToContract | CommitmentScheme::SignToContract => self.aux
                is Contract,
        }
    }
}

/// An output of a transaction: an amount and the script that locks it.
#[derive(Clone, PartialEq, Eq, Debug)]
pub struct TxOut {
    /// The amount, in satoshi.
    pub value: u64,
    /// The locking script.
    pub script: Vec<u8>,
}

/// A signature collected for an input, with what it was made over.
#[derive(Clone, PartialEq, Eq, Debug)]
pub struct PartialSig {
    /// The public key that the signature verifies under.
    pub key: Vec<u8>,
    /// The signature.
    pub signature: Vec<u8>,
    /// The digest that was signed.
    pub digest: [u8; 32],
    /// The signature hash flag that the digest was made with.
    pub sighash_type: u32,
    /// The tweak that was applied to key or nonce, if one was.
    pub tweak: Option<[u8; 32]>,
}

/// Where a key comes from: the master key it was derived from, and the path.
#[derive(Clone, PartialEq, Eq, Debug)]
pub struct KeyOrigin {
    /// The derived public key.
    pub key: Vec<u8>,
    /// The reference to the master key.
    pub master: XpubRef,
    /// The derivation path from the master key.
    pub path: Vec<u32>,
}

/// An extended key known to the whole container, with its origin.
#[derive(Clone, PartialEq, Eq, Debug)]
pub struct XpubOrigin {
    /// The extended key.
    pub key: Xpub,
    /// The reference to the master key.
    pub master: XpubRef,
    /// The derivation path from the master key.
    pub path: Vec<u32>,
}

/// An input of the transaction.
#[derive(Clone, PartialEq, Eq, Debug)]
pub struct Input {
    /// The transaction of the output that is spent, in the byte order of the
    /// wire.
    pub previous_txid: [u8; 32],
    /// The place of the output that is spent in its transaction.
    pub previous_index: u32,
    /// The sequence number.
    pub sequence: u32,
    /// The output that is spent: needed before any signature hash.
    pub previous_output: Option<TxOut>,
    /// The redeem script, for an output that pays to a script hash.
    pub redeem_script: Option<Vec<u8>>,
    /// The witness script, for a witness program over a script hash.
    pub witness_script: Option<Vec<u8>>,
    /// The leaf script, for a taproot output spent by a script.
    pub tap_leaf_script: Option<Vec<u8>>,
    /// The signature hash flag asked for.
    pub sighash_type: Option<u32>,
    /// The signatures collected so far, no two under one key.
    pub partial_sigs: Vec<PartialSig>,
    /// The origins of the keys that sign.
    pub origins: Vec<KeyOrigin>,
    /// The output whose proof must be applied when this input is signed.
    pub tweak_ref: Option<usize>,
    /// The proprietary entries.
    pub proprietary: ProprietaryMap,
}

/// An output of the transaction.
#[derive(Clone, PartialEq, Eq, Debug)]
pub struct Output {
    /// The locking script.
    pub script: Vec<u8>,
    /// The amount, in satoshi.
    pub value: u64,
    /// The commitment asked for, if the output is the host of one.
    pub host: Option<CommitmentRequest>,
    /// The proof of the commitment, once it is resolved.
    pub proof: Option<TweakProof>,
    /// The proprietary entries.
    pub proprietary: ProprietaryMap,
}

/// Whether no two signatures of a row are under one key.
pub open spec fn distinct_signers(sigs: Seq<PartialSig>) -> bool {
    forall|i: int, j: int|
        0 <= i < j < sigs.len() ==> (#[trigger] sigs[i]).key@ != (#[trigger] sigs[j]).key@
}

impl Input {
    /// Whether no two signatures of the input are under one key.
    pub open spec fn wf(&self) -> bool {
        distinct_signers(self.partial_sigs@)
    }

    /// An input that spends the given output of the given transaction, with
    /// nothing else known of it.
    pub fn new(previous_txid: [u8; 32], previous_index: u32, sequence: u32) -> (input: Input)
        ensures
            input.wf(),
            input.previous_txid == previous_txid,
            input.previous_index == previous_index,
            input.sequence == sequence,
            input.previous_output is None,
            input.redeem_script is None,
            input.witness_script is None,
            input.tap_leaf_script is None,
            input.sighash_type is None,
            input.partial_sigs@.len() == 0,
            input.origins@.len() == 0,
            input.tweak_ref is None,
            input.proprietary@ == Map::<KeyTriple, Seq<u8>>::empty(),
    {
        Input {
            previous_txid,
            previous_index,
            sequence,
            previous_output: None,
            redeem_script: None,
            witness_script: None,
            tap_leaf_script: None,
            sighash_type: None,
            partial_sigs: Vec::new(),
            origins: Vec::new(),
            tweak_ref: None,
            proprietary: ProprietaryMap::new(),
        }
    }

    /// Whether no two signatures of the input are under one key.
    pub fn has_distinct_signers(&self) -> (r: bool)
        ensures
            r == self.wf(),
    {
        let n = self.partial_sigs.len();
        let mut j: usize = 0;
        while j < n
            invariant
                j <= n,
                n == self.partial_sigs@.len(),
                forall|a: int, b: int|
                    0 <= a < b < j ==> (#[trigger] self.partial_sigs@[a]).key@
                        != (#[trigger] self.partial_sigs@[b]).key@,
            decreases n - j,
        {
            let mut i: usize = 0;
            while i < j
                invariant
                    i <= j < n,
                    n == self.partial_sigs@.len(),
                    forall|a: int|
                        0 <= a < i ==> (#[trigger] self.partial_sigs@[a]).key@
                            != self.partial_sigs@[j as int].key@,
                decreases j - i,
            {
                if bytes::equal(
                    self.partial_sigs[i].key.as_slice(),
                    self.partial_sigs[j].key.as_slice(),
                ) {
                    return false;
                }
                i += 1;
            }
            j += 1;
        }
        true
    }

    /// The place of the signature under a key, where the input holds one.
    pub fn signature_index(&self, key: &[u8]) -> (r: Option<usize>)
        ensures
            match r {
                Some(i) => i < self.partial_sigs@.len() && self.partial_sigs@[i as int].key@
                    == key@,
                None => forall|i: int|
                    0 <= i < self.partial_sigs@.len() ==> (#[trigger] self.partial_sigs@[i]).key@
                        != key@,
            },
    {
        let mut i: usize = 0;
        while i < self.partial_sigs.len()
            invariant
                i <= self.partial_sigs@.len(),
                forall|j: int| 0 <= j < i ==> (#[trigger] self.partial_sigs@[j]).key@ != key@,
            decreases self.partial_sigs@.len() - i,
        {
            if bytes::equal(self.partial_sigs[i].key.as_slice(), key) {
                return Some(i);
            }
            i += 1;
        }
        None
    }
}

impl Output {
    /// Whether a proof that the output holds is for a commitment that it was
    /// asked for, under the scheme asked for.
    pub open spec fn wf(&self) -> bool {
        self.proof matches Some(p) ==> {
            &&& p.wf()
            &&& self.host matches Some(request) && request.scheme_of() == p.scheme
        }
    }

    /// An output with a script and an amount, and no commitment.
    pub fn new(script: Vec<u8>, value: u64) -> (output: Output)
        ensures
            output.wf(),
            output.script == script,
            output.value == value,
            output.host is None,
            output.proof is None,
            output.proprietary@ == Map::<KeyTriple, Seq<u8>>::empty(),
    {
        Output { script, value, host: None, proof: None, proprietary: ProprietaryMap::new() }
    }

    /// The key under which the message of a protocol is stored.
    pub open spec fn message_key(protocol: Seq<u8>) -> KeyTriple {
        KeyTriple { prefix: PSBT_LNPBP4_PREFIX@, subtype: PSBT_OUT_LNPBP4_MESSAGE, key: protocol }
    }

    /// Whether the output stores the message for its protocol.
    pub open spec fn stores(&self, m: ProtocolMessage) -> bool {
        self.proprietary@.contains_key(Self::message_key(m.protocol@)) && self.proprietary@[Self::message_key(
            m.protocol@,
        )] == m.message@
    }

    /// The message that the output stores for a protocol, where it stores
    /// one of 32 bytes.
    pub fn lnpbp4_message(&self, protocol: &[u8; 32]) -> (r: Option<[u8; 32]>)
        ensures
            match r {
                Some(message) => self.stores(ProtocolMessage { protocol: *protocol, message }),
                None => forall|message: [u8; 32]|
                    !self.stores(ProtocolMessage { protocol: *protocol, message }),
            },
    {
        let prefix = PSBT_LNPBP4_PREFIX;
        match self.proprietary.get(prefix.as_slice(), PSBT_OUT_LNPBP4_MESSAGE, protocol.as_slice()) {
            Some(v) => if v.len() == 32 {
                Some(bytes::array32(v.as_slice()))
            } else {
                None
            },
            None => None,
        }
    }

    /// The protocol messages that the output stores: each message of 32
    /// bytes under a protocol identifier of 32 bytes, and nothing else. No
    /// two of them are for one protocol.
    pub fn lnpbp4_messages(&self) -> (r: Vec<ProtocolMessage>)
        ensures
            forall|m: ProtocolMessage| r@.contains(m) <==> self.stores(m),
            crate::commit::lnpbp4::distinct_protocols(r@),
    {
        let prefix = PSBT_LNPBP4_PREFIX;
        let mut out: Vec<ProtocolMessage> = Vec::new();
        let ghost mut source: Seq<int> = Seq::empty();
        let n = self.proprietary.len();
        let ghost keys = self.proprietary.keys();
        let ghost values = self.proprietary.values();
        let mut i: usize = 0;
        while i < n
            invariant
                i <= n,
                n == keys.len(),
                n == values.len(),
                keys == self.proprietary.keys(),
                values == self.proprietary.values(),
                prefix@ == PSBT_LNPBP4_PREFIX@,
                source.len() == out@.len(),
                forall|p: int|
                    0 <= p < out@.len() ==> {
                        &&& 0 <= #[trigger] source[p] < i
                        &&& keys[source[p]] == Self::message_key(out@[p].protocol@)
                        &&& values[source[p]] == out@[p].message@
                        &&& source[p] == first_index(keys, keys[source[p]])
                    },
                forall|p: int, q: int| 0 <= p < q < out@.len() ==> source[p] < source[q],
                forall|j: int|
                    0 <= j < i && keys[j].prefix == PSBT_LNPBP4_PREFIX@ && keys[j].subtype
                        == PSBT_OUT_LNPBP4_MESSAGE && keys[j].key.len() == 32 && values[j].len()
                        == 32 && j == first_index(keys, keys[j]) ==> exists|p: int|
                        0 <= p < out@.len() && #[trigger] source[p] == j,
            decreases n - i,
        {
            let e = self.proprietary.entry_at(i);
            let first = self.proprietary.find(
                e.key.prefix.as_slice(),
                e.key.subtype,
                e.key.key.as_slice(),
            );
            let is_first = match first {
                Some(at) => at == i,
                None => false,
            };
            proof {
                assert(keys[i as int] == (KeyTriple {
                    prefix: e.key.prefix@,
                    subtype: e.key.subtype,
                    key: e.key.key@,
                }));
                lemma_first_index(keys, keys[i as int]);
                assert(keys.contains(keys[i as int]));
                assert(is_first == (i == first_index(keys, keys[i as int])));
            }
            if is_first && e.key.is_of(prefix.as_slice(), PSBT_OUT_LNPBP4_MESSAGE) && e.key.key.len()
                == 32 && e.value.len() == 32 {
                let m = ProtocolMessage {
                    protocol: bytes::array32(e.key.key.as_slice()),
                    message: bytes::array32(e.value.as_slice()),
                };
                out.push(m);
                proof {
                    let ghost before = source;
                    source = source.push(i as int);
                    assert forall|j: int|
                        0 <= j < i + 1 && keys[j].prefix == PSBT_LNPBP4_PREFIX@ && keys[j].subtype
                            == PSBT_OUT_LNPBP4_MESSAGE && keys[j].key.len() == 32
                            && values[j].len() == 32 && j == first_index(
                            keys,
                            keys[j],
                        ) implies exists|p: int| 0 <= p < out@.len() && #[trigger] source[p] == j by {
                        if j < i {
                            let p = choose|p: int| 0 <= p < before.len() && #[trigger] before[p] == j;
                            assert(source[p] == j);
                        } else {
                            assert(source[out@.len() - 1] == j);
                        }
                    }
                }
            }
            i += 1;
        }
        proof {
            assert forall|m: ProtocolMessage| out@.contains(m) <==> self.stores(m) by {
                let k = Self::message_key(m.protocol@);
                if out@.contains(m) {
                    let p = choose|p: int| 0 <= p < out@.len() && out@[p] == m;
                    assert(keys[source[p]] == k);
                    assert(keys.contains(keys[source[p]]));
                    self.proprietary.lemma_entries();
                    self.proprietary.lemma_value_at_first(k);
                }
                if self.stores(m) {
                    self.proprietary.lemma_value_at_first(k);
                    let j = first_index(keys, k);
                    let p = choose|p: int| 0 <= p < out@.len() && #[trigger] source[p] == j;
                    assert(out@[p].protocol@ == m.protocol@);
                    assert(out@[p].message@ == m.message@);
                    assert(out@[p].protocol == m.protocol);
                    assert(out@[p].message == m.message);
                    assert(out@[p] == m);
                }
            }
            assert forall|p: int, q: int| 0 <= p < q < out@.len() implies (#[trigger] out@[p]).protocol@
                != (#[trigger] out@[q]).protocol@ by {
                assert(source[p] < source[q]);
            }
        }
        out
    }
}

/// The fields that exist in one structural version only: the lock time of
/// the unsigned transaction in `V0`; the fallback lock time and the flags of
/// what may still be changed in `V2`. A field of the other version must stay
/// empty.
pub open spec fn version_rule(
    version: PsbtVersion,
    lock_time: Option<u32>,
    fallback_locktime: Option<u32>,
    tx_modifiable: Option<u8>,
) -> bool {
    match version {
        PsbtVersion::V0 => fallback_locktime is None && tx_modifiable is None,
        PsbtVersion::V2 => lock_time is None,
    }
}

/// What a container holds.
pub struct PsbtView {
    /// The structural version.
    pub version: PsbtVersion,
    /// The version of the transaction.
    pub tx_version: u32,
    /// `V0` only: the lock time of the unsigned transaction.
    pub lock_time: Option<u32>,
    /// `V2` only: the lock time to use where no input asks for one.
    pub fallback_locktime: Option<u32>,
    /// `V2` only: the flags of what may still be changed.
    pub tx_modifiable: Option<u8>,
    /// The extended keys known to the whole container.
    pub xpubs: Seq<XpubOrigin>,
    /// The inputs, in order.
    pub inputs: Seq<Input>,
    /// The outputs, in order.
    pub outputs: Seq<Output>,
    /// The phase.
    pub phase: Phase,
}

/// What stands in the way of resolving the commitment of one output in a
/// run over all outputs: in the signing phase, that the output is a host at
/// all; before it, whatever stands in the way of an unresolved request.
pub open spec fn blocks(out: Output, index: usize, phase: Phase) -> Option<Error> {
    if phase == Phase::Sign {
        if out.host is Some {
            Some(Error::CommitmentAlreadyPresent { output: index })
        } else {
            None
        }
    } else if out.host is Some && out.proof is None {
        resolution_error(out, index)
    } else {
        None
    }
}

/// Whether `new` is what a run over all outputs leaves of `old`: the output
/// with its commitment resolved where one was asked for and not resolved
/// yet, the same output otherwise.
pub open spec fn settled(old: Output, index: usize, new: Output) -> bool {
    if old.host is Some && old.proof is None {
        is_resolution(old, index, new)
    } else {
        new == old
    }
}

/// A partially signed transaction.
#[derive(Clone, PartialEq, Eq, Debug)]
pub struct Psbt {
    version: PsbtVersion,
    tx_version: u32,
    lock_time: Option<u32>,
    fallback_locktime: Option<u32>,
    tx_modifiable: Option<u8>,
    xpubs: Vec<XpubOrigin>,
    inputs: Vec<Input>,
    outputs: Vec<Output>,
    phase: Phase,
}

impl View for Psbt {
    type V = PsbtView;

    closed spec fn view(&self) -> PsbtView {
        PsbtView {
            version: self.version,
            tx_version: self.tx_version,
            lock_time: self.lock_time,
            fallback_locktime: self.fallback_locktime,
            tx_modifiable: self.tx_modifiable,
            xpubs: self.xpubs@,
            inputs: self.inputs@,
            outputs: self.outputs@,
            phase: self.phase,
        }
    }
}

impl Psbt {
    /// The invariant of the container: no field of the other version is
    /// filled; no input holds two signatures under one key; every proof
    /// stands on the output it names and answers the request of that output;
    /// and in the signing phase every request is resolved.
    pub open spec fn wf(&self) -> bool {
        let v = self@;
        &&& version_rule(v.version, v.lock_time, v.fallback_locktime, v.tx_modifiable)
        &&& forall|i: int| 0 <= i < v.inputs.len() ==> (#[trigger] v.inputs[i]).wf()
        &&& forall|o: int|
            0 <= o < v.outputs.len() ==> {
                &&& (#[trigger] v.outputs[o]).wf()
                &&& v.outputs[o].proof matches Some(p) ==> p.output == o
            }
        &&& v.phase == Phase::Sign ==> forall|o: int|
            0 <= o < v.outputs.len() && (#[trigger] v.outputs[o]).host is Some
                ==> v.outputs[o].proof is Some
    }

    /// The effective lock time of the transaction: that of the unsigned
    /// transaction in `V0`, the fallback in `V2`, zero where none is set.
    pub open spec fn lock_time_of(v: PsbtView) -> u32 {
        match v.version {
            PsbtVersion::V0 => match v.lock_time {
                Some(t) => t,
                None => 0,
            },
            PsbtVersion::V2 => match v.fallback_locktime {
                Some(t) => t,
                None => 0,
            },
        }
    }

    /// An empty container of the given structural version, in the commit
    /// phase.
    pub fn new(version: PsbtVersion, tx_version: u32) -> (p: Psbt)
        ensures
            p.wf(),
            p@ == (PsbtView {
                version,
                tx_version,
                lock_time: None,
                fallback_locktime: None,
                tx_modifiable: None,
                xpubs: Seq::empty(),
                inputs: Seq::empty(),
                outputs: Seq::empty(),
                phase: Phase::Commit,
            }),
    {
        Psbt {
            version,
            tx_version,
            lock_time: None,
            fallback_locktime: None,
            tx_modifiable: None,
            xpubs: Vec::new(),
            inputs: Vec::new(),
            outputs: Vec::new(),
            phase: Phase::Commit,
        }
    }

    /// An empty container with its global fields set. It is refused where a
    /// field is filled that the version does not have.
    pub fn with_fields(
        version: PsbtVersion,
        tx_version: u32,
        lock_time: Option<u32>,
        fallback_locktime: Option<u32>,
        tx_modifiable: Option<u8>,
    ) -> (r: Option<Psbt>)
        ensures
            r is Some == version_rule(version, lock_time, fallback_locktime, tx_modifiable),
            r matches Some(p) ==> p.wf() && p@ == (PsbtView {
                version,
                tx_version,
                lock_time,
                fallback_locktime,
                tx_modifiable,
                xpubs: Seq::empty(),
                inputs: Seq::empty(),
                outputs: Seq::empty(),
                phase: Phase::Commit,
            }),
    {
        let valid = match version {
            PsbtVersion::V0 => fallback_locktime.is_none() && tx_modifiable.is_none(),
            PsbtVersion::V2 => lock_time.is_none(),
        };
        if !valid {
            return None;
        }
        Some(
            Psbt {
                version,
                tx_version,
                lock_time,
                fallback_locktime,
                tx_modifiable,
                xpubs: Vec::new(),
                inputs: Vec::new(),
                outputs: Vec::new(),
                phase: Phase::Commit,
            },
        )
    }

    /// The structural version.
    pub fn version(&self) -> (v: PsbtVersion)
        ensures
            v == self@.version,
    {
        self.version
    }

    /// The version of the transaction.
    pub fn tx_version(&self) -> (v: u32)
        ensures
            v == self@.tx_version,
    {
        self.tx_version
    }

    /// The phase.
    pub fn phase(&self) -> (p: Phase)
        ensures
            p == self@.phase,
    {
        self.phase
    }

    /// The flags of what may still be changed, where they are set.
    pub fn tx_modifiable(&self) -> (f: Option<u8>)
        ensures
            f == self@.tx_modifiable,
    {
        self.tx_modifiable
    }

    /// The effective lock time of the transaction.
    pub fn lock_time(&self) -> (t: u32)
        ensures
            t == Self::lock_time_of(self@),
    {
        let set = match self.version {
            PsbtVersion::V0 => self.lock_time,
            PsbtVersion::V2 => self.fallback_locktime,
        };
        match set {
            Some(t) => t,
            None => 0,
        }
    }

    /// Sets the lock time of the unsigned transaction, a field of `V0`. In
    /// `V2` nothing is set and `false` is returned.
    pub fn set_lock_time(&mut self, lock_time: u32) -> (set: bool)
        requires
            old(self).wf(),
        ensures
            final(self).wf(),
            set == (old(self)@.version == PsbtVersion::V0),
            set ==> final(self)@ == (PsbtView { lock_time: Some(lock_time), ..old(self)@ }),
            !set ==> final(self)@ == old(self)@,
    {
        match self.version {
            PsbtVersion::V0 => {
                self.lock_time = Some(lock_time);
                true
            },
            PsbtVersion::V2 => false,
        }
    }

    /// Sets the fallback lock time, a field of `V2`. In `V0` nothing is set
    /// and `false` is returned.
    pub fn set_fallback_locktime(&mut self, lock_time: u32) -> (set: bool)
        requires
            old(self).wf(),
        ensures
            final(self).wf(),
            set == (old(self)@.version == PsbtVersion::V2),
            set ==> final(self)@ == (PsbtView { fallback_locktime: Some(lock_time), ..old(self)@ }),
            !set ==> final(self)@ == old(self)@,
    {
        match self.version {
            PsbtVersion::V2 => {
                self.fallback_locktime = Some(lock_time);
                true
            },
            PsbtVersion::V0 => false,
        }
    }

    /// Sets the flags of what may still be changed, a field of `V2`. In `V0`
    /// nothing is set and `false` is returned.
    pub fn set_tx_modifiable(&mut self, flags: u8) -> (set: bool)
        requires
            old(self).wf(),
        ensures
            final(self).wf(),
            set == (old(self)@.version == PsbtVersion::V2),
            set ==> final(self)@ == (PsbtView { tx_modifiable: Some(flags), ..old(self)@ }),
            !set ==> final(self)@ == old(self)@,
    {
        match self.version {
            PsbtVersion::V2 => {
                self.tx_modifiable = Some(flags);
                true
            },
            PsbtVersion::V0 => false,
        }
    }

    /// The number of inputs.
    pub fn input_count(&self) -> (n: usize)
        ensures
            n == self@.inputs.len(),
    {
        self.inputs.len()
    }

    /// The number of outputs.
    pub fn output_count(&self) -> (n: usize)
        ensures
            n == self@.outputs.len(),
    {
        self.outputs.len()
    }

    /// The number of extended keys.
    pub fn xpub_count(&self) -> (n: usize)
        ensures
            n == self@.xpubs.len(),
    {
        self.xpubs.len()
    }

    /// The input at place `i`.
    pub fn input(&self, i: usize) -> (input: &Input)
        requires
            i < self@.inputs.len(),
        ensures
            *input == self@.inputs[i as int],
    {
        &self.inputs[i]
    }

    /// The output at place `o`.
    pub fn output(&self, o: usize) -> (output: &Output)
        requires
            o < self@.outputs.len(),
        ensures
            *output == self@.outputs[o as int],
    {
        &self.outputs[o]
    }

    /// The extended key at place `i`.
    pub fn xpub(&self, i: usize) -> (origin: &XpubOrigin)
        requires
            i < self@.xpubs.len(),
        ensures
            *origin == self@.xpubs[i as int],
    {
        &self.xpubs[i]
    }

    /// Adds an extended key with its origin to the global map.
    pub fn add_xpub(&mut self, origin: XpubOrigin)
        requires
            old(self).wf(),
        ensures
            final(self).wf(),
            final(self)@ == (PsbtView { xpubs: old(self)@.xpubs.push(origin), ..old(self)@ }),
    {
        self.xpubs.push(origin);
    }

    /// Adds an input behind the others and gives its place. An input with
    /// two signatures under one key is refused, and nothing is changed.
    pub fn push_input(&mut self, input: Input) -> (r: Option<usize>)
        requires
            old(self).wf(),
        ensures
            final(self).wf(),
            r is Some == input.wf(),
            match r {
                Some(i) => i == old(self)@.inputs.len() && final(self)@ == (PsbtView {
                    inputs: old(self)@.inputs.push(input),
                    ..old(self)@
                }),
                None => final(self)@ == old(self)@,
            },
    {
        if !input.has_distinct_signers() {
            return None;
        }
        let at = self.inputs.len();
        self.inputs.push(input);
        Some(at)
    }

    /// Sets the signature hash flag that an input is to be signed with, or
    /// takes it off.
    pub fn set_sighash_type(&mut self, index: usize, flag: Option<u32>)
        requires
            old(self).wf(),
            index < old(self)@.inputs.len(),
        ensures
            final(self).wf(),
            final(self)@ == (PsbtView {
                inputs: old(self)@.inputs.update(
                    index as int,
                    Input { sighash_type: flag, ..old(self)@.inputs[index as int] },
                ),
                ..old(self)@
            }),
    {
        let ghost before = self.inputs@;
        let input = &mut self.inputs[index];
        input.sighash_type = flag;
        proof {
            assert(self.inputs@ =~= before.update(
                index as int,
                Input { sighash_type: flag, ..before[index as int] },
            ));
        }
    }

    /// Names the output whose proof an input is to be signed with, or takes
    /// the name off.
    pub fn set_tweak_ref(&mut self, index: usize, output: Option<usize>)
        requires
            old(self).wf(),
            index < old(self)@.inputs.len(),
        ensures
            final(self).wf(),
            final(self)@ == (PsbtView {
                inputs: old(self)@.inputs.update(
                    index as int,
                    Input { tweak_ref: output, ..old(self)@.inputs[index as int] },
                ),
                ..old(self)@
            }),
    {
        let ghost before = self.inputs@;
        let input = &mut self.inputs[index];
        input.tweak_ref = output;
        proof {
            assert(self.inputs@ =~= before.update(
                index as int,
                Input { tweak_ref: output, ..before[index as int] },
            ));
        }
    }

    /// Adds an output behind the others and gives its place. An output that
    /// comes with a proof is refused, and so is, in the signing phase, one
    /// that asks for a commitment; nothing is changed then.
    pub fn push_output(&mut self, output: Output) -> (r: Option<usize>)
        requires
            old(self).wf(),
        ensures
            final(self).wf(),
            r is Some == (output.proof is None && (old(self)@.phase == Phase::Sign ==> output.host
                is None)),
            match r {
                Some(o) => o == old(self)@.outputs.len() && final(self)@ == (PsbtView {
                    outputs: old(self)@.outputs.push(output),
                    ..old(self)@
                }),
                None => final(self)@ == old(self)@,
            },
    {
        if output.proof.is_some() {
            return None;
        }
        if output.host.is_some() {
            match self.phase {
                Phase::Sign => {
                    return None;
                },
                Phase::Commit => {},
            }
        }
        let at = self.outputs.len();
        self.outputs.push(output);
        Some(at)
    }

    /// Marks an output as the host of a commitment. This is done only in the
    /// commit phase, and only for an output that is no host yet; otherwise
    /// nothing is changed and `false` is returned.
    pub fn set_host(&mut self, o: usize, request: CommitmentRequest) -> (set: bool)
        requires
            old(self).wf(),
        ensures
            final(self).wf(),
            set == (old(self)@.phase == Phase::Commit && o < old(self)@.outputs.len() && old(self)@.outputs[o as int].host is None),
            set ==> final(self)@ == (PsbtView {
                outputs: old(self)@.outputs.update(
                    o as int,
                    Output { host: Some(request), ..old(self)@.outputs[o as int] },
                ),
                ..old(self)@
            }),
            !set ==> final(self)@ == old(self)@,
    {
        match self.phase {
            Phase::Sign => {
                return false;
            },
            Phase::Commit => {},
        }
        if o >= self.outputs.len() || self.outputs[o].host.is_some() {
            return false;
        }
        let ghost before = self.outputs@;
        let out = &mut self.outputs[o];
        out.host = Some(request);
        proof {
            assert(self.outputs@ =~= before.update(
                o as int,
                Output { host: Some(request), ..before[o as int] },
            ));
        }
        true
    }

    /// Stores the message of a protocol with an output, for a multi-protocol
    /// commitment to come. This is done only while the output has no proof
    /// and stores nothing for the protocol yet; otherwise nothing is changed
    /// and `false` is returned.
    pub fn store_message(&mut self, o: usize, message: ProtocolMessage) -> (set: bool)
        requires
            old(self).wf(),
        ensures
            final(self).wf(),
            set == (o < old(self)@.outputs.len() && old(self)@.outputs[o as int].proof is None
                && !old(self)@.outputs[o as int].proprietary@.contains_key(
                Output::message_key(message.protocol@),
            )),
            set ==> {
                &&& final(self)@.outputs.len() == old(self)@.outputs.len()
                &&& final(self)@ == (PsbtView { outputs: final(self)@.outputs, ..old(self)@ })
                &&& forall|j: int|
                    0 <= j < old(self)@.outputs.len() && j != o ==> final(self)@.outputs[j] == old(self)@.outputs[j]
                &&& final(self)@.outputs[o as int].proprietary@ == old(self)@.outputs[o as int].proprietary@.insert(
                    Output::message_key(message.protocol@),
                    message.message@,
                )
                &&& final(self)@.outputs[o as int].stores(message)
                &&& final(self)@.outputs[o as int].script == old(self)@.outputs[o as int].script
                &&& final(self)@.outputs[o as int].value == old(self)@.outputs[o as int].value
                &&& final(self)@.outputs[o as int].host == old(self)@.outputs[o as int].host
                &&& final(self)@.outputs[o as int].proof is None
            },
            !set ==> final(self)@ == old(self)@,
    {
        let prefix = PSBT_LNPBP4_PREFIX;
        if o >= self.outputs.len() || self.outputs[o].proof.is_some() {
            return false;
        }
        if self.outputs[o].proprietary.contains(
            prefix.as_slice(),
            PSBT_OUT_LNPBP4_MESSAGE,
            message.protocol.as_slice(),
        ) {
            return false;
        }
        let out = &mut self.outputs[o];
        out.proprietary.insert(
            ProprietaryKey::new(
                prefix.as_slice(),
                PSBT_OUT_LNPBP4_MESSAGE,
                message.protocol.as_slice(),
            ),
            bytes::to_vec(message.message.as_slice()),
        );
        true
    }

    /// Resolves the commitment that one output was asked for, as
    /// `commit::engine::resolve` does. The other outputs and everything else
    /// stay as they are.
    pub fn resolve_output(&mut self, o: usize) -> (r: Result<bool, Error>)
        requires
            old(self).wf(),
            o < old(self)@.outputs.len(),
        ensures
            final(self).wf(),
            final(self)@.outputs.len() == old(self)@.outputs.len(),
            final(self)@ == (PsbtView { outputs: final(self)@.outputs, ..old(self)@ }),
            forall|j: int|
                0 <= j < old(self)@.outputs.len() && j != o ==> final(self)@.outputs[j] == old(self)@.outputs[j],
            match r {
                Ok(changed) => {
                    &&& resolution_error(old(self)@.outputs[o as int], o) is None
                    &&& changed == old(self)@.outputs[o as int].host is Some
                    &&& changed ==> is_resolution(
                        old(self)@.outputs[o as int],
                        o,
                        final(self)@.outputs[o as int],
                    )
                    &&& !changed ==> final(self)@ == old(self)@
                },
                Err(e) => resolution_error(old(self)@.outputs[o as int], o) == Some(e) && final(self)@ == old(self)@,
            },
    {
        let ghost before = self.outputs@;
        let out = &mut self.outputs[o];
        let r = resolve(out, o);
        proof {
            if r is Err || r == Ok::<bool, Error>(false) {
                assert(self.outputs@ =~= before);
            }
        }
        r
    }

    /// Resolves every commitment asked for and not resolved yet, output by
    /// output, and then enters the signing phase. The run stops at the first
    /// output that is refused: the outputs before it stay resolved, it and
    /// those behind it stay as they were, and the phase is not changed. In
    /// the signing phase nothing is resolved again: the first output that is
    /// a host is refused with `CommitmentAlreadyPresent`.
    pub fn resolve_commitments(&mut self) -> (r: Result<(), Error>)
        requires
            old(self).wf(),
        ensures
            final(self).wf(),
            final(self)@.outputs.len() == old(self)@.outputs.len(),
            match r {
                Ok(()) => {
                    &&& final(self)@ == (PsbtView {
                        outputs: final(self)@.outputs,
                        phase: Phase::Sign,
                        ..old(self)@
                    })
                    &&& forall|o: int|
                        #![trigger old(self)@.outputs[o]]
                        #![trigger final(self)@.outputs[o]]
                        0 <= o < old(self)@.outputs.len() ==> {
                            &&& blocks(old(self)@.outputs[o], o as usize, old(self)@.phase) is None
                            &&& settled(old(self)@.outputs[o], o as usize, final(self)@.outputs[o])
                        }
                },
                Err(e) => {
                    &&& final(self)@ == (PsbtView { outputs: final(self)@.outputs, ..old(self)@ })
                    &&& exists|k: int|
                        {
                            &&& 0 <= k < old(self)@.outputs.len()
                            &&& #[trigger] blocks(
                                old(self)@.outputs[k],
                                k as usize,
                                old(self)@.phase,
                            ) == Some(e)
                            &&& forall|o: int|
                                0 <= o < k ==> {
                                    &&& blocks(
                                        #[trigger] old(self)@.outputs[o],
                                        o as usize,
                                        old(self)@.phase,
                                    ) is None
                                    &&& settled(
                                        old(self)@.outputs[o],
                                        o as usize,
                                        final(self)@.outputs[o],
                                    )
                                }
                            &&& forall|o: int|
                                k <= o < old(self)@.outputs.len() ==> #[trigger] final(self)@.outputs[o] == old(self)@.outputs[o]
                        }
                },
            },
    {
        let n = self.outputs.len();
        let ghost start = self@;
        let mut o: usize = 0;
        while o < n
            invariant
                o <= n,
                n == start.outputs.len(),
                self.wf(),
                start == old(self)@,
                self@ == (PsbtView { outputs: self@.outputs, ..start }),
                self@.outputs.len() == n,
                forall|j: int|
                    0 <= j < o ==> {
                        &&& blocks(#[trigger] start.outputs[j], j as usize, start.phase) is None
                        &&& settled(start.outputs[j], j as usize, self@.outputs[j])
                    },
                forall|j: int| o <= j < n ==> #[trigger] self@.outputs[j] == start.outputs[j],
            decreases n - o,
        {
            let hosted = self.outputs[o].host.is_some();
            let proved = self.outputs[o].proof.is_some();
            match self.phase {
                Phase::Sign => {
                    if hosted {
                        let e = Error::CommitmentAlreadyPresent { output: o };
                        proof {
                            assert(blocks(start.outputs[o as int], o, start.phase) == Some(e));
                        }
                        return Err(e);
                    }
                },
                Phase::Commit => {
                    if hosted && !proved {
                        let ghost before = self@.outputs;
                        match self.resolve_output(o) {
                            Ok(_) => {},
                            Err(e) => {
                                proof {
                                    assert(blocks(start.outputs[o as int], o, start.phase) == Some(
                                        e,
                                    ));
                                }
                                return Err(e);
                            },
                        }
                    }
                },
            }
            o += 1;
        }
        proof {
            assert forall|j: int|
                0 <= j < n && (#[trigger] self@.outputs[j]).host is Some implies self@.outputs[j].proof
                is Some by {
                assert(settled(start.outputs[j], j as usize, self@.outputs[j]));
                assert(blocks(start.outputs[j], j as usize, start.phase) is None);
            }
        }
        self.phase = Phase::Sign;
        Ok(())
    }
}

/// Whether two signatures were made over the same: the same digest, under
/// the same flag, with the same tweak.
pub open spec fn same_signing(a: PartialSig, b: PartialSig) -> bool {
    a.digest == b.digest && a.sighash_type == b.sighash_type && a.tweak == b.tweak
}

/// Whether `after` and `r` are what recording a signature with an input of
/// `before` gives: the signature added behind the others where the input
/// had none under the key; nothing changed where it had one made over the
/// same; `SignatureConflict` and nothing changed where it had one made over
/// anything else.
pub open spec fn recorded(
    before: PsbtView,
    index: usize,
    sig: PartialSig,
    r: Result<bool, Error>,
    after: PsbtView,
) -> bool {
    let was = before.inputs[index as int];
    let now = after.inputs[index as int];
    &&& after.inputs.len() == before.inputs.len()
    &&& after == (PsbtView { inputs: after.inputs, ..before })
    &&& forall|j: int|
        0 <= j < before.inputs.len() && j != index ==> #[trigger] after.inputs[j]
            == before.inputs[j]
    &&& match r {
        Ok(true) => {
            &&& forall|i: int|
                0 <= i < was.partial_sigs@.len() ==> (#[trigger] was.partial_sigs@[i]).key@
                    != sig.key@
            &&& now.partial_sigs@ == was.partial_sigs@.push(sig)
            &&& now == (Input { partial_sigs: now.partial_sigs, ..was })
        },
        Ok(false) => {
            &&& exists|i: int|
                0 <= i < was.partial_sigs@.len() && (#[trigger] was.partial_sigs@[i]).key@
                    == sig.key@ && same_signing(was.partial_sigs@[i], sig)
            &&& after == before
        },
        Err(e) => {
            &&& e == Error::SignatureConflict { input: index }
            &&& exists|i: int|
                0 <= i < was.partial_sigs@.len() && (#[trigger] was.partial_sigs@[i]).key@
                    == sig.key@ && !same_signing(was.partial_sigs@[i], sig)
            &&& after == before
        },
    }
}

impl PartialSig {
    /// Whether this signature was made over the same as another.
    pub fn made_as(&self, other: &PartialSig) -> (r: bool)
        ensures
            r == same_signing(*self, *other),
    {
        let tweaks = match (&self.tweak, &other.tweak) {
            (Some(a), Some(b)) => bytes::equal32(a, b),
            (None, None) => true,
            _ => false,
        };
        bytes::equal32(&self.digest, &other.digest) && self.sighash_type == other.sighash_type
            && tweaks
    }
}

impl Psbt {
    /// Puts a signature with an input. Where the input has no signature
    /// under the key yet, the signature is added behind the others and
    /// `true` is returned. Where it has one that was made over the same
    /// digest, flag and tweak, nothing is done and `false` is returned.
    /// Where it has one that was made over anything else, the signature is
    /// refused with `SignatureConflict` and nothing is changed.
    pub fn record_signature(&mut self, index: usize, sig: PartialSig) -> (r: Result<bool, Error>)
        requires
            old(self).wf(),
            index < old(self)@.inputs.len(),
        ensures
            final(self).wf(),
            recorded(old(self)@, index, sig, r, final(self)@),
    {
        let ghost before = self.inputs@;
        match self.inputs[index].signature_index(sig.key.as_slice()) {
            Some(i) => {
                if self.inputs[index].partial_sigs[i].made_as(&sig) {
                    Ok(false)
                } else {
                    Err(Error::SignatureConflict { input: index })
                }
            },
            None => {
                let input = &mut self.inputs[index];
                let ghost sigs = input.partial_sigs@;
                input.partial_sigs.push(sig);
                proof {
                    let now = self.inputs@[index as int].partial_sigs@;
                    assert forall|a: int, b: int| 0 <= a < b < now.len() implies (#[trigger] now[a]).key@
                        != (#[trigger] now[b]).key@ by {
                        if b < sigs.len() {
                            assert(now[a] == sigs[a] && now[b] == sigs[b]);
                        } else {
                            assert(now[a] == sigs[a]);
                        }
                    }
                }
                Ok(true)
            },
        }
    }
}

} // verus!
