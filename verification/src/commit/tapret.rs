//! The taproot anchor: a commitment as one more leaf of the script tree of a
//! taproot output.
//!
//! The message is put into a script that cannot be spent, the script becomes
//! a leaf, the leaf is joined with the root of the scripts that the output
//! had (if it had any), and the output key is the internal key tweaked by the
//! new root. The hashes are the tagged hashes of BIP 341.

use vstd::prelude::*;

use crate::bytes::{self, lex_less};
use crate::encoding::{compact_size, write_compact_size};
use crate::hashes::{tagged_hash, tagged_hash_of};
use crate::secp::{opt_view, tweak_xonly_key, xonly_tweaked_key_of};

verus! {

/// The leaf version of a tapscript leaf.
pub const LEAF_VERSION_TAPSCRIPT: u8 = 0xc0;

/// The tag `TapLeaf`.
pub open spec fn tap_leaf_tag() -> Seq<u8> {
    seq![0x54u8, 0x61u8, 0x70u8, 0x4cu8, 0x65u8, 0x61u8, 0x66u8]
}

/// The tag `TapBranch`.
pub open spec fn tap_branch_tag() -> Seq<u8> {
    seq![0x54u8, 0x61u8, 0x70u8, 0x42u8, 0x72u8, 0x61u8, 0x6eu8, 0x63u8, 0x68u8]
}

/// The tag `TapTweak`.
pub open spec fn tap_tweak_tag() -> Seq<u8> {
    seq![0x54u8, 0x61u8, 0x70u8, 0x54u8, 0x77u8, 0x65u8, 0x61u8, 0x6bu8]
}

/// The hash of a script leaf: over the leaf version and the script with its
/// length before it.
pub open spec fn tap_leaf_hash_of(version: u8, script: Seq<u8>) -> Seq<u8> {
    tagged_hash_of(tap_leaf_tag(), seq![version] + compact_size(script.len()) + script)
}

/// The hash of a branch over two nodes: the smaller of the two first.
pub open spec fn tap_branch_hash_of(a: Seq<u8>, b: Seq<u8>) -> Seq<u8> {
    if lex_less(b, a) {
        tagged_hash_of(tap_branch_tag(), b + a)
    } else {
        tagged_hash_of(tap_branch_tag(), a + b)
    }
}

/// The tweak of an internal key under the root of its script tree.
pub open spec fn tap_tweak_hash_of(internal_key: Seq<u8>, root: Option<Seq<u8>>) -> Seq<u8> {
    match root {
        Some(r) => tagged_hash_of(tap_tweak_tag(), internal_key + r),
        None => tagged_hash_of(tap_tweak_tag(), internal_key),
    }
}

/// The script that holds a commitment: 29 times `OP_RESERVED`, `OP_RETURN`,
/// and one push of the 32 bytes of the message and a nonce byte.
pub open spec fn tapret_script_of(message: Seq<u8>, nonce: u8) -> Seq<u8> {
    Seq::new(29, |i: int| 0x50u8) + seq![0x6au8, 0x21u8] + message + seq![nonce]
}

/// The root of the script tree with the commitment in it: the leaf of the
/// commitment alone, or the branch over it and the root that was there.
pub open spec fn tapret_root_of(script_root: Option<Seq<u8>>, message: Seq<u8>, nonce: u8) -> Seq<
    u8,
> {
    let leaf = tap_leaf_hash_of(LEAF_VERSION_TAPSCRIPT, tapret_script_of(message, nonce));
    match script_root {
        Some(r) => tap_branch_hash_of(leaf, r),
        None => leaf,
    }
}

/// The tweak that anchors a message under an internal key.
pub open spec fn tapret_tweak_of(
    internal_key: Seq<u8>,
    script_root: Option<Seq<u8>>,
    message: Seq<u8>,
    nonce: u8,
) -> Seq<u8> {
    tap_tweak_hash_of(internal_key, Some(tapret_root_of(script_root, message, nonce)))
}

/// What is needed to show the anchor later: the internal key, the node that
/// the commitment leaf was joined with, the leaf version and the nonce.
#[derive(Copy, Clone, PartialEq, Eq, Debug)]
pub struct TapretProof {
    /// The internal key of the output.
    pub internal_key: [u8; 32],
    /// The root of the scripts that the output had before, if it had any.
    pub partner: Option<[u8; 32]>,
    /// The leaf version of the commitment leaf.
    pub leaf_version: u8,
    /// The nonce byte of the commitment script.
    pub nonce: u8,
}

impl TapretProof {
    /// The bytes under which the proof is stored: the internal key, the leaf
    /// version, the nonce, and the node that the leaf was joined with, where
    /// there is one.
    pub open spec fn bytes_of(self) -> Seq<u8> {
        self.internal_key@ + seq![self.leaf_version, self.nonce] + (match self.partner {
            Some(h) => h@,
            None => Seq::empty(),
        })
    }

    /// The bytes under which the proof is stored.
    pub fn encode(&self) -> (out: Vec<u8>)
        ensures
            out@ == self.bytes_of(),
    {
        let mut out: Vec<u8> = Vec::new();
        bytes::extend(&mut out, self.internal_key.as_slice());
        out.push(self.leaf_version);
        out.push(self.nonce);
        match &self.partner {
            Some(h) => {
                bytes::extend(&mut out, h.as_slice());
            },
            None => {},
        }
        assert(out@ =~= self.bytes_of());
        out
    }
}

/// A resolved taproot anchor.
#[derive(Copy, Clone, PartialEq, Eq, Debug)]
pub struct TapretCommitment {
    /// The output key: the internal key with the tweak added.
    pub output_key: [u8; 32],
    /// Whether the `y` of the output key is odd.
    pub parity_odd: bool,
    /// The tweak that was added to the internal key.
    pub tweak: [u8; 32],
    /// The root of the script tree, with the commitment in it.
    pub merkle_root: [u8; 32],
    /// The proof of the anchor.
    pub proof: TapretProof,
}

/// The hash of a script leaf.
pub fn tap_leaf_hash(version: u8, script: &[u8]) -> (r: [u8; 32])
    ensures
        r@ == tap_leaf_hash_of(version, script@),
{
    let tag: [u8; 7] = [0x54, 0x61, 0x70, 0x4c, 0x65, 0x61, 0x66];
    assert(tag@ =~= tap_leaf_tag());
    let mut text: Vec<u8> = Vec::new();
    text.push(version);
    write_compact_size(&mut text, script.len() as u64);
    bytes::extend(&mut text, script);
    tagged_hash(tag.as_slice(), text.as_slice())
}

/// The hash of a branch over two nodes.
pub fn tap_branch_hash(a: &[u8; 32], b: &[u8; 32]) -> (r: [u8; 32])
    ensures
        r@ == tap_branch_hash_of(a@, b@),
{
    let tag: [u8; 9] = [0x54, 0x61, 0x70, 0x42, 0x72, 0x61, 0x6e, 0x63, 0x68];
    assert(tag@ =~= tap_branch_tag());
    let mut text: Vec<u8> = Vec::new();
    if bytes::less(b.as_slice(), a.as_slice()) {
        bytes::extend(&mut text, b.as_slice());
        bytes::extend(&mut text, a.as_slice());
    } else {
        bytes::extend(&mut text, a.as_slice());
        bytes::extend(&mut text, b.as_slice());
    }
    tagged_hash(tag.as_slice(), text.as_slice())
}

/// The tweak of an internal key under the root of its script tree.
pub fn tap_tweak_hash(internal_key: &[u8; 32], root: Option<&[u8; 32]>) -> (r: [u8; 32])
    ensures
        r@ == tap_tweak_hash_of(
            internal_key@,
            match root {
                Some(h) => Some(h@),
                None => None,
            },
        ),
{
    let tag: [u8; 8] = [0x54, 0x61, 0x70, 0x54, 0x77, 0x65, 0x61, 0x6b];
    assert(tag@ =~= tap_tweak_tag());
    let mut text: Vec<u8> = Vec::new();
    bytes::extend(&mut text, internal_key.as_slice());
    match root {
        Some(h) => {
            bytes::extend(&mut text, h.as_slice());
        },
        None => {},
    }
    tagged_hash(tag.as_slice(), text.as_slice())
}

/// The script that holds a commitment.
pub fn tapret_script(message: &[u8; 32], nonce: u8) -> (s: Vec<u8>)
    ensures
        s@ == tapret_script_of(message@, nonce),
        s@.len() == 64,
{
    let mut s: Vec<u8> = Vec::new();
    let mut i: usize = 0;
    while i < 29
        invariant
            i <= 29,
            s@ == Seq::new(i as nat, |j: int| 0x50u8),
        decreases 29 - i,
    {
        s.push(0x50);
        i += 1;
        assert(s@ =~= Seq::new(i as nat, |j: int| 0x50u8));
    }
    s.push(0x6a);
    s.push(0x21);
    bytes::extend(&mut s, message.as_slice());
    s.push(nonce);
    assert(s@ =~= tapret_script_of(message@, nonce));
    s
}

/// The root of the script tree with the commitment in it.
pub fn tapret_root(script_root: Option<&[u8; 32]>, message: &[u8; 32], nonce: u8) -> (r: [u8; 32])
    ensures
        r@ == tapret_root_of(
            match script_root {
                Some(h) => Some(h@),
                None => None,
            },
            message@,
            nonce,
        ),
{
    let script = tapret_script(message, nonce);
    let leaf = tap_leaf_hash(LEAF_VERSION_TAPSCRIPT, script.as_slice());
    match script_root {
        Some(h) => tap_branch_hash(&leaf, h),
        None => leaf,
    }
}

/// The anchor, from its parts and from what the curve gave for the internal
/// key with the tweak added: nothing where the curve gave nothing.
pub fn tapret_from(
    proof: TapretProof,
    merkle_root: [u8; 32],
    tweak: [u8; 32],
    tweaked: Option<([u8; 32], bool)>,
) -> (r: Option<TapretCommitment>)
    ensures
        r == (match tweaked {
            Some((key, odd)) => Some(
                TapretCommitment { output_key: key, parity_odd: odd, tweak, merkle_root, proof },
            ),
            None => None,
        }),
{
    match tweaked {
        Some((key, odd)) => Some(
            TapretCommitment { output_key: key, parity_odd: odd, tweak, merkle_root, proof },
        ),
        None => None,
    }
}

/// Anchors a message in a taproot output with the given internal key and,
/// where the output has scripts, the root of their tree. The nonce byte of
/// the commitment script is zero. There is no anchor where the internal key
/// is no key, or the tweak no scalar, or the tweaked key no key.
pub fn tapret_commit(
    internal_key: &[u8; 32],
    script_root: Option<[u8; 32]>,
    message: &[u8; 32],
) -> (r: Option<TapretCommitment>)
    ensures
        match r {
            Some(c) => {
                &&& c.proof == (TapretProof {
                    internal_key: *internal_key,
                    partner: script_root,
                    leaf_version: LEAF_VERSION_TAPSCRIPT,
                    nonce: 0,
                })
                &&& c.merkle_root@ == tapret_root_of(opt_view(script_root), message@, 0)
                &&& c.tweak@ == tapret_tweak_of(internal_key@, opt_view(script_root), message@, 0)
                &&& xonly_tweaked_key_of(internal_key@, c.tweak@) == Some(
                    (c.output_key@, c.parity_odd),
                )
            },
            None => xonly_tweaked_key_of(
                internal_key@,
                tapret_tweak_of(internal_key@, opt_view(script_root), message@, 0),
            ) is None,
        },
{
    let merkle_root = match &script_root {
        Some(h) => tapret_root(Some(h), message, 0),
        None => tapret_root(None, message, 0),
    };
    let tweak = tap_tweak_hash(internal_key, Some(&merkle_root));
    let tweaked = tweak_xonly_key(internal_key, &tweak);
    let proof = TapretProof {
        internal_key: *internal_key,
        partner: script_root,
        leaf_version: LEAF_VERSION_TAPSCRIPT,
        nonce: 0,
    };
    tapret_from(proof, merkle_root, tweak, tweaked)
}

/// Whether an output key is the internal key of a proof, tweaked by the
/// script tree that holds the message as the proof says.
pub fn tapret_verify(output_key: &[u8; 32], proof: &TapretProof, message: &[u8; 32]) -> (r: bool)
    ensures
        r == (proof.leaf_version == LEAF_VERSION_TAPSCRIPT && (xonly_tweaked_key_of(
            proof.internal_key@,
            tapret_tweak_of(proof.internal_key@, opt_view(proof.partner), message@, proof.nonce),
        ) matches Some((key, _)) && key == output_key@)),
{
    if proof.leaf_version != LEAF_VERSION_TAPSCRIPT {
        return false;
    }
    let merkle_root = match &proof.partner {
        Some(h) => tapret_root(Some(h), message, proof.nonce),
        None => tapret_root(None, message, proof.nonce),
    };
    let tweak = tap_tweak_hash(&proof.internal_key, Some(&merkle_root));
    match tweak_xonly_key(&proof.internal_key, &tweak) {
        Some((key, _)) => bytes::equal(key.as_slice(), output_key.as_slice()),
        None => false,
    }
}

} // verus!
