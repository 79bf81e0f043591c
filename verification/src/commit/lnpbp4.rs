//! The multi-protocol commitment: one root that commits to the messages of
//! many protocols at once.
//!
//! The messages are put in the order of their protocol identifiers and stand
//! as the first leaves of a hash tree of the declared depth. The leaves that
//! are left over are filled with digests of an entropy value, which is itself
//! a digest of the real leaves. Leaves, padding, inner nodes and the entropy
//! are hashed under different tags, so none can pass for another.

use vstd::arithmetic::power2::{lemma2_to64, lemma_pow2_strictly_increases, lemma_pow2_unfold, pow2};
use vstd::prelude::*;

use crate::bytes::{lemma_lex_irreflexive, lemma_lex_total, lemma_lex_transitive, lex_less};
use crate::commit::merkle::{
    lemma_path_leads_to_root, lemma_path_len, merkle_path, merkle_root, root_from_path,
    root_of_path, row_view, MerkleTree,
};
use crate::encoding::{le4, push_le4};
use crate::error::Error;
use crate::hashes::{sha256, sha256_of};

verus! {

/// The deepest tree that is built: it has `2^16` leaves.
pub const MAX_TREE_DEPTH: u8 = 16;

/// The byte that opens the hashed text of a leaf with a message.
pub const LEAF_TAG: u8 = 0x00;

/// The byte that opens the hashed text of a padding leaf.
pub const PADDING_TAG: u8 = 0x01;

/// The byte that opens the hashed text of the entropy.
pub const ENTROPY_TAG: u8 = 0x03;

/// The message of one protocol.
#[derive(Copy, Clone, PartialEq, Eq, PartialOrd, Ord, Hash, Debug)]
pub struct ProtocolMessage {
    /// The identifier of the protocol.
    pub protocol: [u8; 32],
    /// The digest that the protocol commits to.
    pub message: [u8; 32],
}

/// The proof that one message stands under a root: the place of its leaf and
/// the neighbours on the way up, lowest first.
#[derive(Clone, PartialEq, Eq, Debug)]
pub struct InclusionProof {
    /// The place of the leaf, counted from zero.
    pub index: usize,
    /// The neighbours of the leaf on its way up.
    pub path: Vec<[u8; 32]>,
}

/// The leaf of a message.
pub open spec fn leaf_hash(m: ProtocolMessage) -> Seq<u8> {
    sha256_of(seq![LEAF_TAG] + m.protocol@ + m.message@)
}

/// The leaves of a row of messages, in their order.
pub open spec fn message_leaves(msgs: Seq<ProtocolMessage>) -> Seq<Seq<u8>> {
    Seq::new(msgs.len(), |i: int| leaf_hash(msgs[i]))
}

/// A row of byte strings, one after the other.
pub open spec fn concat_all(rows: Seq<Seq<u8>>) -> Seq<u8>
    decreases rows.len(),
{
    if rows.len() == 0 {
        Seq::empty()
    } else {
        concat_all(rows.drop_last()) + rows.last()
    }
}

/// The entropy of a row of messages: a digest of all their leaves.
pub open spec fn entropy_of(msgs: Seq<ProtocolMessage>) -> Seq<u8> {
    sha256_of(seq![ENTROPY_TAG] + concat_all(message_leaves(msgs)))
}

/// The padding leaf at a place, under an entropy.
pub open spec fn padding_hash(entropy: Seq<u8>, slot: int) -> Seq<u8> {
    sha256_of(seq![PADDING_TAG] + entropy + le4(slot as nat))
}

/// The leaves of the tree of the given depth over a row of messages: the
/// leaves of the messages first, then padding.
pub open spec fn tree_leaves(msgs: Seq<ProtocolMessage>, depth: nat) -> Seq<Seq<u8>> {
    Seq::new(
        pow2(depth),
        |i: int|
            if i < msgs.len() {
                leaf_hash(msgs[i])
            } else {
                padding_hash(entropy_of(msgs), i)
            },
    )
}

/// The root that commits to a row of messages in a tree of the given depth.
pub open spec fn commitment_root(msgs: Seq<ProtocolMessage>, depth: nat) -> Seq<u8> {
    merkle_root(tree_leaves(msgs, depth))
}

/// Whether the messages stand in the strict order of their protocol
/// identifiers.
pub open spec fn sorted_by_protocol(msgs: Seq<ProtocolMessage>) -> bool {
    forall|i: int, j: int|
        0 <= i < j < msgs.len() ==> lex_less(
            (#[trigger] msgs[i]).protocol@,
            (#[trigger] msgs[j]).protocol@,
        )
}

/// Whether no two of the messages are for one protocol.
pub open spec fn distinct_protocols(msgs: Seq<ProtocolMessage>) -> bool {
    forall|i: int, j: int|
        0 <= i < j < msgs.len() ==> (#[trigger] msgs[i]).protocol@ != (#[trigger] msgs[j]).protocol@
}

/// Whether two rows hold the same messages.
pub open spec fn same_messages(a: Seq<ProtocolMessage>, b: Seq<ProtocolMessage>) -> bool {
    forall|m: ProtocolMessage| a.contains(m) <==> b.contains(m)
}

/// Whether a tree of the given depth has a leaf for each of `count` messages.
pub open spec fn fits(count: nat, depth: u8) -> bool {
    depth <= MAX_TREE_DEPTH && count <= pow2(depth as nat)
}

/// A byte string does not come before an equal one.
proof fn lemma_less_differs(a: Seq<u8>, b: Seq<u8>)
    requires
        lex_less(a, b),
    ensures
        a != b,
{
    lemma_lex_irreflexive(a);
}

/// Messages in the strict order of their protocols are for distinct
/// protocols.
pub proof fn lemma_sorted_distinct(msgs: Seq<ProtocolMessage>)
    requires
        sorted_by_protocol(msgs),
    ensures
        distinct_protocols(msgs),
{
    assert forall|i: int, j: int| 0 <= i < j < msgs.len() implies (#[trigger] msgs[i]).protocol@
        != (#[trigger] msgs[j]).protocol@ by {
        lemma_less_differs(msgs[i].protocol@, msgs[j].protocol@);
    }
}

/// The messages of a set have one order only: two sorted rows with the same
/// messages are the same row.
pub proof fn lemma_sorted_unique(a: Seq<ProtocolMessage>, b: Seq<ProtocolMessage>)
    requires
        sorted_by_protocol(a),
        sorted_by_protocol(b),
        same_messages(a, b),
    ensures
        a == b,
    decreases a.len(),
{
    if a.len() == 0 {
        if b.len() > 0 {
            assert(b.contains(b[0]));
            assert(a.contains(b[0]));
        }
        assert(a =~= b);
    } else {
        assert(a.contains(a[0]));
        assert(b.contains(a[0]));
        let j = choose|j: int| 0 <= j < b.len() && b[j] == a[0];
        assert(b.contains(b[0]));
        assert(a.contains(b[0]));
        let i = choose|i: int| 0 <= i < a.len() && a[i] == b[0];
        if i > 0 {
            // a[0] < a[i] == b[0] <= b[j] == a[0]
            if j > 0 {
                lemma_lex_transitive(a[0].protocol@, a[i].protocol@, b[j].protocol@);
            }
            lemma_lex_irreflexive(a[0].protocol@);
        }
        assert(a[0] == b[0]);
        let ta = a.drop_first();
        let tb = b.drop_first();
        assert(sorted_by_protocol(ta)) by {
            assert forall|x: int, y: int| 0 <= x < y < ta.len() implies lex_less(
                (#[trigger] ta[x]).protocol@,
                (#[trigger] ta[y]).protocol@,
            ) by {
                assert(ta[x] == a[x + 1] && ta[y] == a[y + 1]);
            }
        }
        assert(sorted_by_protocol(tb)) by {
            assert forall|x: int, y: int| 0 <= x < y < tb.len() implies lex_less(
                (#[trigger] tb[x]).protocol@,
                (#[trigger] tb[y]).protocol@,
            ) by {
                assert(tb[x] == b[x + 1] && tb[y] == b[y + 1]);
            }
        }
        assert forall|m: ProtocolMessage| ta.contains(m) <==> tb.contains(m) by {
            if ta.contains(m) {
                let x = choose|x: int| 0 <= x < ta.len() && ta[x] == m;
                assert(a[x + 1] == m);
                assert(a.contains(m));
                assert(b.contains(m));
                let y = choose|y: int| 0 <= y < b.len() && b[y] == m;
                if y == 0 {
                    lemma_less_differs(a[0].protocol@, a[x + 1].protocol@);
                }
                assert(tb[y - 1] == m);
            }
            if tb.contains(m) {
                let y = choose|y: int| 0 <= y < tb.len() && tb[y] == m;
                assert(b[y + 1] == m);
                assert(b.contains(m));
                assert(a.contains(m));
                let x = choose|x: int| 0 <= x < a.len() && a[x] == m;
                if x == 0 {
                    lemma_less_differs(b[0].protocol@, b[y + 1].protocol@);
                }
                assert(ta[x - 1] == m);
            }
        }
        lemma_sorted_unique(ta, tb);
        assert(a =~= seq![a[0]] + ta);
        assert(b =~= seq![b[0]] + tb);
    }
}

/// The root does not depend on the order in which the messages were handed
/// in: the same messages and the same depth give the same root and entropy.
pub proof fn lemma_root_is_of_the_set(
    a: Seq<ProtocolMessage>,
    b: Seq<ProtocolMessage>,
    depth: nat,
)
    requires
        sorted_by_protocol(a),
        sorted_by_protocol(b),
        same_messages(a, b),
    ensures
        commitment_root(a, depth) == commitment_root(b, depth),
        entropy_of(a) == entropy_of(b),
{
    lemma_sorted_unique(a, b);
}

/// The leaf of every message, taken up its path in the tree, arrives at the
/// root of the commitment; and the path has as many steps as the tree is
/// deep.
pub proof fn lemma_inclusion(msgs: Seq<ProtocolMessage>, depth: nat, i: int)
    requires
        0 <= i < msgs.len() <= pow2(depth),
    ensures
        root_from_path(leaf_hash(msgs[i]), i, merkle_path(tree_leaves(msgs, depth), i))
            == commitment_root(msgs, depth),
        merkle_path(tree_leaves(msgs, depth), i).len() == depth,
{
    let leaves = tree_leaves(msgs, depth);
    lemma_path_leads_to_root(leaves, i, depth);
    lemma_path_len(leaves, i, depth);
}

/// The leaf of a message.
pub fn hash_leaf(m: &ProtocolMessage) -> (r: [u8; 32])
    ensures
        r@ == leaf_hash(*m),
{
    let mut buf: Vec<u8> = Vec::new();
    buf.push(LEAF_TAG);
    crate::bytes::extend(&mut buf, m.protocol.as_slice());
    crate::bytes::extend(&mut buf, m.message.as_slice());
    sha256(buf.as_slice())
}

/// The padding leaf at a place, under an entropy.
fn hash_padding(entropy: &[u8; 32], slot: usize) -> (r: [u8; 32])
    requires
        slot < 0x1_0000_0000,
    ensures
        r@ == padding_hash(entropy@, slot as int),
{
    let mut buf: Vec<u8> = Vec::new();
    buf.push(PADDING_TAG);
    crate::bytes::extend(&mut buf, entropy.as_slice());
    push_le4(&mut buf, slot as u64);
    sha256(buf.as_slice())
}

/// The number of leaves of a tree of the given depth.
fn width_of(depth: u8) -> (w: usize)
    requires
        depth <= MAX_TREE_DEPTH,
    ensures
        w == pow2(depth as nat),
        w <= 0x1_0000,
{
    let mut w: usize = 1;
    let mut k: u8 = 0;
    proof {
        lemma2_to64();
    }
    while k < depth
        invariant
            k <= depth <= MAX_TREE_DEPTH,
            w == pow2(k as nat),
            w <= pow2(16),
            pow2(16) == 0x1_0000,
        decreases depth - k,
    {
        proof {
            lemma_pow2_unfold((k + 1) as nat);
            if k + 1 < 16 {
                lemma_pow2_strictly_increases((k + 1) as nat, 16);
            }
        }
        w = w * 2;
        k += 1;
    }
    w
}

/// Puts the messages in the order of their protocol identifiers; `None`
/// where two of them are for one protocol.
pub fn sort_messages(messages: &[ProtocolMessage]) -> (r: Option<Vec<ProtocolMessage>>)
    ensures
        match r {
            Some(s) => {
                &&& sorted_by_protocol(s@)
                &&& same_messages(s@, messages@)
                &&& s@.len() == messages@.len()
                &&& distinct_protocols(messages@)
            },
            None => !distinct_protocols(messages@),
        },
{
    let mut out: Vec<ProtocolMessage> = Vec::new();
    let mut k: usize = 0;
    while k < messages.len()
        invariant
            k <= messages@.len(),
            out@.len() == k,
            sorted_by_protocol(out@),
            forall|p: int|
                0 <= p < out@.len() ==> exists|j: int|
                    0 <= j < k && messages@[j] == #[trigger] out@[p],
            forall|j: int| 0 <= j < k ==> out@.contains(#[trigger] messages@[j]),
            distinct_protocols(messages@.subrange(0, k as int)),
        decreases messages@.len() - k,
    {
        let m = messages[k];
        let mut pos: usize = 0;
        let mut searching = true;
        while searching
            invariant
                pos <= out@.len(),
                forall|q: int| 0 <= q < pos ==> lex_less((#[trigger] out@[q]).protocol@, m.protocol@),
                !searching ==> pos == out@.len() || !lex_less(
                    out@[pos as int].protocol@,
                    m.protocol@,
                ),
            decreases out@.len() - pos + (if searching { 1int } else { 0int }),
        {
            if pos < out.len() && crate::bytes::less(
                out[pos].protocol.as_slice(),
                m.protocol.as_slice(),
            ) {
                pos += 1;
            } else {
                searching = false;
            }
        }
        if pos < out.len() && crate::bytes::equal(
            out[pos].protocol.as_slice(),
            m.protocol.as_slice(),
        ) {
            proof {
                let j = choose|j: int| 0 <= j < k && messages@[j] == out@[pos as int];
                assert(messages@[j].protocol@ == messages@[k as int].protocol@);
            }
            return None;
        }
        let ghost old_out = out@;
        proof {
            if pos < old_out.len() {
                lemma_lex_total(old_out[pos as int].protocol@, m.protocol@);
            }
            assert forall|q: int| pos <= q < old_out.len() implies lex_less(
                m.protocol@,
                (#[trigger] old_out[q]).protocol@,
            ) by {
                if q > pos {
                    lemma_lex_transitive(
                        m.protocol@,
                        old_out[pos as int].protocol@,
                        old_out[q].protocol@,
                    );
                }
            }
        }
        out.insert(pos, m);
        proof {
            let new_out = out@;
            assert forall|x: int, y: int| 0 <= x < y < new_out.len() implies lex_less(
                (#[trigger] new_out[x]).protocol@,
                (#[trigger] new_out[y]).protocol@,
            ) by {
                let ox = if x < pos { x } else { x - 1 };
                let oy = if y < pos { y } else { y - 1 };
                if x != pos && y != pos {
                    assert(new_out[x] == old_out[ox] && new_out[y] == old_out[oy]);
                } else if x == pos {
                    assert(new_out[y] == old_out[oy]);
                } else {
                    assert(new_out[x] == old_out[ox]);
                }
            }
            assert forall|p: int| 0 <= p < new_out.len() implies exists|j: int|
                0 <= j < k + 1 && messages@[j] == #[trigger] new_out[p] by {
                if p == pos {
                    assert(messages@[k as int] == new_out[p]);
                } else {
                    let op = if p < pos { p } else { p - 1 };
                    assert(new_out[p] == old_out[op]);
                    let j = choose|j: int| 0 <= j < k && messages@[j] == old_out[op];
                    assert(messages@[j] == new_out[p]);
                }
            }
            assert forall|j: int| 0 <= j < k + 1 implies new_out.contains(
                #[trigger] messages@[j],
            ) by {
                if j == k {
                    assert(new_out[pos as int] == messages@[j]);
                } else {
                    assert(old_out.contains(messages@[j]));
                    let op = choose|op: int| 0 <= op < old_out.len() && old_out[op] == messages@[j];
                    let p = if op < pos { op } else { op + 1 };
                    assert(new_out[p] == messages@[j]);
                }
            }
            let before = messages@.subrange(0, k as int);
            let upto = messages@.subrange(0, k + 1);
            assert forall|x: int, y: int| 0 <= x < y < upto.len() implies (#[trigger] upto[x]).protocol@
                != (#[trigger] upto[y]).protocol@ by {
                if y < k {
                    assert(before[x] == upto[x] && before[y] == upto[y]);
                } else {
                    assert(old_out.contains(messages@[x]));
                    let op = choose|op: int| 0 <= op < old_out.len() && old_out[op] == messages@[x];
                    if op < pos {
                        lemma_less_differs(old_out[op].protocol@, m.protocol@);
                    } else {
                        lemma_less_differs(m.protocol@, old_out[op].protocol@);
                    }
                }
            }
        }
        k += 1;
    }
    proof {
        assert(messages@.subrange(0, k as int) =~= messages@);
        assert forall|m: ProtocolMessage| out@.contains(m) <==> messages@.contains(m) by {
            if out@.contains(m) {
                let p = choose|p: int| 0 <= p < out@.len() && out@[p] == m;
                let j = choose|j: int| 0 <= j < k && messages@[j] == out@[p];
                assert(messages@[j] == m);
            }
            if messages@.contains(m) {
                let j = choose|j: int| 0 <= j < messages@.len() && messages@[j] == m;
                assert(out@.contains(messages@[j]));
            }
        }
    }
    Some(out)
}

/// A commitment to the messages of many protocols: the root, the entropy
/// that fills the unused leaves, and for each message the proof that it
/// stands under the root.
#[derive(Clone, PartialEq, Eq, Debug)]
pub struct MultiCommitment {
    /// The depth of the tree.
    pub depth: u8,
    /// The messages, in the order of their protocol identifiers.
    pub messages: Vec<ProtocolMessage>,
    /// The entropy that the padding leaves are made from.
    pub entropy: [u8; 32],
    /// The root of the tree.
    pub root: [u8; 32],
    /// The proof of each message, in the order of the messages.
    pub proofs: Vec<InclusionProof>,
}

impl MultiCommitment {
    /// Whether root, entropy and proofs are those of the messages and the
    /// depth.
    pub open spec fn wf(&self) -> bool {
        &&& fits(self.messages@.len(), self.depth)
        &&& sorted_by_protocol(self.messages@)
        &&& self.entropy@ == entropy_of(self.messages@)
        &&& self.root@ == commitment_root(self.messages@, self.depth as nat)
        &&& self.proofs@.len() == self.messages@.len()
        &&& forall|i: int|
            0 <= i < self.proofs@.len() ==> {
                &&& (#[trigger] self.proofs@[i]).index == i
                &&& row_view(self.proofs@[i].path@) == merkle_path(
                    tree_leaves(self.messages@, self.depth as nat),
                    i,
                )
            }
    }

    /// The number of padding leaves of the tree.
    pub open spec fn padding_count(&self) -> int {
        pow2(self.depth as nat) - self.messages@.len()
    }

    /// Commits to the messages in a tree of depth `min_depth`. Two messages
    /// for one protocol are refused with `UnbalancedProtocolSet`; more
    /// messages than the tree has leaves, or a depth beyond
    /// `MAX_TREE_DEPTH`, with `DepthExceeded`.
    pub fn commit(messages: &[ProtocolMessage], min_depth: u8) -> (r: Result<
        MultiCommitment,
        Error,
    >)
        ensures
            match r {
                Ok(c) => {
                    &&& distinct_protocols(messages@)
                    &&& fits(messages@.len(), min_depth)
                    &&& c.wf()
                    &&& c.depth == min_depth
                    &&& c.messages@.len() == messages@.len()
                    &&& same_messages(c.messages@, messages@)
                },
                Err(e) => if !distinct_protocols(messages@) {
                    e == Error::UnbalancedProtocolSet
                } else {
                    e == Error::DepthExceeded && !fits(messages@.len(), min_depth)
                },
            },
    {
        let sorted = match sort_messages(messages) {
            Some(sorted) => sorted,
            None => {
                return Err(Error::UnbalancedProtocolSet);
            },
        };
        if min_depth > MAX_TREE_DEPTH {
            return Err(Error::DepthExceeded);
        }
        let width = width_of(min_depth);
        let count = sorted.len();
        if count > width {
            return Err(Error::DepthExceeded);
        }
        let ghost msgs = sorted@;
        let ghost own = message_leaves(msgs);
        // the leaves of the messages, and the text that the entropy is the digest of
        let mut leaves: Vec<[u8; 32]> = Vec::new();
        let mut text: Vec<u8> = Vec::new();
        text.push(ENTROPY_TAG);
        let mut i: usize = 0;
        assert(concat_all(own.subrange(0, 0)) =~= Seq::<u8>::empty());
        while i < count
            invariant
                i <= count,
                count == msgs.len(),
                msgs == sorted@,
                own == message_leaves(msgs),
                leaves@.len() == i,
                forall|j: int| 0 <= j < i ==> (#[trigger] leaves@[j])@ == leaf_hash(msgs[j]),
                text@ == seq![ENTROPY_TAG] + concat_all(own.subrange(0, i as int)),
            decreases count - i,
        {
            let leaf = hash_leaf(&sorted[i]);
            crate::bytes::extend(&mut text, leaf.as_slice());
            leaves.push(leaf);
            proof {
                let upto = own.subrange(0, i + 1);
                assert(upto.drop_last() =~= own.subrange(0, i as int));
                assert(upto.last() == leaf@);
            }
            i += 1;
        }
        assert(own.subrange(0, count as int) =~= own);
        let entropy = sha256(text.as_slice());
        while i < width
            invariant
                count <= i <= width,
                width == pow2(min_depth as nat),
                width <= 0x1_0000,
                count == msgs.len(),
                entropy@ == entropy_of(msgs),
                leaves@.len() == i,
                forall|j: int|
                    0 <= j < i ==> (#[trigger] leaves@[j])@ == tree_leaves(msgs, min_depth as nat)[j],
            decreases width - i,
        {
            let pad = hash_padding(&entropy, i);
            leaves.push(pad);
            i += 1;
        }
        assert(row_view(leaves@) =~= tree_leaves(msgs, min_depth as nat));
        let tree = MerkleTree::build(leaves, min_depth);
        let root = tree.root();
        let mut proofs: Vec<InclusionProof> = Vec::new();
        let mut n: usize = 0;
        while n < count
            invariant
                n <= count,
                count == msgs.len(),
                count <= pow2(min_depth as nat),
                tree.leaves() == tree_leaves(msgs, min_depth as nat),
                proofs@.len() == n,
                forall|j: int|
                    0 <= j < n ==> {
                        &&& (#[trigger] proofs@[j]).index == j
                        &&& row_view(proofs@[j].path@) == merkle_path(
                            tree_leaves(msgs, min_depth as nat),
                            j,
                        )
                    },
            decreases count - n,
        {
            let path = tree.path(n);
            proofs.push(InclusionProof { index: n, path });
            n += 1;
        }
        Ok(MultiCommitment { depth: min_depth, messages: sorted, entropy, root, proofs })
    }

    /// The number of padding leaves of the tree: the leaves that no message
    /// stands on.
    pub fn padding(&self) -> (n: usize)
        requires
            self.wf(),
        ensures
            n == self.padding_count(),
    {
        width_of(self.depth) - self.messages.len()
    }

    /// The place of the message of a protocol among the messages, where the
    /// commitment holds one for it.
    pub fn find(&self, protocol: &[u8; 32]) -> (r: Option<usize>)
        ensures
            match r {
                Some(i) => i < self.messages@.len() && self.messages@[i as int].protocol@
                    == protocol@,
                None => forall|i: int|
                    0 <= i < self.messages@.len() ==> (#[trigger] self.messages@[i]).protocol@
                        != protocol@,
            },
    {
        let mut i: usize = 0;
        while i < self.messages.len()
            invariant
                i <= self.messages@.len(),
                forall|j: int|
                    0 <= j < i ==> (#[trigger] self.messages@[j]).protocol@ != protocol@,
            decreases self.messages@.len() - i,
        {
            if crate::bytes::equal(self.messages[i].protocol.as_slice(), protocol.as_slice()) {
                return Some(i);
            }
            i += 1;
        }
        None
    }

    /// The proof of the message at place `i`, which leads from the leaf of
    /// the message to the root.
    pub fn proof_of(&self, i: usize) -> (p: &InclusionProof)
        requires
            self.wf(),
            i < self.messages@.len(),
        ensures
            *p == self.proofs@[i as int],
            p.index == i,
            root_from_path(leaf_hash(self.messages@[i as int]), i as int, row_view(p.path@))
                == self.root@,
            p.path@.len() == self.depth,
    {
        proof {
            lemma_inclusion(self.messages@, self.depth as nat, i as int);
            assert(row_view(self.proofs@[i as int].path@).len() == self.proofs@[i as int].path@.len());
        }
        &self.proofs[i]
    }
}

/// Whether a proof leads from the leaf of a message to a root.
pub fn verify_inclusion(root: &[u8; 32], message: &ProtocolMessage, proof: &InclusionProof) -> (r:
    bool)
    ensures
        r == (root_from_path(leaf_hash(*message), proof.index as int, row_view(proof.path@))
            == root@),
{
    let leaf = hash_leaf(message);
    let got = root_of_path(&leaf, proof.index, proof.path.as_slice());
    crate::bytes::equal(got.as_slice(), root.as_slice())
}

} // verus!
