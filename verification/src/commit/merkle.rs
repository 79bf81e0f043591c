//! Binary hash trees over a row of leaves whose number is a power of two.
//!
//! The root of a row of one is that one. The root of a longer row is the root
//! of the row of its pairs' digests. The path of a leaf is the row of the
//! neighbours met on the way up, lowest first; with the leaf and its place it
//! gives the root back.

use vstd::arithmetic::power2::{lemma2_to64, lemma_pow2_pos, lemma_pow2_unfold, pow2};
use vstd::prelude::*;

use crate::bytes;
use crate::hashes::{sha256, sha256_of};

verus! {

/// The byte that opens the hashed text of an inner node.
pub const NODE_TAG: u8 = 0x02;

/// The digest of an inner node over its two children.
pub open spec fn node_hash(left: Seq<u8>, right: Seq<u8>) -> Seq<u8> {
    sha256_of(seq![NODE_TAG] + left + right)
}

/// The row above a row: the digests of its pairs.
pub open spec fn next_level(level: Seq<Seq<u8>>) -> Seq<Seq<u8>> {
    Seq::new(level.len() / 2, |i: int| node_hash(level[2 * i], level[2 * i + 1]))
}

/// The root of the tree over a row.
pub open spec fn merkle_root(level: Seq<Seq<u8>>) -> Seq<u8>
    decreases level.len(),
{
    if level.len() <= 1 {
        level[0]
    } else {
        merkle_root(next_level(level))
    }
}

/// The place of the other leaf of the pair.
pub open spec fn sibling(i: int) -> int {
    if i % 2 == 0 {
        i + 1
    } else {
        i - 1
    }
}

/// The neighbours of the leaf at `i` on its way up, lowest first.
pub open spec fn merkle_path(level: Seq<Seq<u8>>, i: int) -> Seq<Seq<u8>>
    decreases level.len(),
{
    if level.len() <= 1 {
        Seq::empty()
    } else {
        seq![level[sibling(i)]] + merkle_path(next_level(level), i / 2)
    }
}

/// The root that a leaf at place `i` has under a path: at each step the
/// digest of the pair, the leaf's side first where its place is even.
pub open spec fn root_from_path(leaf: Seq<u8>, i: int, path: Seq<Seq<u8>>) -> Seq<u8>
    decreases path.len(),
{
    if path.len() == 0 {
        leaf
    } else if i % 2 == 0 {
        root_from_path(node_hash(leaf, path[0]), i / 2, path.drop_first())
    } else {
        root_from_path(node_hash(path[0], leaf), i / 2, path.drop_first())
    }
}

/// The path of a leaf in a row of `2^depth` has `depth` steps.
pub proof fn lemma_path_len(level: Seq<Seq<u8>>, i: int, depth: nat)
    requires
        level.len() == pow2(depth),
    ensures
        merkle_path(level, i).len() == depth,
    decreases depth,
{
    lemma2_to64();
    if depth == 0 {
    } else {
        lemma_pow2_unfold(depth);
        lemma_pow2_pos((depth - 1) as nat);
        lemma_path_len(next_level(level), i / 2, (depth - 1) as nat);
    }
}

/// Every leaf of a row, taken up its own path, arrives at the root of the
/// row.
pub proof fn lemma_path_leads_to_root(level: Seq<Seq<u8>>, i: int, depth: nat)
    requires
        level.len() == pow2(depth),
        0 <= i < level.len(),
    ensures
        root_from_path(level[i], i, merkle_path(level, i)) == merkle_root(level),
    decreases depth,
{
    lemma2_to64();
    if depth == 0 {
    } else {
        lemma_pow2_unfold(depth);
        lemma_pow2_pos((depth - 1) as nat);
        let up = next_level(level);
        let path = merkle_path(level, i);
        assert(path.drop_first() =~= merkle_path(up, i / 2));
        assert(path[0] == level[sibling(i)]);
        lemma_path_leads_to_root(up, i / 2, (depth - 1) as nat);
        if i % 2 == 0 {
            assert(up[i / 2] == node_hash(level[i], level[i + 1]));
        } else {
            assert(up[i / 2] == node_hash(level[i - 1], level[i]));
        }
    }
}

/// A row of digests as byte strings.
pub open spec fn row_view(row: Seq<[u8; 32]>) -> Seq<Seq<u8>> {
    Seq::new(row.len(), |i: int| row[i]@)
}

/// The digest of an inner node over its two children.
pub fn hash_node(left: &[u8; 32], right: &[u8; 32]) -> (r: [u8; 32])
    ensures
        r@ == node_hash(left@, right@),
{
    let mut buf: Vec<u8> = Vec::new();
    buf.push(NODE_TAG);
    bytes::extend(&mut buf, left.as_slice());
    bytes::extend(&mut buf, right.as_slice());
    sha256(buf.as_slice())
}

/// The root that a leaf at place `index` has under a path. A proof of
/// inclusion holds where this is the root of the tree.
pub fn root_of_path(leaf: &[u8; 32], index: usize, path: &[[u8; 32]]) -> (r: [u8; 32])
    ensures
        r@ == root_from_path(leaf@, index as int, row_view(path@)),
{
    let mut cur: [u8; 32] = *leaf;
    let mut at: usize = index;
    let mut k: usize = 0;
    assert(row_view(path@).skip(0) =~= row_view(path@));
    while k < path.len()
        invariant
            k <= path@.len(),
            root_from_path(leaf@, index as int, row_view(path@)) == root_from_path(
                cur@,
                at as int,
                row_view(path@).skip(k as int),
            ),
        decreases path@.len() - k,
    {
        let ghost rest = row_view(path@).skip(k as int);
        assert(rest[0] == path@[k as int]@);
        assert(rest.drop_first() =~= row_view(path@).skip(k + 1));
        if at % 2 == 0 {
            cur = hash_node(&cur, &path[k]);
        } else {
            cur = hash_node(&path[k], &cur);
        }
        at = at / 2;
        k += 1;
    }
    cur
}

/// The rows of a tree from the leaves up to the root, each the row above the
/// one before it.
pub(crate) struct MerkleTree {
    levels: Vec<Vec<[u8; 32]>>,
}

impl MerkleTree {
    /// The row at height `k`, as byte strings.
    pub(crate) closed spec fn level(&self, k: int) -> Seq<Seq<u8>> {
        row_view(self.levels@[k]@)
    }

    /// The number of rows above the leaves.
    pub(crate) closed spec fn depth(&self) -> nat {
        (self.levels@.len() - 1) as nat
    }

    /// The leaves of the tree.
    pub(crate) open spec fn leaves(&self) -> Seq<Seq<u8>> {
        self.level(0)
    }

    #[verifier::type_invariant]
    pub(crate) closed spec fn well_formed(&self) -> bool {
        &&& self.levels@.len() >= 1
        &&& forall|k: int|
            0 <= k < self.levels@.len() ==> (#[trigger] self.levels@[k])@.len() == pow2(
                (self.levels@.len() - 1 - k) as nat,
            )
        &&& forall|k: int|
            0 <= k < self.levels@.len() - 1 ==> row_view((#[trigger] self.levels@[k + 1])@)
                == next_level(row_view(self.levels@[k]@))
    }

    /// The root of the row at height `k` is the one digest of the top row.
    proof fn lemma_root_from_level(&self, k: int)
        requires
            self.well_formed(),
            0 <= k <= self.depth(),
        ensures
            merkle_root(self.level(k)) == self.level(self.depth() as int)[0],
        decreases self.depth() - k,
    {
        lemma2_to64();
        if k < self.depth() {
            lemma_pow2_unfold((self.depth() - k) as nat);
            lemma_pow2_pos((self.depth() - k - 1) as nat);
            assert(self.levels@[k]@.len() == pow2((self.depth() - k) as nat));
            assert(row_view(self.levels@[k + 1]@) == next_level(row_view(self.levels@[k]@)));
            self.lemma_root_from_level(k + 1);
        } else {
            assert(self.levels@[k]@.len() == pow2(0));
        }
    }

    /// The row above a row.
    fn level_above(level: &Vec<[u8; 32]>) -> (up: Vec<[u8; 32]>)
        ensures
            up@.len() == level@.len() / 2,
            row_view(up@) == next_level(row_view(level@)),
    {
        let mut up: Vec<[u8; 32]> = Vec::new();
        let half = level.len() / 2;
        let mut i: usize = 0;
        while i < half
            invariant
                i <= half,
                half == level@.len() / 2,
                level@.len() <= usize::MAX,
                up@.len() == i,
                forall|j: int|
                    0 <= j < i ==> (#[trigger] up@[j])@ == node_hash(
                        level@[2 * j]@,
                        level@[2 * j + 1]@,
                    ),
            decreases half - i,
        {
            let h = hash_node(&level[2 * i], &level[2 * i + 1]);
            up.push(h);
            i += 1;
        }
        assert(row_view(up@) =~= next_level(row_view(level@)));
        up
    }

    /// The tree over a row of `2^depth` leaves.
    pub(crate) fn build(leaves: Vec<[u8; 32]>, depth: u8) -> (t: MerkleTree)
        requires
            leaves@.len() == pow2(depth as nat),
        ensures
            t.leaves() == row_view(leaves@),
            t.depth() == depth,
    {
        let mut levels: Vec<Vec<[u8; 32]>> = Vec::new();
        let ghost bottom = leaves@;
        levels.push(leaves);
        let mut k: u8 = 0;
        while k < depth
            invariant
                k <= depth,
                levels@.len() == k + 1,
                levels@[0]@ == bottom,
                forall|j: int|
                    0 <= j <= k ==> (#[trigger] levels@[j])@.len() == pow2((depth - j) as nat),
                forall|j: int|
                    0 <= j < k ==> row_view((#[trigger] levels@[j + 1])@) == next_level(
                        row_view(levels@[j]@),
                    ),
            decreases depth - k,
        {
            proof {
                lemma_pow2_unfold((depth - k) as nat);
            }
            let up = Self::level_above(&levels[k as usize]);
            levels.push(up);
            k += 1;
        }
        MerkleTree { levels }
    }

    /// The root of the tree.
    pub(crate) fn root(&self) -> (r: [u8; 32])
        ensures
            r@ == merkle_root(self.leaves()),
    {
        proof {
            use_type_invariant(self);
            self.lemma_root_from_level(0);
            lemma2_to64();
        }
        let top = &self.levels[self.levels.len() - 1];
        top[0]
    }

    /// The path of the leaf at `index`.
    pub(crate) fn path(&self, index: usize) -> (p: Vec<[u8; 32]>)
        requires
            index < self.leaves().len(),
        ensures
            row_view(p@) == merkle_path(self.leaves(), index as int),
            p@.len() == self.depth(),
    {
        proof {
            use_type_invariant(self);
        }
        let mut p: Vec<[u8; 32]> = Vec::new();
        let mut at: usize = index;
        let mut k: usize = 0;
        let top = self.levels.len() - 1;
        assert(row_view(p@) + merkle_path(self.level(0), at as int) =~= merkle_path(
            self.leaves(),
            index as int,
        ));
        while k < top
            invariant
                self.well_formed(),
                top == self.levels@.len() - 1,
                k <= top,
                p@.len() == k,
                at < self.levels@[k as int]@.len(),
                merkle_path(self.leaves(), index as int) == row_view(p@) + merkle_path(
                    self.level(k as int),
                    at as int,
                ),
            decreases top - k,
        {
            proof {
                lemma_pow2_unfold((top - k) as nat);
                lemma_pow2_pos((top - k - 1) as nat);
                assert(self.levels@[k as int]@.len() == pow2((top - k) as nat));
                assert(self.levels@[k + 1]@.len() == pow2((top - (k + 1)) as nat));
                assert(row_view(self.levels@[k + 1]@) == next_level(
                    row_view(self.levels@[k as int]@),
                ));
            }
            let row = &self.levels[k];
            let other = if at % 2 == 0 {
                at + 1
            } else {
                at - 1
            };
            let ghost before = row_view(p@);
            p.push(row[other]);
            proof {
                assert(row_view(p@) =~= before + seq![row@[other as int]@]);
                assert(self.level(k as int)[sibling(at as int)] == row@[other as int]@);
            }
            at = at / 2;
            k += 1;
        }
        proof {
            lemma2_to64();
            assert(self.levels@[k as int]@.len() == pow2(0));
            assert(merkle_path(self.level(k as int), at as int) =~= Seq::<Seq<u8>>::empty());
            assert(row_view(p@) + Seq::<Seq<u8>>::empty() =~= row_view(p@));
        }
        p
    }
}

} // verus!
