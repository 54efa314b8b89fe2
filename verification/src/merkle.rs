//! Binary Keccak-256 Merkle tree over hexadecimal leaf hashes, with
//! sorted-pair hashing: the two children of a node are hashed in string order,
//! so a proof of inclusion needs no record of left and right.

use vstd::prelude::*;
use crate::digest::{keccak256, keccak256_digest};
use crate::models::clone_strings;
use crate::hexcode::{decode, encode, hex_text, hex_text_bytes, is_hex_text, lemma_hex_text_round_trip};
use crate::order::{lemma_text_le_antisymmetric, lemma_text_le_total, str_eq, str_le, text_le};

verus! {

/// Why a tree or a proof could not be made.
#[derive(Debug, Clone, Copy, PartialEq, Eq, Structural)]
pub enum MerkleError {
    /// No leaf was given.
    EmptyLeaves,
    /// The leaf index is not below the number of leaves.
    IndexOutOfRange,
    /// A hash that had to be read is not hexadecimal text.
    InvalidHex,
}

/// The hash of two siblings: Keccak-256 over the bytes of the smaller string
/// followed by the bytes of the larger, written in hexadecimal.
pub open spec fn pair_hash(a: Seq<char>, b: Seq<char>) -> Seq<char> {
    if text_le(a, b) {
        hex_text(keccak256_digest(hex_text_bytes(a) + hex_text_bytes(b)))
    } else {
        hex_text(keccak256_digest(hex_text_bytes(b) + hex_text_bytes(a)))
    }
}

/// The level above `level`: consecutive elements hashed in pairs, the last
/// one with itself where the level has an odd number of elements.
pub open spec fn next_level(level: Seq<Seq<char>>) -> Seq<Seq<char>> {
    Seq::new(
        ((level.len() + 1) / 2) as nat,
        |i: int| pair_hash(level[2 * i], if 2 * i + 1 < level.len() { level[2 * i + 1] } else { level[2 * i] }),
    )
}

/// All levels of the tree over `leaves`, the leaves first and the root last.
pub open spec fn tree_levels(leaves: Seq<Seq<char>>) -> Seq<Seq<Seq<char>>>
    decreases leaves.len(),
{
    if leaves.len() <= 1 {
        seq![leaves]
    } else {
        seq![leaves] + tree_levels(next_level(leaves))
    }
}

/// The root of the tree over a non-empty sequence of leaves.
pub open spec fn merkle_root(leaves: Seq<Seq<char>>) -> Seq<char> {
    tree_levels(leaves).last()[0]
}

/// Whether every element is hexadecimal text.
pub open spec fn all_hex(level: Seq<Seq<char>>) -> bool {
    forall|i: int| 0 <= i < level.len() ==> is_hex_text(#[trigger] level[i])
}

/// The position of the sibling of position `index`.
pub open spec fn sibling(index: int) -> int {
    if index % 2 == 0 {
        index + 1
    } else {
        index - 1
    }
}

/// The inclusion proof for position `index` of the lowest of `levels`: at each
/// level but the last the sibling of the current position, where the level has
/// one, the position halving from level to level.
pub open spec fn proof_path(levels: Seq<Seq<Seq<char>>>, index: int) -> Seq<Seq<char>>
    decreases levels.len(),
{
    if levels.len() <= 1 {
        seq![]
    } else if 0 <= sibling(index) < levels[0].len() {
        seq![levels[0][sibling(index)]] + proof_path(levels.drop_first(), index / 2)
    } else {
        proof_path(levels.drop_first(), index / 2)
    }
}

/// The hash reached from `current` by combining it with each sibling of
/// `proof` in turn; `None` where a hash that has to be combined is not
/// hexadecimal text.
pub open spec fn fold_proof(current: Seq<char>, proof: Seq<Seq<char>>) -> Option<Seq<char>>
    decreases proof.len(),
{
    if proof.len() == 0 {
        Some(current)
    } else if is_hex_text(current) && is_hex_text(proof[0]) {
        fold_proof(pair_hash(current, proof[0]), proof.drop_first())
    } else {
        None
    }
}

/// Whether the path from position `index` of the lowest level to the root
/// meets a sibling at every level but the last.
pub open spec fn path_paired(levels: Seq<Seq<Seq<char>>>, index: int) -> bool
    decreases levels.len(),
{
    if levels.len() <= 1 {
        true
    } else {
        sibling(index) < levels[0].len() && path_paired(levels.drop_first(), index / 2)
    }
}

/// Whether every element has `length` characters.
pub open spec fn all_of_length(level: Seq<Seq<char>>, length: nat) -> bool {
    forall|i: int| 0 <= i < level.len() ==> (#[trigger] level[i]).len() == length
}

/// The strings of a vector, each by its characters.
pub open spec fn texts(v: Seq<String>) -> Seq<Seq<char>> {
    Seq::new(v.len(), |i: int| v[i]@)
}

/// The levels of a stored tree, each string by its characters.
pub open spec fn level_texts(t: Seq<Vec<String>>) -> Seq<Seq<Seq<char>>> {
    Seq::new(t.len(), |i: int| texts(t[i]@))
}

/// Pair hashing does not depend on the order of the two siblings.
pub proof fn lemma_pair_hash_commutes(a: Seq<char>, b: Seq<char>)
    ensures
        pair_hash(a, b) == pair_hash(b, a),
{
    lemma_text_le_total(a, b);
    if text_le(a, b) && text_le(b, a) {
        lemma_text_le_antisymmetric(a, b);
    }
}

/// The root of a tree over one leaf is that leaf.
pub proof fn lemma_single_leaf_root(leaf: Seq<char>)
    ensures
        merkle_root(seq![leaf]) == leaf,
        tree_levels(seq![leaf]) == seq![seq![leaf]],
{
}

/// Every level above the leaves holds hexadecimal text only, and is shorter
/// than the level below it.
pub proof fn lemma_next_level_hex(level: Seq<Seq<char>>)
    ensures
        all_hex(next_level(level)),
        next_level(level).len() == (level.len() + 1) / 2,
{
    assert forall|i: int| 0 <= i < next_level(level).len() implies is_hex_text(
        #[trigger] next_level(level)[i],
    ) by {
        let a = level[2 * i];
        let b = if 2 * i + 1 < level.len() {
            level[2 * i + 1]
        } else {
            level[2 * i]
        };
        lemma_hex_text_round_trip(keccak256_digest(hex_text_bytes(a) + hex_text_bytes(b)));
        lemma_hex_text_round_trip(keccak256_digest(hex_text_bytes(b) + hex_text_bytes(a)));
    }
}

/// The tree over a non-empty sequence of leaves ends in a level of one
/// element, and its lowest level is the leaves.
pub proof fn lemma_tree_levels_shape(leaves: Seq<Seq<char>>)
    requires
        leaves.len() > 0,
    ensures
        tree_levels(leaves).len() > 0,
        tree_levels(leaves)[0] == leaves,
        tree_levels(leaves).last().len() == 1,
        forall|k: int| 0 <= k < tree_levels(leaves).len() ==> (#[trigger] tree_levels(leaves)[k]).len() > 0,
    decreases leaves.len(),
{
    if leaves.len() > 1 {
        let next = next_level(leaves);
        lemma_tree_levels_shape(next);
        let rest = tree_levels(next);
        assert(tree_levels(leaves) == seq![leaves] + rest);
        assert(tree_levels(leaves).last() == rest.last());
        assert forall|k: int| 0 <= k < tree_levels(leaves).len() implies (#[trigger] tree_levels(
            leaves,
        )[k]).len() > 0 by {
            if k > 0 {
                assert(tree_levels(leaves)[k] == rest[k - 1]);
            }
        }
    }
}

/// Folding the proof path of a leaf reaches the root, for every leaf whose
/// path to the root meets a sibling at each level.
pub proof fn lemma_path_folds_to_root(leaves: Seq<Seq<char>>, index: int)
    requires
        0 <= index < leaves.len(),
        leaves.len() >= 2 ==> all_hex(leaves),
        path_paired(tree_levels(leaves), index),
    ensures
        fold_proof(leaves[index], proof_path(tree_levels(leaves), index)) == Some(merkle_root(leaves)),
    decreases leaves.len(),
{
    if leaves.len() >= 2 {
        let next = next_level(leaves);
        let rest = tree_levels(next);
        let levels = tree_levels(leaves);
        assert(levels == seq![leaves] + rest);
        assert(levels.drop_first() =~= rest);
        assert(levels[0] == leaves);
        lemma_next_level_hex(leaves);
        lemma_tree_levels_shape(next);
        assert(levels.last() == rest.last());
        let sib = sibling(index);
        let j = index / 2;
        assert(0 <= sib < leaves.len());
        let path = proof_path(levels, index);
        assert(path == seq![leaves[sib]] + proof_path(rest, j));
        assert(path.drop_first() =~= proof_path(rest, j));
        assert(path[0] == leaves[sib]);
        lemma_pair_hash_commutes(leaves[index], leaves[sib]);
        assert(next[j] == pair_hash(leaves[index], leaves[sib]));
        lemma_path_folds_to_root(next, j);
    }
}

/// Whether `n` is a power of two.
pub open spec fn is_power_of_two(n: nat) -> bool
    decreases n,
{
    n == 1 || (n > 1 && n % 2 == 0 && is_power_of_two(n / 2))
}

/// In a tree over a power of two of leaves every path to the root meets a
/// sibling at each level.
pub proof fn lemma_full_tree_paired(leaves: Seq<Seq<char>>, index: int)
    requires
        is_power_of_two(leaves.len()),
        0 <= index < leaves.len(),
    ensures
        path_paired(tree_levels(leaves), index),
    decreases leaves.len(),
{
    if leaves.len() >= 2 {
        let next = next_level(leaves);
        assert(tree_levels(leaves) == seq![leaves] + tree_levels(next));
        assert(tree_levels(leaves).drop_first() =~= tree_levels(next));
        lemma_full_tree_paired(next, index / 2);
    }
}

/// A Merkle tree: its root, its leaves, and every level from the leaves up.
#[derive(Debug)]
pub struct MerkleTree {
    pub root: String,
    pub leaves: Vec<String>,
    pub tree: Vec<Vec<String>>,
}

/// Figures of a tree.
#[derive(Debug)]
pub struct MerkleStats {
    pub total_leaves: usize,
    pub tree_height: usize,
    pub root_hash: String,
}

impl Clone for MerkleTree {
    fn clone(&self) -> (c: Self)
        ensures
            c.root@ == self.root@,
            texts(c.leaves@) == texts(self.leaves@),
            level_texts(c.tree@) == level_texts(self.tree@),
            c.wf() == self.wf(),
    {
        let mut tree: Vec<Vec<String>> = Vec::new();
        let mut k: usize = 0;
        while k < self.tree.len()
            invariant
                k <= self.tree.len(),
                tree.len() == k,
                forall|i: int| 0 <= i < k ==> texts((#[trigger] tree@[i])@) == texts(self.tree@[i]@),
            decreases self.tree.len() - k,
        {
            let level = clone_strings(&self.tree[k]);
            assert(texts(level@) =~= texts(self.tree@[k as int]@));
            tree.push(level);
            k += 1;
        }
        let leaves = clone_strings(&self.leaves);
        assert(texts(leaves@) =~= texts(self.leaves@));
        assert(level_texts(tree@) =~= level_texts(self.tree@));
        MerkleTree { root: self.root.clone(), leaves, tree }
    }
}

impl MerkleTree {
    /// The tree is the one that `new` builds over its leaves.
    pub open spec fn wf(&self) -> bool {
        &&& self.leaves.len() > 0
        &&& self.leaves.len() >= 2 ==> all_hex(texts(self.leaves@))
        &&& level_texts(self.tree@) == tree_levels(texts(self.leaves@))
        &&& self.root@ == merkle_root(texts(self.leaves@))
    }

    /// Hashes two siblings in string order.
    ///
    /// Fails exactly where one of the two is not hexadecimal text.
    pub fn hash_pair(left: &str, right: &str) -> (r: Result<String, MerkleError>)
        ensures
            is_hex_text(left@) && is_hex_text(right@) ==> (r matches Ok(h) && h@ == pair_hash(left@, right@)
                && h@.len() == 64),
            !(is_hex_text(left@) && is_hex_text(right@)) ==> r == Err::<String, MerkleError>(
                MerkleError::InvalidHex,
            ),
    {
        let (low, high) = if str_le(left, right) {
            (left, right)
        } else {
            (right, left)
        };
        let mut joined = match decode(low.as_bytes()) {
            Ok(bytes) => bytes,
            Err(_) => {
                return Err(MerkleError::InvalidHex);
            },
        };
        let mut tail = match decode(high.as_bytes()) {
            Ok(bytes) => bytes,
            Err(_) => {
                return Err(MerkleError::InvalidHex);
            },
        };
        joined.append(&mut tail);
        let digest = keccak256(joined.as_slice());
        Ok(encode(&digest))
    }

    /// Hashes one level into the level above it.
    fn pair_up(level: &Vec<String>) -> (r: Result<Vec<String>, MerkleError>)
        requires
            level.len() >= 1,
        ensures
            all_hex(texts(level@)) ==> (r matches Ok(next) && texts(next@) == next_level(texts(level@))
                && all_of_length(texts(next@), 64)),
            !all_hex(texts(level@)) ==> r == Err::<Vec<String>, MerkleError>(MerkleError::InvalidHex),
    {
        let n = level.len();
        let count = n / 2 + n % 2;
        let mut next: Vec<String> = Vec::new();
        let mut j: usize = 0;
        while j < count
            invariant
                n == level.len(),
                count == n / 2 + n % 2,
                j <= count,
                next.len() == j,
                forall|k: int| 0 <= k < 2 * j && k < n ==> is_hex_text(#[trigger] texts(level@)[k]),
                forall|k: int| 0 <= k < next.len() ==> (#[trigger] next@[k])@ == next_level(texts(level@))[k],
                forall|k: int| 0 <= k < next.len() ==> (#[trigger] next@[k])@.len() == 64,
            decreases count - j,
        {
            let left = &level[2 * j];
            let right = if 2 * j + 1 < n {
                &level[2 * j + 1]
            } else {
                &level[2 * j]
            };
            assert(left@ == texts(level@)[2 * j]);
            assert(right@ == if 2 * j + 1 < n {
                texts(level@)[2 * j + 1]
            } else {
                texts(level@)[2 * j]
            });
            match Self::hash_pair(left.as_str(), right.as_str()) {
                Ok(h) => {
                    next.push(h);
                },
                Err(_) => {
                    return Err(MerkleError::InvalidHex);
                },
            }
            j += 1;
        }
        assert(texts(next@) =~= next_level(texts(level@)));
        Ok(next)
    }

    /// Builds the tree over `hashes`.
    ///
    /// Fails where no leaf is given, and where two or more are given and one
    /// of them is not hexadecimal text. A single leaf is its own root.
    pub fn new(hashes: Vec<String>) -> (r: Result<MerkleTree, MerkleError>)
        ensures
            hashes.len() == 0 ==> r == Err::<MerkleTree, MerkleError>(MerkleError::EmptyLeaves),
            hashes.len() >= 2 && !all_hex(texts(hashes@)) ==> r == Err::<MerkleTree, MerkleError>(
                MerkleError::InvalidHex,
            ),
            hashes.len() == 1 || (hashes.len() >= 2 && all_hex(texts(hashes@))) ==> (r matches Ok(t)
                && t.wf() && texts(t.leaves@) == texts(hashes@)),
            hashes.len() == 1 ==> (r matches Ok(t) && t.root@ == hashes@[0]@),
            hashes.len() >= 2 ==> (r matches Ok(t) ==> t.root@.len() == 64),
    {
        if hashes.len() == 0 {
            return Err(MerkleError::EmptyLeaves);
        }
        let leaves = clone_strings(&hashes);
        assert(texts(leaves@) =~= texts(hashes@));
        let ghost leaf_texts = texts(hashes@);
        let mut tree: Vec<Vec<String>> = Vec::new();
        let mut current = hashes;
        while current.len() > 1
            invariant
                current.len() >= 1,
                leaf_texts == texts(hashes@),
                texts(leaves@) == leaf_texts,
                leaf_texts.len() == leaves.len(),
                level_texts(tree@) + tree_levels(texts(current@)) == tree_levels(leaf_texts),
                tree.len() > 0 ==> all_hex(texts(current@)),
                tree.len() == 0 ==> texts(current@) == leaf_texts,
                tree.len() > 0 ==> leaf_texts.len() >= 2 && all_hex(leaf_texts),
                tree.len() > 0 ==> all_of_length(texts(current@), 64),
            decreases current.len(),
        {
            let next = match Self::pair_up(&current) {
                Ok(next) => next,
                Err(e) => {
                    return Err(e);
                },
            };
            proof {
                let cur = texts(current@);
                lemma_next_level_hex(cur);
                assert(tree_levels(cur) == seq![cur] + tree_levels(next_level(cur)));
                assert(level_texts(tree@.push(current)) =~= level_texts(tree@) + seq![cur]);
                assert((level_texts(tree@) + seq![cur]) + tree_levels(next_level(cur)) =~= level_texts(tree@) + (
                seq![cur] + tree_levels(next_level(cur))));
            }
            tree.push(current);
            current = next;
        }
        let root = current[0].clone();
        proof {
            let cur = texts(current@);
            assert(tree_levels(cur) == seq![cur]);
            assert(level_texts(tree@.push(current)) =~= level_texts(tree@) + seq![cur]);
            assert(tree_levels(leaf_texts).last() == cur);
            assert(cur[0] == current@[0]@);
        }
        tree.push(current);
        Ok(MerkleTree { root, leaves, tree })
    }

    /// The inclusion proof for the leaf at `leaf_index`: the siblings met on
    /// the way from the leaf to the root, lowest first.
    ///
    /// Fails exactly where `leaf_index` is not below the number of leaves.
    pub fn generate_proof(&self, leaf_index: usize) -> (r: Result<Vec<String>, MerkleError>)
        ensures
            leaf_index >= self.leaves.len() ==> r == Err::<Vec<String>, MerkleError>(
                MerkleError::IndexOutOfRange,
            ),
            leaf_index < self.leaves.len() ==> (r matches Ok(proof) && texts(proof@) == proof_path(
                level_texts(self.tree@),
                leaf_index as int,
            )),
    {
        if leaf_index >= self.leaves.len() {
            return Err(MerkleError::IndexOutOfRange);
        }
        let ghost levels = level_texts(self.tree@);
        let mut proof: Vec<String> = Vec::new();
        let mut current_index = leaf_index;
        let mut k: usize = 0;
        proof {
            assert(levels.skip(0) =~= levels);
        }
        while self.tree.len() > 0 && k < self.tree.len() - 1
            invariant
                k <= self.tree.len(),
                levels == level_texts(self.tree@),
                texts(proof@) + proof_path(levels.skip(k as int), current_index as int) == proof_path(
                    levels,
                    leaf_index as int,
                ),
            decreases self.tree.len() - k,
        {
            let level = &self.tree[k];
            let ghost before = texts(proof@);
            proof {
                assert(levels.skip(k as int).drop_first() =~= levels.skip(k + 1));
                assert(levels.skip(k as int)[0] == texts(level@));
            }
            if current_index % 2 == 0 {
                if current_index < usize::MAX && current_index + 1 < level.len() {
                    proof.push(level[current_index + 1].clone());
                    proof {
                        assert(texts(proof@) =~= before + seq![texts(level@)[current_index + 1]]);
                    }
                }
            } else {
                if current_index - 1 < level.len() {
                    proof.push(level[current_index - 1].clone());
                    proof {
                        assert(texts(proof@) =~= before + seq![texts(level@)[current_index - 1]]);
                    }
                }
            }
            proof {
                let tail = proof_path(levels.skip(k + 1), current_index as int / 2);
                let step = proof_path(levels.skip(k as int), current_index as int);
                assert(texts(proof@) + tail =~= before + step);
            }
            current_index = current_index / 2;
            k += 1;
        }
        proof {
            assert(proof_path(levels.skip(k as int), current_index as int) =~= Seq::<Seq<char>>::empty());
            assert(texts(proof@) + Seq::<Seq<char>>::empty() =~= texts(proof@));
        }
        Ok(proof)
    }

    /// Whether combining `leaf_hash` with the siblings of `proof` in turn
    /// reaches `root`.
    ///
    /// Sorted pairing makes the side of each sibling irrelevant, so
    /// `leaf_index` does not bear on the answer. Fails exactly where a hash
    /// that has to be combined is not hexadecimal text.
    pub fn verify_proof(leaf_hash: &str, proof: &[String], root: &str, leaf_index: usize) -> (r: Result<
        bool,
        MerkleError,
    >)
        ensures
            match fold_proof(leaf_hash@, texts(proof@)) {
                Some(reached) => r == Ok::<bool, MerkleError>(reached == root@),
                None => r == Err::<bool, MerkleError>(MerkleError::InvalidHex),
            },
    {
        if proof.len() == 0 {
            return Ok(str_eq(leaf_hash, root));
        }
        let mut current = match Self::hash_pair(leaf_hash, proof[0].as_str()) {
            Ok(h) => h,
            Err(e) => {
                return Err(e);
            },
        };
        let ghost path = texts(proof@);
        proof {
            assert(path[0] == proof@[0]@);
            assert(path.skip(1) =~= path.drop_first());
            lemma_pair_hash_is_hex(leaf_hash@, proof@[0]@);
        }
        let mut i: usize = 1;
        while i < proof.len()
            invariant
                1 <= i <= proof.len(),
                path == texts(proof@),
                fold_proof(current@, path.skip(i as int)) == fold_proof(leaf_hash@, path),
                is_hex_text(current@),
            decreases proof.len() - i,
        {
            proof {
                assert(path.skip(i as int).drop_first() =~= path.skip(i + 1));
                assert(path.skip(i as int)[0] == proof@[i as int]@);
            }
            let next = match Self::hash_pair(current.as_str(), proof[i].as_str()) {
                Ok(h) => h,
                Err(e) => {
                    return Err(e);
                },
            };
            proof {
                lemma_pair_hash_is_hex(current@, proof@[i as int]@);
            }
            current = next;
            i += 1;
        }
        Ok(str_eq(current.as_str(), root))
    }

    /// The number of leaves, the number of levels, and the root.
    pub fn stats(&self) -> (s: MerkleStats)
        ensures
            s.total_leaves == self.leaves.len(),
            s.tree_height == self.tree.len(),
            s.root_hash@ == self.root@,
    {
        MerkleStats {
            total_leaves: self.leaves.len(),
            tree_height: self.tree.len(),
            root_hash: self.root.clone(),
        }
    }
}

/// The proof that `generate_proof` gives for a leaf verifies against the
/// root, for every leaf whose path to the root meets a sibling at each level.
/// (A position left alone at the end of a level of odd length is hashed with
/// itself in the tree, while its proof holds no sibling for that level: the
/// proof of such a leaf does not lead to the root.)
pub proof fn lemma_generated_proof_verifies(tree: MerkleTree, index: int)
    requires
        tree.wf(),
        0 <= index < tree.leaves.len(),
        path_paired(level_texts(tree.tree@), index),
    ensures
        fold_proof(tree.leaves@[index]@, proof_path(level_texts(tree.tree@), index)) == Some(tree.root@),
{
    lemma_path_folds_to_root(texts(tree.leaves@), index);
}

/// A pair hash is hexadecimal text.
pub proof fn lemma_pair_hash_is_hex(a: Seq<char>, b: Seq<char>)
    ensures
        is_hex_text(pair_hash(a, b)),
{
    lemma_hex_text_round_trip(keccak256_digest(hex_text_bytes(a) + hex_text_bytes(b)));
    lemma_hex_text_round_trip(keccak256_digest(hex_text_bytes(b) + hex_text_bytes(a)));
}

} // verus!
