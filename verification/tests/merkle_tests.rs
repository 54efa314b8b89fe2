use rofl_enclave::merkle::{MerkleError, MerkleTree};
use rofl_enclave::order::{bytes_le, str_eq, str_le};
use sha3::Digest;

#[test]
fn test_single_leaf_tree() {
    let hashes = vec!["abcd".to_string()];
    let tree = MerkleTree::new(hashes.clone()).unwrap();
    assert_eq!(tree.root, "abcd");
}

#[test]
fn test_two_leaf_tree() {
    let hashes = vec!["a".repeat(64), "b".repeat(64)];
    let tree = MerkleTree::new(hashes).unwrap();
    assert_eq!(tree.leaves.len(), 2);
    assert_ne!(tree.root, tree.leaves[0]);
}

#[test]
fn test_odd_number_leaves() {
    let hashes = vec!["a".repeat(64), "b".repeat(64), "c".repeat(64)];
    let tree = MerkleTree::new(hashes).unwrap();
    assert_eq!(tree.leaves.len(), 3);
}

#[test]
fn test_proof_generation_and_verification() {
    let hashes = vec!["a".repeat(64), "b".repeat(64), "c".repeat(64), "d".repeat(64)];
    let tree = MerkleTree::new(hashes.clone()).unwrap();

    let proof = tree.generate_proof(0).unwrap();

    let is_valid = MerkleTree::verify_proof(&tree.leaves[0], &proof, &tree.root, 0).unwrap();

    assert!(is_valid);
}

#[test]
fn test_hash_pair_ordering() {
    let hash1 = "a".repeat(64);
    let hash2 = "b".repeat(64);

    let result1 = MerkleTree::hash_pair(&hash1, &hash2).unwrap();
    let result2 = MerkleTree::hash_pair(&hash2, &hash1).unwrap();

    assert_eq!(result1, result2);
}

#[test]
fn test_empty_tree() {
    let hashes = vec![];
    let result = MerkleTree::new(hashes);
    assert!(result.is_err());
    assert_eq!(result.unwrap_err(), MerkleError::EmptyLeaves);
}

fn keccak_pair(first: &str, second: &str) -> String {
    let mut bytes = hex::decode(first).unwrap();
    bytes.extend(hex::decode(second).unwrap());
    hex::encode(sha3::Keccak256::digest(&bytes))
}

#[test]
fn merkle_round_trip() {
    let hashes = vec!["a".repeat(64), "b".repeat(64), "c".repeat(64), "d".repeat(64)];
    let tree = MerkleTree::new(hashes.clone()).unwrap();
    for i in 0..4 {
        let proof = tree.generate_proof(i).unwrap();
        assert_eq!(proof.len(), 2);
        assert!(MerkleTree::verify_proof(&hashes[i], &proof, &tree.root, i).unwrap());
        let mut tampered = tree.root.clone();
        let flipped = if tampered.starts_with('0') { "1" } else { "0" };
        tampered.replace_range(0..1, flipped);
        assert!(!MerkleTree::verify_proof(&hashes[i], &proof, &tampered, i).unwrap());
        assert!(!MerkleTree::verify_proof(&hashes[(i + 1) % 4], &proof, &tree.root, i).unwrap());
    }
}

#[test]
fn tree_levels_are_pair_hashes() {
    let (a, b, c) = ("a".repeat(64), "b".repeat(64), "c".repeat(64));
    let tree = MerkleTree::new(vec![b.clone(), a.clone(), c.clone()]).unwrap();
    let ab = keccak_pair(&a, &b);
    let cc = keccak_pair(&c, &c);
    assert_eq!(tree.tree.len(), 3);
    assert_eq!(tree.tree[0], vec![b.clone(), a.clone(), c.clone()]);
    assert_eq!(tree.tree[1], vec![ab.clone(), cc.clone()]);
    let root = if ab <= cc { keccak_pair(&ab, &cc) } else { keccak_pair(&cc, &ab) };
    assert_eq!(tree.tree[2], vec![root.clone()]);
    assert_eq!(tree.root, root);
    assert_eq!(tree.leaves, vec![b.clone(), a.clone(), c.clone()]);
    let stats = tree.stats();
    assert_eq!(stats.total_leaves, 3);
    assert_eq!(stats.tree_height, 3);
    assert_eq!(stats.root_hash, root);
}

#[test]
fn proof_of_a_leaf_without_sibling_holds_no_entry_for_that_level() {
    let hashes = vec!["a".repeat(64), "b".repeat(64), "c".repeat(64)];
    let tree = MerkleTree::new(hashes.clone()).unwrap();
    assert_eq!(tree.generate_proof(0).unwrap(), vec![hashes[1].clone(), tree.tree[1][1].clone()]);
    assert_eq!(tree.generate_proof(1).unwrap(), vec![hashes[0].clone(), tree.tree[1][1].clone()]);
    let last = tree.generate_proof(2).unwrap();
    assert_eq!(last, vec![tree.tree[1][0].clone()]);
    assert!(MerkleTree::verify_proof(&hashes[0], &tree.generate_proof(0).unwrap(), &tree.root, 0).unwrap());
    assert!(MerkleTree::verify_proof(&hashes[1], &tree.generate_proof(1).unwrap(), &tree.root, 1).unwrap());
    assert!(!MerkleTree::verify_proof(&hashes[2], &last, &tree.root, 2).unwrap());
}

#[test]
fn merkle_errors() {
    let tree = MerkleTree::new(vec!["a".repeat(64), "b".repeat(64)]).unwrap();
    assert_eq!(tree.generate_proof(2).unwrap_err(), MerkleError::IndexOutOfRange);
    assert_eq!(tree.generate_proof(usize::MAX).unwrap_err(), MerkleError::IndexOutOfRange);
    assert_eq!(MerkleTree::new(vec!["zz".to_string(), "ab".to_string()]).unwrap_err(), MerkleError::InvalidHex);
    assert_eq!(MerkleTree::new(vec!["ab".to_string(), "abc".to_string()]).unwrap_err(), MerkleError::InvalidHex);
    assert_eq!(MerkleTree::hash_pair("ab", "xy").unwrap_err(), MerkleError::InvalidHex);
    assert_eq!(
        MerkleTree::verify_proof("ab", &["nothex".to_string()], "ab", 0).unwrap_err(),
        MerkleError::InvalidHex
    );
    // A single leaf is not decoded.
    let single = MerkleTree::new(vec!["not hex".to_string()]).unwrap();
    assert_eq!(single.root, "not hex");
    assert_eq!(single.generate_proof(0).unwrap(), Vec::<String>::new());
    assert!(MerkleTree::verify_proof("not hex", &[], &single.root, 0).unwrap());
    assert!(!MerkleTree::verify_proof("not hex", &[], "other", 0).unwrap());
}

#[test]
fn hash_pair_hashes_the_smaller_string_first() {
    assert_eq!(MerkleTree::hash_pair("ff", "00").unwrap(), keccak_pair("00", "ff"));
    assert_eq!(MerkleTree::hash_pair("ff", "00").unwrap().len(), 64);
    assert_eq!(MerkleTree::new(vec!["ff".to_string(), "00".to_string()]).unwrap().root.len(), 64);
    assert_eq!(MerkleTree::hash_pair("00", "ff").unwrap(), keccak_pair("00", "ff"));
    // Upper case sorts before lower case, and stands for the same bytes.
    assert_eq!(MerkleTree::hash_pair("ab", "AC").unwrap(), keccak_pair("ac", "ab"));
    assert_eq!(MerkleTree::hash_pair("", "").unwrap(), hex::encode(sha3::Keccak256::digest(b"")));
    assert_ne!(MerkleTree::hash_pair("00", "ff").unwrap(), "00");
}

#[test]
fn strings_are_ordered_by_their_bytes() {
    for (a, b) in [("", ""), ("", "a"), ("a", ""), ("ab", "abc"), ("abd", "abc"), ("Z", "a"), ("\u{e9}", "z"), ("a", "a")] {
        assert_eq!(str_le(a, b), a <= b);
        assert_eq!(bytes_le(a.as_bytes(), b.as_bytes()), a.as_bytes() <= b.as_bytes());
        assert_eq!(str_eq(a, b), a == b);
    }
}
