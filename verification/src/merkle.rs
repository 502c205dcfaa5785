//! Roots and paths of the Jellyfish Merkle tree over a set of leaves.
//!
//! Everything here is computed by the `jmt` crate. The library only names
//! the results and states how a path that the tree returns relates to the
//! tree's root.

use vstd::prelude::*;

verus! {

/// The root hash of the Jellyfish Merkle tree that holds exactly `leaves`,
/// each a key hash with its value, put into an empty tree as one value set;
/// `None` if the tree cannot be built.
pub uninterp spec fn jmt_root(leaves: Seq<(Seq<u8>, Seq<u8>)>) -> Option<Seq<u8>>;

/// The encoded path that the same tree returns for `key`; `None` if the
/// tree cannot be built, written to its store, asked, or the path encoded.
pub uninterp spec fn jmt_path(leaves: Seq<(Seq<u8>, Seq<u8>)>, key: Seq<u8>) -> Option<Seq<u8>>;

/// Whether `path` decodes to a sparse Merkle proof that shows, under
/// `root`, that `key` holds `value`, or holds nothing if `value` is `None`.
pub uninterp spec fn jmt_path_verifies(
    root: Seq<u8>,
    key: Seq<u8>,
    value: Option<Seq<u8>>,
    path: Seq<u8>,
) -> bool;

#[verifier::external_type_specification]
#[verifier::external_body]
pub struct ExAnyhowError(anyhow::Error);

/// The leaves of a vector of byte arrays, as sequences.
pub open spec fn leaves_view(leaves: Seq<([u8; 32], [u8; 32])>) -> Seq<(Seq<u8>, Seq<u8>)> {
    leaves.map_values(|leaf: ([u8; 32], [u8; 32])| (leaf.0@, leaf.1@))
}

/// No key occurs twice among the leaves.
pub open spec fn distinct_keys(leaves: Seq<(Seq<u8>, Seq<u8>)>) -> bool {
    forall|i: int, j: int|
        0 <= i < j < leaves.len() ==> (#[trigger] leaves[i]).0 != (#[trigger] leaves[j]).0
}

/// The value that the leaves hold for `key`, if any.
pub open spec fn leaf_value(leaves: Seq<(Seq<u8>, Seq<u8>)>, key: Seq<u8>) -> Option<Seq<u8>>
    decreases leaves.len(),
{
    if leaves.len() == 0 {
        None
    } else {
        match leaf_value(leaves.drop_last(), key) {
            Some(value) => Some(value),
            None => if leaves.last().0 == key {
                Some(leaves.last().1)
            } else {
                None
            },
        }
    }
}

/// The value of an optional byte array, as a sequence.
pub open spec fn value_view(value: Option<&[u8; 32]>) -> Option<Seq<u8>> {
    match value {
        Some(bytes) => Some(bytes@),
        None => None,
    }
}

/// Builds a tree over `leaves` in a fresh `jmt::mock::MockTreeStore` with
/// `jmt::JellyfishMerkleTree::put_value_set`. Trusted: whether the tree can
/// be built, and its root hash if it can, depend on the leaves alone.
#[verifier::external_body]
pub(crate) fn merkle_root(leaves: &Vec<([u8; 32], [u8; 32])>) -> (out: Result<
    [u8; 32],
    anyhow::Error,
>)
    requires
        distinct_keys(leaves_view(leaves@)),
    ensures
        match out {
            Ok(root) => jmt_root(leaves_view(leaves@)) == Some(root@),
            Err(_) => jmt_root(leaves_view(leaves@)) is None,
        },
{
    let store = jmt::mock::MockTreeStore::default();
    let tree = jmt::Sha256Jmt::new(&store);
    let set = leaves.iter().map(|leaf| (jmt::KeyHash(leaf.0), Some(leaf.1.to_vec())));
    match tree.put_value_set(set, 0) {
        Ok((root, _batch)) => Ok(root.0),
        Err(e) => Err(e),
    }
}

/// Builds the same tree, writes it to its store and asks
/// `jmt::JellyfishMerkleTree::get_with_proof` for `key`; the proof is
/// encoded with `borsh::to_vec`. Trusted: whether all of this succeeds, and
/// the encoded path if it does, depend on the leaves and the key alone; a
/// path is only had from a tree that can be built, and it verifies under
/// that tree's root for what the leaves hold under the key.
#[verifier::external_body]
pub(crate) fn merkle_path(leaves: &Vec<([u8; 32], [u8; 32])>, key: &[u8; 32]) -> (out: Result<
    Vec<u8>,
    anyhow::Error,
>)
    requires
        distinct_keys(leaves_view(leaves@)),
    ensures
        match out {
            Ok(path) => {
                &&& jmt_path(leaves_view(leaves@), key@) == Some(path@)
                &&& jmt_root(leaves_view(leaves@)) matches Some(root)
                &&& jmt_path_verifies(root, key@, leaf_value(leaves_view(leaves@), key@), path@)
            },
            Err(_) => jmt_path(leaves_view(leaves@), key@) is None,
        },
{
    let store = jmt::mock::MockTreeStore::default();
    let tree = jmt::Sha256Jmt::new(&store);
    let set = leaves.iter().map(|leaf| (jmt::KeyHash(leaf.0), Some(leaf.1.to_vec())));
    let (_root, batch) = tree.put_value_set(set, 0)?;
    store.write_tree_update_batch(batch)?;
    let (_value, proof) = tree.get_with_proof(jmt::KeyHash(*key), 0)?;
    Ok(borsh::to_vec(&proof)?)
}

/// Decodes `path` with `borsh::from_slice` and calls
/// `jmt::proof::SparseMerkleProof::verify` on it. Trusted: the outcome
/// depends on the four values alone; a path that does not decode verifies
/// nothing.
#[verifier::external_body]
pub(crate) fn merkle_verify(
    root: &[u8; 32],
    key: &[u8; 32],
    value: Option<&[u8; 32]>,
    path: &[u8],
) -> (out: Result<(), anyhow::Error>)
    ensures
        out is Ok <==> jmt_path_verifies(root@, key@, value_view(value), path@),
{
    let proof: jmt::proof::SparseMerkleProof<sha2::Sha256> = borsh::from_slice(path)?;
    proof.verify(jmt::RootHash(*root), jmt::KeyHash(*key), value)
}

} // verus!
