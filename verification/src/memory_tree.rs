//! A directory held in memory, whose root and Merkle paths come from a
//! Jellyfish Merkle tree built over its leaves.

use crate::digest::{Digest, DigestView};
use crate::encoding::bytes_equal;
use crate::hashchain::{extend, last_hash, Hashchain};
use crate::merkle::{
    distinct_keys, jmt_path, jmt_root, leaf_value, leaves_view, merkle_path, merkle_root,
};
use crate::operation::{Operation, OperationView};
use crate::tree::{
    accepts, apply, chain_of, key_hash_of, lemma_position_in_range, lemma_position_stable, position,
    Directory, HashchainResponse, InsertProof, KeyHash, MembershipProof, NonMembershipProof,
    Proof, Slot, StateTree, TreeError, UpdateProof,
};
use vstd::prelude::*;

verus! {

/// The leaves of a directory: each account's key with the digest of the
/// last entry of its history.
pub open spec fn leaves_of(slots: Seq<Slot>) -> Seq<(Seq<u8>, Seq<u8>)> {
    slots.map_values(|slot: Slot| (slot.key, last_hash(slot.chain)))
}

/// The root of the tree over the leaves of a directory; no bytes if that
/// tree cannot be built.
pub open spec fn root_of_leaves(slots: Directory) -> DigestView {
    match jmt_root(leaves_of(slots)) {
        Some(root) => root,
        None => Seq::empty(),
    }
}

/// The tree over the leaves of a directory can be built, and a path for
/// `key` can be had from it.
pub open spec fn provable(slots: Directory, key: Seq<u8>) -> bool {
    jmt_root(leaves_of(slots)) is Some && jmt_path(leaves_of(slots), key) is Some
}

/// The directory of a tree in memory after `operation` was offered to it:
/// applied if the directory takes it and evidence can be had before and
/// after, unchanged if not. Two trees in memory that hold the same
/// directory and are offered the same operation end with the same
/// directory, and so with the same root.
pub open spec fn memory_step(slots: Directory, operation: OperationView) -> Directory {
    let key = key_hash_of(operation.id());
    if accepts(slots, operation) && provable(slots, key) && provable(
        apply(slots, operation),
        key,
    ) {
        apply(slots, operation)
    } else {
        slots
    }
}

/// No key has two places in the directory.
pub open spec fn distinct_slots(slots: Seq<Slot>) -> bool {
    forall|i: int, j: int|
        0 <= i < j < slots.len() ==> (#[trigger] slots[i]).key != (#[trigger] slots[j]).key
}

/// What the leaves of a directory hold under a key is the digest of the
/// last entry of the history at the key's place.
proof fn lemma_leaf_value_of_slots(slots: Seq<Slot>, key: Seq<u8>)
    ensures
        leaf_value(leaves_of(slots), key) == match position(slots, key) {
            Some(i) => Some(last_hash(slots[i].chain)),
            None => None,
        },
    decreases slots.len(),
{
    if slots.len() > 0 {
        lemma_leaf_value_of_slots(slots.drop_last(), key);
        lemma_position_in_range(slots.drop_last(), key);
        assert(leaves_of(slots).drop_last() =~= leaves_of(slots.drop_last()));
    }
}

/// A directory without a key twice has leaves without a key twice.
proof fn lemma_distinct_leaves(slots: Seq<Slot>)
    requires
        distinct_slots(slots),
    ensures
        distinct_keys(leaves_of(slots)),
{
    assert forall|i: int, j: int| 0 <= i < j < leaves_of(slots).len() implies (
    #[trigger] leaves_of(slots)[i]).0 != (#[trigger] leaves_of(slots)[j]).0 by {
        assert(slots[i].key != slots[j].key);
    }
}

/// Applying an operation to a directory without a key twice leaves no key
/// twice, and files the extended history at the place of the operation's
/// key.
proof fn lemma_apply_keeps_distinct(slots: Seq<Slot>, operation: OperationView)
    requires
        distinct_slots(slots),
    ensures
        distinct_slots(apply(slots, operation)),
        position(apply(slots, operation), key_hash_of(operation.id())) is Some,
        chain_of(apply(slots, operation), key_hash_of(operation.id()))
            == extend(
            chain_of(slots, key_hash_of(operation.id())),
            operation,
        ),
{
    let key = key_hash_of(operation.id());
    let after = apply(slots, operation);
    lemma_position_in_range(slots, key);
    match position(slots, key) {
        Some(i) => {
            assert forall|a: int, b: int| 0 <= a < b < after.len() implies (#[trigger] after[a]).key
                != (#[trigger] after[b]).key by {
                assert(slots[a].key != slots[b].key);
            }
            lemma_position_in_range(after, key);
            let found = position(after, key);
            if found is None {
                assert(after[i].key == key);
            } else if found->Some_0 != i {
                let other = found->Some_0;
                if other < i {
                    assert(after[other].key != after[i].key);
                } else {
                    assert(after[i].key != after[other].key);
                }
            }
        },
        None => {
            assert forall|a: int, b: int| 0 <= a < b < after.len() implies (#[trigger] after[a]).key
                != (#[trigger] after[b]).key by {
                if b < slots.len() {
                    assert(slots[a].key != slots[b].key);
                } else {
                    assert(slots[a].key != key);
                }
            }
            assert(after.drop_last() =~= slots);
        },
    }
}

/// One account of the directory.
struct Account {
    key: KeyHash,
    chain: Hashchain,
}

impl View for Account {
    type V = Slot;

    closed spec fn view(&self) -> Slot {
        Slot { key: self.key@, chain: self.chain@ }
    }
}

/// A directory in memory. Its root is the root of the Jellyfish Merkle
/// tree over its leaves.
pub struct MemoryTree {
    accounts: Vec<Account>,
}

impl MemoryTree {
    /// The directory without accounts.
    pub fn new() -> (tree: MemoryTree)
        ensures
            tree.inv(),
            tree.slots() == Seq::<Slot>::empty(),
    {
        let tree = MemoryTree { accounts: Vec::new() };
        assert(tree.slots() =~= Seq::<Slot>::empty());
        tree
    }

    /// The number of accounts.
    pub fn len(&self) -> (n: usize)
        ensures
            n == self.slots().len(),
    {
        self.accounts.len()
    }

    fn find(&self, key: &KeyHash) -> (out: Option<usize>)
        ensures
            match out {
                Some(i) => position(self.slots(), key@) == Some(i as int) && i
                    < self.accounts@.len(),
                None => position(self.slots(), key@) is None,
            },
    {
        let mut i: usize = 0;
        while i < self.accounts.len()
            invariant
                i <= self.accounts@.len(),
                position(self.slots().take(i as int), key@) is None,
            decreases self.accounts@.len() - i,
        {
            proof {
                assert(self.slots().take(i + 1).drop_last() =~= self.slots().take(i as int));
                assert(self.slots().take(i + 1).last() == self.accounts@[i as int]@);
            }
            if bytes_equal(self.accounts[i].key.0.as_slice(), key.0.as_slice()) {
                proof {
                    lemma_position_stable(self.slots(), i + 1, key@);
                }
                return Some(i);
            }
            i += 1;
        }
        assert(self.slots().take(i as int) =~= self.slots());
        None
    }

    fn leaves(&self) -> (out: Vec<([u8; 32], [u8; 32])>)
        ensures
            leaves_view(out@) == leaves_of(self.slots()),
            out@.len() == self.accounts@.len(),
    {
        let mut out: Vec<([u8; 32], [u8; 32])> = Vec::new();
        let mut i: usize = 0;
        while i < self.accounts.len()
            invariant
                i <= self.accounts@.len(),
                out@.len() == i,
                forall|j: int|
                    0 <= j < i ==> (#[trigger] out@[j]).0@ == self.accounts@[j].key@ && out@[j].1@
                        == last_hash(self.accounts@[j].chain@),
            decreases self.accounts@.len() - i,
        {
            let account = &self.accounts[i];
            out.push((account.key.0, account.chain.last_hash().to_bytes()));
            i += 1;
        }
        assert(leaves_view(out@) =~= leaves_of(self.slots()));
        out
    }
}

impl StateTree for MemoryTree {
    closed spec fn slots(&self) -> Directory {
        self.accounts@.map_values(|a: Account| a@)
    }

    closed spec fn inv(&self) -> bool {
        &&& forall|i: int|
            0 <= i < self.accounts@.len() ==> (#[trigger] self.accounts@[i]).chain.wf()
                && self.accounts@[i].chain@.len() > 0
        &&& distinct_slots(self.slots())
    }

    open spec fn root_of(slots: Directory) -> DigestView {
        root_of_leaves(slots)
    }

    fn get_commitment(&self) -> (out: Result<Digest, TreeError>)
        ensures
            out is Ok <==> jmt_root(leaves_of(self.slots())) is Some,
    {
        let leaves = self.leaves();
        proof {
            lemma_distinct_leaves(self.slots());
        }
        match merkle_root(&leaves) {
            Ok(root) => Ok(Digest(root)),
            Err(_) => Err(TreeError::Storage),
        }
    }

    fn get(&self, key: KeyHash) -> (out: Result<HashchainResponse, TreeError>)
        ensures
            out is Ok <==> provable(self.slots(), key@),
    {
        let leaves = self.leaves();
        proof {
            lemma_distinct_leaves(self.slots());
            lemma_leaf_value_of_slots(self.slots(), key@);
        }
        let root = match merkle_root(&leaves) {
            Ok(root) => Digest(root),
            Err(_) => {
                return Err(TreeError::Storage);
            },
        };
        let path = match merkle_path(&leaves, &key.0) {
            Ok(path) => path,
            Err(_) => {
                return Err(TreeError::Storage);
            },
        };
        match self.find(&key) {
            Some(i) => {
                let chain = self.accounts[i].chain.clone();
                let value = chain.last_hash();
                assert(self.slots()[i as int] == self.accounts@[i as int]@);
                Ok(HashchainResponse::Found(chain, MembershipProof { root, key, value, path }))
            },
            None => Ok(HashchainResponse::NotFound(NonMembershipProof { root, key, path })),
        }
    }

    fn process_operation(&mut self, operation: &Operation) -> (out: Result<Proof, TreeError>)
        ensures
            final(self).slots() == memory_step(old(self).slots(), operation@),
            !accepts(old(self).slots(), operation@) ==> out matches Err(TreeError::Rejected(_)),
            accepts(old(self).slots(), operation@) ==> (out is Ok <==> {
                &&& provable(old(self).slots(), key_hash_of(operation@.id()))
                &&& provable(
                    apply(old(self).slots(), operation@),
                    key_hash_of(operation@.id()),
                )
            }),
    {
        let key = KeyHash::of(&operation.id());
        let place = self.find(&key);
        let old_leaves = self.leaves();
        let mut candidate = match place {
            Some(i) => {
                assert(self.slots()[i as int] == self.accounts@[i as int]@);
                self.accounts[i].chain.clone()
            },
            None => Hashchain::new(),
        };
        assert(candidate@ == chain_of(self.slots(), key@));
        let old_value = candidate.last_hash();
        let new_value = match candidate.perform_operation(operation.clone()) {
            Ok(hash) => hash,
            Err(e) => {
                return Err(TreeError::Rejected(e));
            },
        };
        let mut new_leaves = self.leaves();
        let ghost base = new_leaves@;
        match place {
            Some(i) => {
                new_leaves[i] = (key.0, new_value.to_bytes());
            },
            None => {
                new_leaves.push((key.0, new_value.to_bytes()));
            },
        }
        let ghost new_slots = apply(self.slots(), operation@);
        proof {
            lemma_position_in_range(self.slots(), key@);
            assert(new_slots.len() == new_leaves@.len());
            assert forall|j: int| 0 <= j < new_leaves@.len() implies leaves_view(new_leaves@)[j]
                == leaves_of(new_slots)[j] by {
                if j < base.len() {
                    assert(leaves_view(base)[j] == leaves_of(self.slots())[j]);
                }
            }
            assert(leaves_view(new_leaves@) =~= leaves_of(new_slots));
            lemma_apply_keeps_distinct(self.slots(), operation@);
            lemma_distinct_leaves(self.slots());
            lemma_distinct_leaves(new_slots);
            lemma_leaf_value_of_slots(self.slots(), key@);
            lemma_leaf_value_of_slots(new_slots, key@);
            lemma_position_in_range(new_slots, key@);
        }
        let old_root = match merkle_root(&old_leaves) {
            Ok(root) => Digest(root),
            Err(_) => {
                return Err(TreeError::Storage);
            },
        };
        let old_path = match merkle_path(&old_leaves, &key.0) {
            Ok(path) => path,
            Err(_) => {
                return Err(TreeError::Storage);
            },
        };
        let new_root = match merkle_root(&new_leaves) {
            Ok(root) => Digest(root),
            Err(_) => {
                return Err(TreeError::Storage);
            },
        };
        let new_path = match merkle_path(&new_leaves, &key.0) {
            Ok(path) => path,
            Err(_) => {
                return Err(TreeError::Storage);
            },
        };
        let membership = MembershipProof { root: new_root, key, value: new_value, path: new_path };
        match place {
            Some(i) => {
                self.accounts[i].chain = candidate;
                assert(self.slots() =~= new_slots);
                let old = MembershipProof { root: old_root, key, value: old_value, path: old_path };
                Ok(Proof::Update(UpdateProof { old, new: membership }))
            },
            None => {
                self.accounts.push(Account { key, chain: candidate });
                assert(self.slots() =~= new_slots);
                let non_membership = NonMembershipProof { root: old_root, key, path: old_path };
                Ok(Proof::Insert(InsertProof { non_membership, membership }))
            },
        }
    }
}

} // verus!
