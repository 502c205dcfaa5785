//! The authenticated directory: a mapping from the hash of an identifier to
//! the history of that account, with a root commitment and a proof for every
//! operation that it takes.

use crate::digest::{sha256, Digest, DigestView};
use crate::encoding::bytes_equal;
use crate::hashchain::{
    admissible, extend, last_hash, rejection, EntryView, Hashchain, HashchainError,
};
use crate::merkle::{jmt_path_verifies, merkle_verify};
use crate::operation::{Operation, OperationView};
use vstd::prelude::*;
use vstd::utf8::encode_utf8;

verus! {

/// Calls `jmt::KeyHash::with` with SHA-256 as the hasher. Trusted: the key
/// hash is the SHA-256 digest of the given bytes.
#[verifier::external_body]
fn jmt_key_hash(preimage: &[u8; 32]) -> (out: [u8; 32])
    ensures
        out@ == sha256(preimage@),
{
    jmt::KeyHash::with::<sha2::Sha256>(preimage).0
}

/// The key under which the directory files an identifier: the digest of
/// the identifier's digest.
pub open spec fn key_hash_of(id: Seq<char>) -> Seq<u8> {
    sha256(sha256(encode_utf8(id)))
}

/// The key of an account in the directory.
#[derive(Clone, Copy, Debug)]
pub struct KeyHash(pub [u8; 32]);

impl View for KeyHash {
    type V = Seq<u8>;

    open spec fn view(&self) -> Seq<u8> {
        self.0@
    }
}

impl KeyHash {
    /// The key under which the directory files `id`.
    pub fn of(id: &String) -> (key: KeyHash)
        ensures
            key@ == key_hash_of(id@),
    {
        let hashed_id = Digest::hash(id.as_str().as_bytes()).to_bytes();
        KeyHash(jmt_key_hash(&hashed_id))
    }
}

/// One account of the directory: its key and its history.
pub struct Slot {
    pub key: Seq<u8>,
    pub chain: Seq<EntryView>,
}

/// The directory: its accounts in the order in which they were created.
pub type Directory = Seq<Slot>;

/// The place of `key` in the directory, if it has one.
pub open spec fn position(slots: Seq<Slot>, key: Seq<u8>) -> Option<int>
    decreases slots.len(),
{
    if slots.len() == 0 {
        None
    } else {
        match position(slots.drop_last(), key) {
            Some(i) => Some(i),
            None => if slots.last().key == key {
                Some(slots.len() - 1)
            } else {
                None
            },
        }
    }
}

/// The history filed under `key`; empty if there is none.
pub open spec fn chain_of(slots: Seq<Slot>, key: Seq<u8>) -> Seq<EntryView> {
    match position(slots, key) {
        Some(i) => slots[i].chain,
        None => Seq::empty(),
    }
}

/// The directory after `operation` was appended to the history of the
/// account that it addresses.
pub open spec fn apply(slots: Seq<Slot>, operation: OperationView) -> Seq<Slot> {
    let key = key_hash_of(operation.id());
    match position(slots, key) {
        Some(i) => slots.update(i, Slot { key, chain: extend(slots[i].chain, operation) }),
        None => slots.push(Slot { key, chain: extend(Seq::empty(), operation) }),
    }
}

/// Whether the directory takes `operation`: the history of the account
/// that it addresses does.
pub open spec fn accepts(slots: Seq<Slot>, operation: OperationView) -> bool {
    admissible(chain_of(slots, key_hash_of(operation.id())), operation)
}

/// The directory after `operation` was offered to it: applied if the
/// directory takes it, skipped if not.
pub open spec fn step(slots: Seq<Slot>, operation: OperationView) -> Seq<Slot> {
    if accepts(slots, operation) {
        apply(slots, operation)
    } else {
        slots
    }
}

/// The directory after the operations were offered to it in order.
pub open spec fn replay(slots: Seq<Slot>, operations: Seq<OperationView>) -> Seq<Slot>
    decreases operations.len(),
{
    if operations.len() == 0 {
        slots
    } else {
        step(replay(slots, operations.drop_last()), operations.last())
    }
}

/// Once a key has a place in a directory, it keeps it when the directory
/// grows.
pub proof fn lemma_position_stable(slots: Seq<Slot>, n: int, key: Seq<u8>)
    requires
        0 <= n <= slots.len(),
        position(slots.take(n), key) is Some,
    ensures
        position(slots, key) == position(slots.take(n), key),
    decreases slots.len() - n,
{
    if n < slots.len() {
        assert(slots.take(n + 1).drop_last() =~= slots.take(n));
        lemma_position_stable(slots, n + 1, key);
    } else {
        assert(slots.take(n) =~= slots);
    }
}

/// A place that `position` reports lies in the directory and holds the key.
pub proof fn lemma_position_in_range(slots: Seq<Slot>, key: Seq<u8>)
    ensures
        position(slots, key) matches Some(i) ==> 0 <= i < slots.len() && slots[i].key == key,
        position(slots, key) is None ==> forall|j: int|
            0 <= j < slots.len() ==> (#[trigger] slots[j]).key != key,
    decreases slots.len(),
{
    if slots.len() > 0 {
        lemma_position_in_range(slots.drop_last(), key);
        if position(slots, key) is None {
            assert forall|j: int| 0 <= j < slots.len() implies (#[trigger] slots[j]).key
                != key by {
                if j < slots.len() - 1 {
                    assert(slots.drop_last()[j] == slots[j]);
                }
            }
        }
    }
}

/// Two directories that start empty and are offered the same operations
/// in the same order agree after every operation, and so do their roots.
pub proof fn lemma_replay_commitments_agree<T: StateTree>(
    first: Seq<Slot>,
    second: Seq<Slot>,
    operations: Seq<OperationView>,
    k: int,
)
    requires
        first.len() == 0,
        second.len() == 0,
        0 <= k <= operations.len(),
    ensures
        replay(first, operations.take(k)) == replay(second, operations.take(k)),
        T::root_of(replay(first, operations.take(k))) == T::root_of(
            replay(second, operations.take(k)),
        ),
{
    assert(first =~= second);
}

/// Evidence that a key has a value under a root.
#[derive(Debug)]
pub struct MembershipProof {
    /// The root that the evidence speaks of.
    pub root: Digest,
    /// The key of the account.
    pub key: KeyHash,
    /// The digest of the last entry of the account's history.
    pub value: Digest,
    /// The encoded Merkle path.
    pub path: Vec<u8>,
}

/// Evidence that a key has no value under a root.
#[derive(Debug)]
pub struct NonMembershipProof {
    /// The root that the evidence speaks of.
    pub root: Digest,
    /// The key that is absent.
    pub key: KeyHash,
    /// The encoded Merkle path.
    pub path: Vec<u8>,
}

/// Evidence that an operation created an account.
#[derive(Debug)]
pub struct InsertProof {
    /// The key was absent under the root before the operation.
    pub non_membership: NonMembershipProof,
    /// The key has its first entry under the root after it.
    pub membership: MembershipProof,
}

/// Evidence that an operation extended the history of an account.
#[derive(Debug)]
pub struct UpdateProof {
    /// The history as it was under the root before the operation.
    pub old: MembershipProof,
    /// The history as it is under the root after it.
    pub new: MembershipProof,
}

/// Evidence that binds the root before an operation to the root after it.
#[derive(Debug)]
pub enum Proof {
    /// A key has a value; no change.
    Membership(MembershipProof),
    /// An existing history grew by one entry.
    Update(UpdateProof),
    /// A new history was filed.
    Insert(InsertProof),
}

/// Why a piece of evidence is not accepted.
#[derive(Clone, Copy, Debug, PartialEq, Eq, Structural)]
pub enum ProofError {
    /// A Merkle path does not lead to the root it is stated for.
    InvalidPath,
    /// The two halves of the evidence speak of different keys.
    KeyMismatch,
}

impl MembershipProof {
    /// The path shows that the key holds the value under the root.
    pub open spec fn valid(&self) -> bool {
        jmt_path_verifies(self.root@, self.key@, Some(self.value@), self.path@)
    }

    /// Checks the path against the root, the key and the value.
    pub fn verify(&self) -> (out: Result<(), ProofError>)
        ensures
            out is Ok <==> self.valid(),
            out is Err ==> out == Err::<(), ProofError>(ProofError::InvalidPath),
    {
        match merkle_verify(&self.root.0, &self.key.0, Some(&self.value.0), self.path.as_slice()) {
            Ok(()) => Ok(()),
            Err(_) => Err(ProofError::InvalidPath),
        }
    }
}

impl NonMembershipProof {
    /// The path shows that the key holds nothing under the root.
    pub open spec fn valid(&self) -> bool {
        jmt_path_verifies(self.root@, self.key@, None, self.path@)
    }

    /// Checks the path against the root and the key.
    pub fn verify(&self) -> (out: Result<(), ProofError>)
        ensures
            out is Ok <==> self.valid(),
            out is Err ==> out == Err::<(), ProofError>(ProofError::InvalidPath),
    {
        match merkle_verify(&self.root.0, &self.key.0, None, self.path.as_slice()) {
            Ok(()) => Ok(()),
            Err(_) => Err(ProofError::InvalidPath),
        }
    }
}

impl InsertProof {
    /// Both paths hold, and they speak of one key.
    pub open spec fn valid(&self) -> bool {
        self.non_membership.key@ == self.membership.key@ && self.non_membership.valid()
            && self.membership.valid()
    }

    /// Checks that the key was absent before and holds its value after.
    pub fn verify(&self) -> (out: Result<(), ProofError>)
        ensures
            out is Ok <==> self.valid(),
            out == Err::<(), ProofError>(ProofError::KeyMismatch) <==> self.non_membership.key@
                != self.membership.key@,
    {
        if !bytes_equal(self.non_membership.key.0.as_slice(), self.membership.key.0.as_slice()) {
            return Err(ProofError::KeyMismatch);
        }
        match self.non_membership.verify() {
            Ok(()) => self.membership.verify(),
            Err(e) => Err(e),
        }
    }
}

impl UpdateProof {
    /// Both paths hold, and they speak of one key.
    pub open spec fn valid(&self) -> bool {
        self.old.key@ == self.new.key@ && self.old.valid() && self.new.valid()
    }

    /// Checks that the key held the old value before and holds the new
    /// value after.
    pub fn verify(&self) -> (out: Result<(), ProofError>)
        ensures
            out is Ok <==> self.valid(),
            out == Err::<(), ProofError>(ProofError::KeyMismatch) <==> self.old.key@
                != self.new.key@,
    {
        if !bytes_equal(self.old.key.0.as_slice(), self.new.key.0.as_slice()) {
            return Err(ProofError::KeyMismatch);
        }
        match self.old.verify() {
            Ok(()) => self.new.verify(),
            Err(e) => Err(e),
        }
    }
}

impl Proof {
    /// Every path of the evidence holds.
    pub open spec fn valid(&self) -> bool {
        match self {
            Proof::Membership(p) => p.valid(),
            Proof::Update(p) => p.valid(),
            Proof::Insert(p) => p.valid(),
        }
    }

    /// Checks the evidence against the roots that it states, without
    /// looking at any other entry of the directory.
    pub fn verify(&self) -> (out: Result<(), ProofError>)
        ensures
            out is Ok <==> self.valid(),
            out == Err::<(), ProofError>(ProofError::KeyMismatch) <==> match self {
                Proof::Membership(_) => false,
                Proof::Update(p) => p.old.key@ != p.new.key@,
                Proof::Insert(p) => p.non_membership.key@ != p.membership.key@,
            },
    {
        match self {
            Proof::Membership(p) => p.verify(),
            Proof::Update(p) => p.verify(),
            Proof::Insert(p) => p.verify(),
        }
    }

    /// The evidence is of the kind that `operation` calls for, speaks of the
    /// operation's key, and states the digests of the last entries of the
    /// account's history in the directory `before` and in the directory
    /// `after`.
    pub open spec fn records(
        &self,
        operation: OperationView,
        before: Seq<Slot>,
        after: Seq<Slot>,
    ) -> bool {
        let key = key_hash_of(operation.id());
        match self {
            Proof::Membership(_) => false,
            Proof::Insert(p) => {
                &&& operation.is_creation()
                &&& p.non_membership.key@ == key
                &&& p.membership.key@ == key
                &&& p.membership.value@ == last_hash(chain_of(after, key))
            },
            Proof::Update(p) => {
                &&& !operation.is_creation()
                &&& p.old.key@ == key
                &&& p.new.key@ == key
                &&& p.old.value@ == last_hash(chain_of(before, key))
                &&& p.new.value@ == last_hash(chain_of(after, key))
            },
        }
    }

    /// The root before the operation.
    pub open spec fn old_root(&self) -> Seq<u8> {
        match self {
            Proof::Membership(p) => p.root@,
            Proof::Update(p) => p.old.root@,
            Proof::Insert(p) => p.non_membership.root@,
        }
    }

    /// The root after the operation.
    pub open spec fn new_root(&self) -> Seq<u8> {
        match self {
            Proof::Membership(p) => p.root@,
            Proof::Update(p) => p.new.root@,
            Proof::Insert(p) => p.membership.root@,
        }
    }

    /// The root before the operation.
    pub fn prior_commitment(&self) -> (root: Digest)
        ensures
            root@ == self.old_root(),
    {
        match self {
            Proof::Membership(p) => p.root,
            Proof::Update(p) => p.old.root,
            Proof::Insert(p) => p.non_membership.root,
        }
    }

    /// The root after the operation.
    pub fn resulting_commitment(&self) -> (root: Digest)
        ensures
            root@ == self.new_root(),
    {
        match self {
            Proof::Membership(p) => p.root,
            Proof::Update(p) => p.new.root,
            Proof::Insert(p) => p.membership.root,
        }
    }
}

/// What a lookup in the directory returns.
#[derive(Debug)]
pub enum HashchainResponse {
    /// The history of the account, with evidence of its membership.
    Found(Hashchain, MembershipProof),
    /// Evidence that the directory has no such account.
    NotFound(NonMembershipProof),
}

/// Why the directory did not answer or did not take an operation.
#[derive(Clone, Copy, Debug, PartialEq, Eq, Structural)]
pub enum TreeError {
    /// The history of the account does not take the operation.
    Rejected(HashchainError),
    /// The tree's backing store failed; the directory is unchanged.
    Storage,
}

/// A sparse authenticated key-value store of account histories.
///
/// The state of a tree is its directory, in the order in which the accounts
/// were created. The root is a function of the directory that each kind of
/// tree fixes for itself. The three functions `slots`, `inv` and `root_of`
/// serve the contracts; they are never called when the program runs.
pub trait StateTree: Sized {
    /// The directory.
    spec fn slots(&self) -> Directory;

    /// What the tree needs to hold of its own representation.
    spec fn inv(&self) -> bool;

    /// The root that this kind of tree commits a directory to.
    spec fn root_of(slots: Directory) -> DigestView;

    /// The current root.
    fn get_commitment(&self) -> (out: Result<Digest, TreeError>)
        requires
            self.inv(),
        ensures
            match out {
                Ok(root) => root@ == Self::root_of(self.slots()),
                Err(e) => e == TreeError::Storage,
            },
    ;

    /// Looks up the history filed under `key`.
    fn get(&self, key: KeyHash) -> (out: Result<HashchainResponse, TreeError>)
        requires
            self.inv(),
        ensures
            match out {
                Ok(HashchainResponse::Found(chain, proof)) => {
                    &&& position(self.slots(), key@) is Some
                    &&& chain@ == chain_of(self.slots(), key@)
                    &&& chain.wf()
                    &&& chain@.len() > 0
                    &&& proof.key@ == key@
                    &&& proof.root@ == Self::root_of(self.slots())
                    &&& proof.value@ == last_hash(chain@)
                    &&& proof.valid()
                },
                Ok(HashchainResponse::NotFound(proof)) => {
                    &&& position(self.slots(), key@) is None
                    &&& proof.key@ == key@
                    &&& proof.root@ == Self::root_of(self.slots())
                    &&& proof.valid()
                },
                Err(e) => e == TreeError::Storage,
            },
    ;

    /// Applies `operation` to the history of the account that it addresses
    /// and returns evidence that binds the root before to the root after:
    /// an insert for an operation that creates an account, an update for
    /// any other. Fails, and changes nothing, if the history does not take
    /// the operation or if the backing store fails.
    fn process_operation(&mut self, operation: &Operation) -> (out: Result<Proof, TreeError>)
        requires
            old(self).inv(),
        ensures
            final(self).inv(),
            match out {
                Ok(proof) => {
                    &&& accepts(old(self).slots(), operation@)
                    &&& final(self).slots() == apply(old(self).slots(), operation@)
                    &&& proof.old_root() == Self::root_of(old(self).slots())
                    &&& proof.new_root() == Self::root_of(final(self).slots())
                    &&& proof.valid()
                    &&& proof.records(operation@, old(self).slots(), final(self).slots())
                },
                Err(TreeError::Rejected(e)) => {
                    &&& rejection(
                        chain_of(old(self).slots(), key_hash_of(operation@.id())),
                        operation@,
                    ) == Some(e)
                    &&& final(self).slots() == old(self).slots()
                },
                Err(TreeError::Storage) => final(self).slots() == old(self).slots(),
            },
    ;
}

} // verus!
