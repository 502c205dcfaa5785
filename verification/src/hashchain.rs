//! The append-only history of one account: every entry is an operation,
//! signed by a key that the earlier entries made valid, and hashed together
//! with the digest of the entry before it.

use crate::digest::{sha256, Digest};
use crate::encoding::append_bytes;
use crate::keys::{Signature, VerifyingKey};
use crate::operation::{Operation, OperationError, OperationView};
use vstd::prelude::*;

verus! {

/// One entry of a history, as a mathematical value.
pub struct EntryView {
    /// The digest of this entry.
    pub hash: Seq<u8>,
    /// The digest of the entry before it; zeros before the first.
    pub previous_hash: Seq<u8>,
    /// The operation that the entry records.
    pub operation: OperationView,
}

/// The digest that stands before a first entry.
pub open spec fn zero_hash() -> Seq<u8> {
    Seq::new(32, |i: int| 0u8)
}

/// The digest of the last entry of a history, or zeros if it is empty.
pub open spec fn last_hash(chain: Seq<EntryView>) -> Seq<u8> {
    if chain.len() == 0 {
        zero_hash()
    } else {
        chain.last().hash
    }
}

/// The bytes that the signer of an operation signs: the digest of the entry
/// that the operation follows, then the operation's content.
pub open spec fn signed_message(previous_hash: Seq<u8>, operation: OperationView) -> Seq<u8> {
    previous_hash + operation.content()
}

/// The digest of an entry: SHA-256 over the signed message and the
/// signature.
pub open spec fn entry_hash(previous_hash: Seq<u8>, operation: OperationView) -> Seq<u8> {
    sha256(signed_message(previous_hash, operation) + operation.signature().bytes())
}

/// Whether `key` is present and unrevoked after the entries of `chain`.
pub open spec fn key_is_valid(chain: Seq<EntryView>, key: Seq<u8>) -> bool
    decreases chain.len(),
{
    if chain.len() == 0 {
        false
    } else {
        let earlier = key_is_valid(chain.drop_last(), key);
        match chain.last().operation {
            OperationView::RegisterService { key: k, .. } => earlier || k.bytes() == key,
            OperationView::CreateAccount { initial_key, .. } => earlier || initial_key.bytes()
                == key,
            OperationView::AddKey { new_key, .. } => earlier || new_key.bytes() == key,
            OperationView::RevokeKey { key: k, .. } => earlier && k.bytes() != key,
            OperationView::AddData { .. } => earlier,
        }
    }
}

/// Why a history does not take an operation.
#[derive(Clone, Copy, Debug, PartialEq, Eq, Structural)]
pub enum HashchainError {
    /// The operation is not well formed.
    Malformed(OperationError),
    /// The history is empty and the operation does not start one.
    NotCreated,
    /// The history exists and the operation would start another.
    AlreadyCreated,
    /// The operation addresses another account than the history's.
    WrongAccount,
    /// The signing key is not present and unrevoked in the history.
    SignerNotValid,
    /// The signature does not verify under the signing key.
    BadSignature,
}

/// The first reason, in the order in which they are examined, for which
/// `chain` does not take `operation`; `None` if it takes it.
pub open spec fn rejection(chain: Seq<EntryView>, operation: OperationView) -> Option<
    HashchainError,
> {
    if operation.id().len() == 0 {
        Some(HashchainError::Malformed(OperationError::EmptyId))
    } else if operation.signature() is Placeholder {
        Some(HashchainError::Malformed(OperationError::MissingSignature))
    } else if chain.len() == 0 && !operation.is_creation() {
        Some(HashchainError::NotCreated)
    } else if chain.len() > 0 && operation.is_creation() {
        Some(HashchainError::AlreadyCreated)
    } else if chain.len() > 0 && operation.id() != chain[0].operation.id() {
        Some(HashchainError::WrongAccount)
    } else if chain.len() > 0 && !key_is_valid(chain, operation.signer().bytes()) {
        Some(HashchainError::SignerNotValid)
    } else if !operation.signer().accepts(
        signed_message(last_hash(chain), operation),
        operation.signature(),
    ) {
        Some(HashchainError::BadSignature)
    } else {
        None
    }
}

/// A history takes an operation that is well formed, that starts the
/// history if it is empty and continues it under the same identifier and a
/// valid key if it is not, and whose signature verifies.
pub open spec fn admissible(chain: Seq<EntryView>, operation: OperationView) -> bool {
    &&& operation.structurally_valid()
    &&& if chain.len() == 0 {
        operation.is_creation()
    } else {
        &&& !operation.is_creation()
        &&& operation.id() == chain[0].operation.id()
        &&& key_is_valid(chain, operation.signer().bytes())
    }
    &&& operation.signer().accepts(
        signed_message(last_hash(chain), operation),
        operation.signature(),
    )
}

/// The history with `operation` appended as its next entry.
pub open spec fn extend(chain: Seq<EntryView>, operation: OperationView) -> Seq<EntryView> {
    chain.push(
        EntryView {
            hash: entry_hash(last_hash(chain), operation),
            previous_hash: last_hash(chain),
            operation,
        },
    )
}

/// Every entry was admissible after the entries before it, and carries the
/// digests that follow from them.
pub open spec fn chain_wf(chain: Seq<EntryView>) -> bool
    decreases chain.len(),
{
    chain.len() == 0 || {
        &&& chain_wf(chain.drop_last())
        &&& admissible(chain.drop_last(), chain.last().operation)
        &&& chain == extend(chain.drop_last(), chain.last().operation)
    }
}

/// An operation is rejected exactly when it is not admissible.
pub proof fn lemma_rejection_iff_not_admissible(chain: Seq<EntryView>, operation: OperationView)
    ensures
        rejection(chain, operation) is None <==> admissible(chain, operation),
{
}

/// A well-formed history that is not empty starts with an operation that
/// creates it, and all its later entries address the same identifier.
pub proof fn lemma_first_entry_creates(chain: Seq<EntryView>, i: int)
    requires
        chain_wf(chain),
        0 <= i < chain.len(),
    ensures
        chain[0].operation.is_creation(),
        chain[i].operation.id() == chain[0].operation.id(),
        i > 0 ==> !chain[i].operation.is_creation(),
        i > 0 ==> chain[i].previous_hash == chain[i - 1].hash,
        i == 0 ==> chain[i].previous_hash == zero_hash(),
        chain[i].hash == entry_hash(chain[i].previous_hash, chain[i].operation),
    decreases chain.len(),
{
    let earlier = chain.drop_last();
    if i < chain.len() - 1 {
        lemma_first_entry_creates(earlier, i);
    } else if i > 0 {
        lemma_first_entry_creates(earlier, 0);
    }
}

/// Every entry but the first of a well-formed history is signed by a key
/// that the entries before it had made valid, and the signature verifies.
pub proof fn lemma_entries_signed_by_valid_keys(chain: Seq<EntryView>, i: int)
    requires
        chain_wf(chain),
        0 <= i < chain.len(),
    ensures
        i > 0 ==> key_is_valid(chain.take(i), chain[i].operation.signer().bytes()),
        chain[i].operation.signer().accepts(
            signed_message(chain[i].previous_hash, chain[i].operation),
            chain[i].operation.signature(),
        ),
    decreases chain.len(),
{
    let earlier = chain.drop_last();
    if i < chain.len() - 1 {
        lemma_entries_signed_by_valid_keys(earlier, i);
        assert(earlier.take(i) =~= chain.take(i));
    } else {
        assert(chain.take(i) =~= earlier);
    }
}

/// One entry of a history.
#[derive(Debug)]
pub struct HashchainEntry {
    /// The digest of this entry.
    pub hash: Digest,
    /// The digest of the entry before it; zeros before the first.
    pub previous_hash: Digest,
    /// The operation that the entry records.
    pub operation: Operation,
}

impl View for HashchainEntry {
    type V = EntryView;

    open spec fn view(&self) -> EntryView {
        EntryView {
            hash: self.hash@,
            previous_hash: self.previous_hash@,
            operation: self.operation@,
        }
    }
}

impl Clone for HashchainEntry {
    fn clone(&self) -> (out: HashchainEntry)
        ensures
            out@ == self@,
    {
        HashchainEntry {
            hash: self.hash,
            previous_hash: self.previous_hash,
            operation: self.operation.clone(),
        }
    }
}

/// The history of one account.
#[derive(Debug)]
pub struct Hashchain {
    entries: Vec<HashchainEntry>,
}

impl View for Hashchain {
    type V = Seq<EntryView>;

    closed spec fn view(&self) -> Seq<EntryView> {
        self.entries@.map_values(|e: HashchainEntry| e@)
    }
}

/// The bytes of a signature; none for the placeholder.
fn signature_bytes(signature: &Signature) -> (out: Vec<u8>)
    ensures
        out@ == signature.bytes(),
{
    let mut out: Vec<u8> = Vec::new();
    match signature {
        Signature::Secp256k1(s) => append_bytes(&mut out, s.as_slice()),
        Signature::Ed25519(s) => append_bytes(&mut out, s.as_slice()),
        Signature::Placeholder => {},
    }
    assert(out@ =~= signature.bytes());
    out
}

/// The bytes that the signer of `operation` signs after `previous_hash`.
pub fn message_to_sign(previous_hash: &Digest, operation: &Operation) -> (out: Vec<u8>)
    ensures
        out@ == signed_message(previous_hash@, operation@),
{
    let mut out: Vec<u8> = Vec::new();
    append_bytes(&mut out, previous_hash.0.as_slice());
    let content = operation.content_bytes();
    append_bytes(&mut out, content.as_slice());
    assert(out@ =~= signed_message(previous_hash@, operation@));
    out
}

impl Hashchain {
    /// Every entry was admissible when it was appended.
    pub open spec fn wf(&self) -> bool {
        chain_wf(self@)
    }

    /// The history without entries.
    pub fn new() -> (chain: Hashchain)
        ensures
            chain@ == Seq::<EntryView>::empty(),
            chain.wf(),
    {
        let chain = Hashchain { entries: Vec::new() };
        assert(chain@ =~= Seq::<EntryView>::empty());
        chain
    }

    /// The number of entries.
    pub fn len(&self) -> (n: usize)
        ensures
            n == self@.len(),
    {
        self.entries.len()
    }

    /// Whether the history has no entries.
    pub fn is_empty(&self) -> (out: bool)
        ensures
            out == (self@.len() == 0),
    {
        self.entries.len() == 0
    }

    /// The entry at `index`.
    pub fn get(&self, index: usize) -> (entry: &HashchainEntry)
        requires
            index < self@.len(),
        ensures
            entry@ == self@[index as int],
    {
        &self.entries[index]
    }

    /// The digest of the last entry, or zeros if there is none.
    pub fn last_hash(&self) -> (hash: Digest)
        ensures
            hash@ == last_hash(self@),
    {
        let n = self.entries.len();
        if n == 0 {
            Digest::zero()
        } else {
            self.entries[n - 1].hash
        }
    }

    /// Whether `key` is present and unrevoked after all entries.
    pub fn is_key_valid(&self, key: &VerifyingKey) -> (valid: bool)
        ensures
            valid == key_is_valid(self@, key.bytes()),
    {
        let mut valid = false;
        let mut i: usize = 0;
        while i < self.entries.len()
            invariant
                i <= self.entries@.len(),
                valid == key_is_valid(self@.take(i as int), key.bytes()),
            decreases self.entries@.len() - i,
        {
            proof {
                assert(self@.take(i + 1).drop_last() =~= self@.take(i as int));
                assert(self@.take(i + 1).last() == self.entries@[i as int]@);
            }
            match &self.entries[i].operation {
                Operation::RegisterService { key: k, .. } => {
                    if *k == *key {
                        valid = true;
                    }
                },
                Operation::CreateAccount { initial_key, .. } => {
                    if *initial_key == *key {
                        valid = true;
                    }
                },
                Operation::AddKey { new_key, .. } => {
                    if *new_key == *key {
                        valid = true;
                    }
                },
                Operation::RevokeKey { key: k, .. } => {
                    if *k == *key {
                        valid = false;
                    }
                },
                Operation::AddData { .. } => {},
            }
            i += 1;
        }
        assert(self@.take(i as int) =~= self@);
        valid
    }

    /// Examines `operation` against the history without changing it: the
    /// form, the place in the history, the signing key and the signature.
    pub fn check_operation(&self, operation: &Operation) -> (out: Result<(), HashchainError>)
        ensures
            out is Ok <==> admissible(self@, operation@),
            out == match rejection(self@, operation@) {
                Some(e) => Err::<(), HashchainError>(e),
                None => Ok::<(), HashchainError>(()),
            },
    {
        match operation.validate() {
            Ok(()) => {},
            Err(e) => {
                return Err(HashchainError::Malformed(e));
            },
        }
        let signer = operation.signer();
        if self.entries.len() == 0 {
            if !operation.is_creation() {
                return Err(HashchainError::NotCreated);
            }
        } else {
            if operation.is_creation() {
                return Err(HashchainError::AlreadyCreated);
            }
            let own_id = self.entries[0].operation.id();
            let id = operation.id();
            if id != own_id {
                return Err(HashchainError::WrongAccount);
            }
            if !self.is_key_valid(&signer) {
                return Err(HashchainError::SignerNotValid);
            }
        }
        let previous_hash = self.last_hash();
        let message = message_to_sign(&previous_hash, operation);
        match signer.verify_signature(message.as_slice(), &operation.signature()) {
            Ok(()) => Ok(()),
            Err(_) => Err(HashchainError::BadSignature),
        }
    }

    /// Appends `operation` if the history takes it, and returns the digest
    /// of the new entry; leaves the history unchanged if it does not.
    pub fn perform_operation(&mut self, operation: Operation) -> (out: Result<
        Digest,
        HashchainError,
    >)
        requires
            old(self).wf(),
        ensures
            final(self).wf(),
            match out {
                Ok(hash) => admissible(old(self)@, operation@) && final(self)@ == extend(
                    old(self)@,
                    operation@,
                ) && hash@ == last_hash(final(self)@),
                Err(e) => {
                    &&& rejection(old(self)@, operation@) == Some(e)
                    &&& final(self)@ == old(self)@
                },
            },
    {
        match self.check_operation(&operation) {
            Ok(()) => {},
            Err(e) => {
                return Err(e);
            },
        }
        let previous_hash = self.last_hash();
        let mut preimage = message_to_sign(&previous_hash, &operation);
        let signature = signature_bytes(&operation.signature());
        append_bytes(&mut preimage, signature.as_slice());
        let hash = Digest::hash(preimage.as_slice());
        let entry = HashchainEntry { hash, previous_hash, operation };
        self.entries.push(entry);
        proof {
            assert(self@ =~= extend(old(self)@, operation@));
            assert(self@.drop_last() =~= old(self)@);
        }
        Ok(hash)
    }
}

impl Clone for Hashchain {
    fn clone(&self) -> (out: Hashchain)
        ensures
            out@ == self@,
    {
        let mut entries: Vec<HashchainEntry> = Vec::new();
        let mut i: usize = 0;
        while i < self.entries.len()
            invariant
                i <= self.entries@.len(),
                entries@.len() == i,
                forall|j: int| 0 <= j < i ==> entries@[j]@ == self.entries@[j]@,
            decreases self.entries@.len() - i,
        {
            entries.push(self.entries[i].clone());
            i += 1;
        }
        let out = Hashchain { entries };
        assert(out@ =~= self@);
        out
    }
}

} // verus!
