//! Finalized epochs: a numbered checkpoint of the directory, with the
//! succinct proof of its transition and the signature of the node that
//! produced it.

use crate::digest::Digest;
use crate::encoding::{append_bytes, append_framed, append_u64, framed};
use crate::keys::{KeyError, Signature, SigningKey, VerifyingKey};
use crate::tree::{Proof, ProofError};
use vstd::bytes::spec_u64_to_le_bytes;
use vstd::prelude::*;

verus! {

/// The bytes that the signature of an epoch covers: the height as eight
/// little-endian bytes, the two commitments, and the proof with its length.
/// The signature itself is left out.
pub open spec fn epoch_payload(
    height: u64,
    prev_commitment: Seq<u8>,
    current_commitment: Seq<u8>,
    proof: Seq<u8>,
) -> Seq<u8> {
    spec_u64_to_le_bytes(height) + prev_commitment + current_commitment + framed(proof)
}

/// A finalized epoch as a mathematical value.
pub struct EpochView {
    pub height: u64,
    pub prev_commitment: Seq<u8>,
    pub current_commitment: Seq<u8>,
    pub proof: Seq<u8>,
    pub signature: Option<Signature>,
}

impl EpochView {
    /// The bytes that the signature covers.
    pub open spec fn payload(self) -> Seq<u8> {
        epoch_payload(self.height, self.prev_commitment, self.current_commitment, self.proof)
    }

    /// The epoch carries a signature that `key` accepts on its payload.
    pub open spec fn signed_by(self, key: VerifyingKey) -> bool {
        self.signature matches Some(signature) && key.accepts(self.payload(), signature)
    }

    /// What checking the signature under `key` yields.
    pub open spec fn signature_verdict(self, key: VerifyingKey) -> Result<(), EpochError> {
        match self.signature {
            None => Err(EpochError::Unsigned),
            Some(signature) => if key.accepts(self.payload(), signature) {
                Ok(())
            } else if key.same_scheme(signature) {
                Err(EpochError::InvalidSignature)
            } else {
                Err(EpochError::InvalidSignatureType)
            },
        }
    }

    /// What checking the epoch against two commitments and a key yields:
    /// the commitment it starts from is compared first, then the one it
    /// ends at, then the signature is checked.
    pub open spec fn verdict(self, key: VerifyingKey, prev: Seq<u8>, current: Seq<u8>) -> Result<
        (),
        EpochError,
    > {
        if self.prev_commitment != prev {
            Err(EpochError::PrevCommitmentMismatch)
        } else if self.current_commitment != current {
            Err(EpochError::CurrentCommitmentMismatch)
        } else {
            self.signature_verdict(key)
        }
    }
}

/// Why an epoch is not accepted.
#[derive(Clone, Copy, Debug, PartialEq, Eq, Structural)]
pub enum EpochError {
    /// The epoch carries no signature.
    Unsigned,
    /// The signature is of another scheme than the key.
    InvalidSignatureType,
    /// The signature does not verify on the epoch's payload.
    InvalidSignature,
    /// The epoch does not start from the expected commitment.
    PrevCommitmentMismatch,
    /// The epoch does not end at the expected commitment.
    CurrentCommitmentMismatch,
}

/// The record that a prover publishes for an epoch.
#[derive(Debug)]
pub struct FinalizedEpoch {
    /// The number of the epoch.
    pub height: u64,
    /// The root of the directory before the epoch's operations.
    pub prev_commitment: Digest,
    /// The root of the directory after them.
    pub current_commitment: Digest,
    /// The succinct proof of the transition, opaque to this library.
    pub proof: Vec<u8>,
    /// The prover's signature, once attached.
    pub signature: Option<Signature>,
}

impl View for FinalizedEpoch {
    type V = EpochView;

    open spec fn view(&self) -> EpochView {
        EpochView {
            height: self.height,
            prev_commitment: self.prev_commitment@,
            current_commitment: self.current_commitment@,
            proof: self.proof@,
            signature: self.signature,
        }
    }
}

/// What is handed to the proof system for one epoch: the two roots and the
/// evidence for every operation that was applied between them.
#[derive(Debug)]
pub struct Batch {
    /// The root before the operations.
    pub prev_root: Digest,
    /// The root after them.
    pub new_root: Digest,
    /// One piece of evidence for each applied operation, in order.
    pub proofs: Vec<Proof>,
}

/// The pieces of evidence lead from `from` to `to` without a gap: the first
/// starts at `from`, each starts where the one before it ended, and the
/// last ends at `to`. Without any evidence, `from` is `to`.
pub open spec fn chained(proofs: Seq<Proof>, from: Seq<u8>, to: Seq<u8>) -> bool {
    if proofs.len() == 0 {
        from == to
    } else {
        &&& proofs[0].old_root() == from
        &&& proofs[proofs.len() - 1].new_root() == to
        &&& forall|i: int|
            0 <= i < proofs.len() - 1 ==> (#[trigger] proofs[i]).new_root() == proofs[i
                + 1].old_root()
    }
}

/// Evidence that starts where a chain ends extends the chain.
pub proof fn lemma_chained_push(proofs: Seq<Proof>, from: Seq<u8>, to: Seq<u8>, next: Proof)
    requires
        chained(proofs, from, to),
        next.old_root() == to,
    ensures
        chained(proofs.push(next), from, next.new_root()),
{
    let longer = proofs.push(next);
    assert forall|i: int| 0 <= i < longer.len() - 1 implies (#[trigger] longer[i]).new_root()
        == longer[i + 1].old_root() by {
        if i < proofs.len() - 1 {
            assert(proofs[i].new_root() == proofs[i + 1].old_root());
        }
    }
}

/// Why a batch is not accepted.
#[derive(Clone, Copy, Debug, PartialEq, Eq, Structural)]
pub enum BatchError {
    /// The evidence at `index` does not start where the evidence before
    /// it, or the batch itself, says; with `index` past the last piece,
    /// the batch does not end where its last piece ends.
    Gap { index: usize },
    /// The evidence at `index` does not hold.
    InvalidProof { index: usize, reason: ProofError },
}

impl Batch {
    /// The evidence leads from the first root to the second without a gap.
    pub open spec fn coherent(&self) -> bool {
        chained(self.proofs@, self.prev_root@, self.new_root@)
    }

    /// The batch is coherent and every piece of its evidence holds.
    pub open spec fn valid(&self) -> bool {
        self.coherent() && forall|i: int|
            0 <= i < self.proofs@.len() ==> (#[trigger] self.proofs@[i]).valid()
    }

    /// Checks the batch as the proof system has to: every piece of
    /// evidence against the roots it states, and the roots against each
    /// other, from the first root of the batch to the second.
    pub fn verify(&self) -> (out: Result<(), BatchError>)
        ensures
            out is Ok <==> self.valid(),
            out matches Err(BatchError::InvalidProof { index, .. }) ==> index < self.proofs@.len()
                && !self.proofs@[index as int].valid(),
            out matches Err(BatchError::Gap { index }) ==> index <= self.proofs@.len()
                && !self.coherent(),
    {
        let mut expected = self.prev_root;
        let mut i: usize = 0;
        while i < self.proofs.len()
            invariant
                i <= self.proofs@.len(),
                chained(self.proofs@.take(i as int), self.prev_root@, expected@),
                forall|k: int| 0 <= k < i ==> (#[trigger] self.proofs@[k]).valid(),
            decreases self.proofs@.len() - i,
        {
            let proof = &self.proofs[i];
            let ghost done = self.proofs@.take(i as int);
            if proof.prior_commitment() != expected {
                proof {
                    if self.coherent() {
                        if i > 0 {
                            assert(done[i - 1] == self.proofs@[i - 1]);
                            assert(self.proofs@[i - 1].new_root() == self.proofs@[i as int].old_root());
                        }
                    }
                }
                return Err(BatchError::Gap { index: i });
            }
            match proof.verify() {
                Ok(()) => {},
                Err(reason) => {
                    return Err(BatchError::InvalidProof { index: i, reason });
                },
            }
            proof {
                lemma_chained_push(done, self.prev_root@, expected@, *proof);
                assert(self.proofs@.take(i + 1) =~= done.push(*proof));
            }
            expected = proof.resulting_commitment();
            i += 1;
        }
        assert(self.proofs@.take(i as int) =~= self.proofs@);
        if expected != self.new_root {
            return Err(BatchError::Gap { index: i });
        }
        Ok(())
    }
}

/// Two epochs with the same payload agree in every signed field.
pub proof fn lemma_payload_determines_fields(a: EpochView, b: EpochView)
    requires
        a.prev_commitment.len() == 32,
        a.current_commitment.len() == 32,
        b.prev_commitment.len() == 32,
        b.current_commitment.len() == 32,
        a.proof.len() <= u64::MAX,
        b.proof.len() <= u64::MAX,
        a.payload() == b.payload(),
    ensures
        a.height == b.height,
        a.prev_commitment == b.prev_commitment,
        a.current_commitment == b.current_commitment,
        a.proof == b.proof,
{
    vstd::bytes::lemma_auto_spec_u64_to_from_le_bytes();
    let pa = a.payload();
    let pb = b.payload();
    let ha = spec_u64_to_le_bytes(a.height);
    let hb = spec_u64_to_le_bytes(b.height);
    assert(pa.subrange(0, 8) =~= ha);
    assert(pb.subrange(0, 8) =~= hb);
    assert(vstd::bytes::spec_u64_from_le_bytes(ha) == a.height);
    assert(vstd::bytes::spec_u64_from_le_bytes(hb) == b.height);
    assert(pa.subrange(8, 40) =~= a.prev_commitment);
    assert(pb.subrange(8, 40) =~= b.prev_commitment);
    assert(pa.subrange(40, 72) =~= a.current_commitment);
    assert(pb.subrange(40, 72) =~= b.current_commitment);
    let la = spec_u64_to_le_bytes(a.proof.len() as u64);
    let lb = spec_u64_to_le_bytes(b.proof.len() as u64);
    assert(pa.subrange(72, 80) =~= la);
    assert(pb.subrange(72, 80) =~= lb);
    assert(vstd::bytes::spec_u64_from_le_bytes(la) == a.proof.len() as u64);
    assert(vstd::bytes::spec_u64_from_le_bytes(lb) == b.proof.len() as u64);
    assert(a.proof.len() == b.proof.len());
    assert(pa.subrange(80, 80 + a.proof.len() as int) =~= a.proof);
    assert(pb.subrange(80, 80 + b.proof.len() as int) =~= b.proof);
}

/// An epoch that carries the signature of `key` and leads from `prev` to
/// `current` passes the check against them.
pub proof fn lemma_signed_epoch_verifies(
    epoch: EpochView,
    key: VerifyingKey,
    prev: Seq<u8>,
    current: Seq<u8>,
)
    requires
        epoch.prev_commitment == prev,
        epoch.current_commitment == current,
        epoch.signed_by(key),
    ensures
        epoch.verdict(key, prev, current) == Ok::<(), EpochError>(()),
{
}

/// An epoch that starts from or ends at another commitment than expected
/// is refused, whatever signature it carries; so is one without a
/// signature.
pub proof fn lemma_changed_epoch_is_refused(
    epoch: EpochView,
    key: VerifyingKey,
    prev: Seq<u8>,
    current: Seq<u8>,
)
    requires
        epoch.prev_commitment != prev || epoch.current_commitment != current || epoch.signature
            is None,
    ensures
        epoch.verdict(key, prev, current) is Err,
{
}

impl FinalizedEpoch {
    /// The bytes that the signature covers.
    pub fn payload(&self) -> (out: Vec<u8>)
        ensures
            out@ == self@.payload(),
    {
        let mut out: Vec<u8> = Vec::new();
        append_u64(&mut out, self.height);
        append_bytes(&mut out, self.prev_commitment.0.as_slice());
        append_bytes(&mut out, self.current_commitment.0.as_slice());
        append_framed(&mut out, self.proof.as_slice());
        assert(out@ =~= self@.payload());
        out
    }

    /// Signs the epoch's payload with `key` and attaches the signature,
    /// in place of any that was there. Every verifying key that belongs to
    /// `key` then accepts the epoch.
    pub fn insert_signature(&mut self, key: &SigningKey)
        ensures
            final(self)@.signature is Some,
            final(self)@ == (EpochView { signature: final(self)@.signature, ..old(self)@ }),
            final(self)@.signature->Some_0.bytes() == key.signature_bytes(old(self)@.payload()),
            key is Ed25519 <==> final(self)@.signature->Some_0 is Ed25519,
            key is Secp256k1 <==> final(self)@.signature->Some_0 is Secp256k1,
            forall|vk: VerifyingKey|
                vk.bytes() == key.public_bytes() && (vk is Ed25519 <==> key is Ed25519)
                    ==> #[trigger] final(self)@.signed_by(vk),
    {
        let payload = self.payload();
        let signature = key.sign(payload.as_slice());
        self.signature = Some(signature);
        proof {
            assert forall|vk: VerifyingKey|
                vk.bytes() == key.public_bytes() && (vk is Ed25519 <==> key is Ed25519)
                    implies #[trigger] self@.signed_by(vk) by {
                assert(vk.same_scheme(signature));
                assert(vk.accepts(payload@, signature));
            }
        }
    }

    /// Checks the epoch's signature under `key`.
    pub fn verify_signature(&self, key: &VerifyingKey) -> (out: Result<(), EpochError>)
        ensures
            out is Ok <==> self@.signed_by(*key),
            out == self@.signature_verdict(*key),
    {
        match &self.signature {
            None => Err(EpochError::Unsigned),
            Some(signature) => {
                let payload = self.payload();
                match key.verify_signature(payload.as_slice(), signature) {
                    Ok(()) => Ok(()),
                    Err(KeyError::InvalidSignatureType) => Err(EpochError::InvalidSignatureType),
                    Err(_) => Err(EpochError::InvalidSignature),
                }
            },
        }
    }

    /// Checks that the epoch leads from `prev` to `current` and is signed
    /// by `key`. The succinct proof is not examined here.
    pub fn verify(&self, key: &VerifyingKey, prev: &Digest, current: &Digest) -> (out: Result<
        (),
        EpochError,
    >)
        ensures
            out == self@.verdict(*key, prev@, current@),
    {
        if self.prev_commitment != *prev {
            return Err(EpochError::PrevCommitmentMismatch);
        }
        if self.current_commitment != *current {
            return Err(EpochError::CurrentCommitmentMismatch);
        }
        self.verify_signature(key)
    }
}

} // verus!
