//! The operations that change an account's history.

use crate::encoding::{append_bytes, append_framed, framed};
use crate::keys::{Signature, VerifyingKey};
use vstd::prelude::*;
use vstd::utf8::encode_utf8;

verus! {

/// The key that vouches for an operation, with its signature.
#[derive(Clone, Copy, Debug)]
pub struct SignedBy {
    /// A key of the account that the operation addresses.
    pub key: VerifyingKey,
    /// That key's signature on the operation.
    pub signature: Signature,
}

/// A request to change the directory.
#[derive(Debug)]
pub enum Operation {
    /// Introduces a service namespace under the service's key.
    RegisterService { id: String, key: VerifyingKey, signature: Signature },
    /// Creates an account with its first key.
    CreateAccount { id: String, initial_key: VerifyingKey, signature: Signature },
    /// Adds a key to an existing account.
    AddKey { id: String, new_key: VerifyingKey, signed_by: SignedBy },
    /// Revokes a key of an existing account.
    RevokeKey { id: String, key: VerifyingKey, signed_by: SignedBy },
    /// Attaches data to an existing account.
    AddData { id: String, payload: Vec<u8>, signed_by: SignedBy },
}

/// An operation as a mathematical value.
pub enum OperationView {
    RegisterService { id: Seq<char>, key: VerifyingKey, signature: Signature },
    CreateAccount { id: Seq<char>, initial_key: VerifyingKey, signature: Signature },
    AddKey { id: Seq<char>, new_key: VerifyingKey, signed_by: SignedBy },
    RevokeKey { id: Seq<char>, key: VerifyingKey, signed_by: SignedBy },
    AddData { id: Seq<char>, payload: Seq<u8>, signed_by: SignedBy },
}

impl View for Operation {
    type V = OperationView;

    open spec fn view(&self) -> OperationView {
        match self {
            Operation::RegisterService { id, key, signature } => OperationView::RegisterService {
                id: id@,
                key: *key,
                signature: *signature,
            },
            Operation::CreateAccount { id, initial_key, signature } => OperationView::CreateAccount {
                id: id@,
                initial_key: *initial_key,
                signature: *signature,
            },
            Operation::AddKey { id, new_key, signed_by } => OperationView::AddKey {
                id: id@,
                new_key: *new_key,
                signed_by: *signed_by,
            },
            Operation::RevokeKey { id, key, signed_by } => OperationView::RevokeKey {
                id: id@,
                key: *key,
                signed_by: *signed_by,
            },
            Operation::AddData { id, payload, signed_by } => OperationView::AddData {
                id: id@,
                payload: payload@,
                signed_by: *signed_by,
            },
        }
    }
}

impl OperationView {
    /// The account or service that the operation addresses.
    pub open spec fn id(self) -> Seq<char> {
        match self {
            OperationView::RegisterService { id, .. } => id,
            OperationView::CreateAccount { id, .. } => id,
            OperationView::AddKey { id, .. } => id,
            OperationView::RevokeKey { id, .. } => id,
            OperationView::AddData { id, .. } => id,
        }
    }

    /// The operation starts a history; the others continue one.
    pub open spec fn is_creation(self) -> bool {
        self is RegisterService || self is CreateAccount
    }

    /// The key under which the operation's signature must verify. An
    /// operation that starts a history is signed by the key it introduces.
    pub open spec fn signer(self) -> VerifyingKey {
        match self {
            OperationView::RegisterService { key, .. } => key,
            OperationView::CreateAccount { initial_key, .. } => initial_key,
            OperationView::AddKey { signed_by, .. } => signed_by.key,
            OperationView::RevokeKey { signed_by, .. } => signed_by.key,
            OperationView::AddData { signed_by, .. } => signed_by.key,
        }
    }

    /// The signature that the operation carries.
    pub open spec fn signature(self) -> Signature {
        match self {
            OperationView::RegisterService { signature, .. } => signature,
            OperationView::CreateAccount { signature, .. } => signature,
            OperationView::AddKey { signed_by, .. } => signed_by.signature,
            OperationView::RevokeKey { signed_by, .. } => signed_by.signature,
            OperationView::AddData { signed_by, .. } => signed_by.signature,
        }
    }

    /// One byte that tells the five kinds apart.
    pub open spec fn tag(self) -> u8 {
        match self {
            OperationView::RegisterService { .. } => 0u8,
            OperationView::CreateAccount { .. } => 1u8,
            OperationView::AddKey { .. } => 2u8,
            OperationView::RevokeKey { .. } => 3u8,
            OperationView::AddData { .. } => 4u8,
        }
    }

    /// What the operation is about: the bytes of a key, or the data.
    pub open spec fn subject(self) -> Seq<u8> {
        match self {
            OperationView::RegisterService { key, .. } => key.bytes(),
            OperationView::CreateAccount { initial_key, .. } => initial_key.bytes(),
            OperationView::AddKey { new_key, .. } => new_key.bytes(),
            OperationView::RevokeKey { key, .. } => key.bytes(),
            OperationView::AddData { payload, .. } => payload,
        }
    }

    /// The canonical bytes of the operation without its signature: the
    /// tag, then the identifier and the subject, each with its length.
    pub open spec fn content(self) -> Seq<u8> {
        seq![self.tag()] + framed(encode_utf8(self.id())) + framed(self.subject())
    }

    /// The fields are well formed: the identifier is not empty and a
    /// signature is present.
    pub open spec fn structurally_valid(self) -> bool {
        self.id().len() > 0 && !(self.signature() is Placeholder)
    }
}

/// Why an operation is not well formed.
#[derive(Clone, Copy, Debug, PartialEq, Eq, Structural)]
pub enum OperationError {
    /// The identifier is empty.
    EmptyId,
    /// The operation carries the placeholder in place of a signature.
    MissingSignature,
}

impl Operation {
    fn id_ref(&self) -> (id: &String)
        ensures
            id@ == self@.id(),
    {
        match self {
            Operation::RegisterService { id, .. } => id,
            Operation::CreateAccount { id, .. } => id,
            Operation::AddKey { id, .. } => id,
            Operation::RevokeKey { id, .. } => id,
            Operation::AddData { id, .. } => id,
        }
    }

    /// The account or service that the operation addresses.
    pub fn id(&self) -> (id: String)
        ensures
            id@ == self@.id(),
    {
        self.id_ref().clone()
    }

    /// Whether the operation starts a history.
    pub fn is_creation(&self) -> (out: bool)
        ensures
            out == self@.is_creation(),
    {
        match self {
            Operation::RegisterService { .. } => true,
            Operation::CreateAccount { .. } => true,
            _ => false,
        }
    }

    /// The key under which the operation's signature must verify.
    pub fn signer(&self) -> (key: VerifyingKey)
        ensures
            key == self@.signer(),
    {
        match self {
            Operation::RegisterService { key, .. } => *key,
            Operation::CreateAccount { initial_key, .. } => *initial_key,
            Operation::AddKey { signed_by, .. } => signed_by.key,
            Operation::RevokeKey { signed_by, .. } => signed_by.key,
            Operation::AddData { signed_by, .. } => signed_by.key,
        }
    }

    /// The signature that the operation carries.
    pub fn signature(&self) -> (signature: Signature)
        ensures
            signature == self@.signature(),
    {
        match self {
            Operation::RegisterService { signature, .. } => *signature,
            Operation::CreateAccount { signature, .. } => *signature,
            Operation::AddKey { signed_by, .. } => signed_by.signature,
            Operation::RevokeKey { signed_by, .. } => signed_by.signature,
            Operation::AddData { signed_by, .. } => signed_by.signature,
        }
    }

    /// Checks the form of the operation, without looking at any history
    /// and without verifying the signature.
    pub fn validate(&self) -> (out: Result<(), OperationError>)
        ensures
            out is Ok <==> self@.structurally_valid(),
            out is Err ==> out == Err::<(), OperationError>(
                if self@.id().len() == 0 {
                    OperationError::EmptyId
                } else {
                    OperationError::MissingSignature
                },
            ),
    {
        if self.id_ref().as_str().is_empty() {
            return Err(OperationError::EmptyId);
        }
        match self.signature() {
            Signature::Placeholder => Err(OperationError::MissingSignature),
            _ => Ok(()),
        }
    }

    /// The canonical bytes of the operation without its signature.
    pub fn content_bytes(&self) -> (out: Vec<u8>)
        ensures
            out@ == self@.content(),
    {
        let mut out: Vec<u8> = Vec::new();
        let tag: u8 = match self {
            Operation::RegisterService { .. } => 0,
            Operation::CreateAccount { .. } => 1,
            Operation::AddKey { .. } => 2,
            Operation::RevokeKey { .. } => 3,
            Operation::AddData { .. } => 4,
        };
        out.push(tag);
        append_framed(&mut out, self.id_ref().as_str().as_bytes());
        match self {
            Operation::RegisterService { key, .. } => {
                let subject = key.as_bytes();
                append_framed(&mut out, subject.as_slice());
            },
            Operation::CreateAccount { initial_key, .. } => {
                let subject = initial_key.as_bytes();
                append_framed(&mut out, subject.as_slice());
            },
            Operation::AddKey { new_key, .. } => {
                let subject = new_key.as_bytes();
                append_framed(&mut out, subject.as_slice());
            },
            Operation::RevokeKey { key, .. } => {
                let subject = key.as_bytes();
                append_framed(&mut out, subject.as_slice());
            },
            Operation::AddData { payload, .. } => {
                append_framed(&mut out, payload.as_slice());
            },
        }
        assert(out@ =~= self@.content());
        out
    }
}

impl Clone for Operation {
    fn clone(&self) -> (out: Operation)
        ensures
            out@ == self@,
    {
        match self {
            Operation::RegisterService { id, key, signature } => Operation::RegisterService {
                id: id.clone(),
                key: *key,
                signature: *signature,
            },
            Operation::CreateAccount { id, initial_key, signature } => Operation::CreateAccount {
                id: id.clone(),
                initial_key: *initial_key,
                signature: *signature,
            },
            Operation::AddKey { id, new_key, signed_by } => Operation::AddKey {
                id: id.clone(),
                new_key: *new_key,
                signed_by: *signed_by,
            },
            Operation::RevokeKey { id, key, signed_by } => Operation::RevokeKey {
                id: id.clone(),
                key: *key,
                signed_by: *signed_by,
            },
            Operation::AddData { id, payload, signed_by } => {
                let mut copy: Vec<u8> = Vec::new();
                append_bytes(&mut copy, payload.as_slice());
                assert(copy@ =~= payload@);
                Operation::AddData { id: id.clone(), payload: copy, signed_by: *signed_by }
            },
        }
    }
}

} // verus!
