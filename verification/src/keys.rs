//! Public keys, secret keys and signatures of the two supported schemes,
//! Ed25519 and ECDSA over secp256k1, held as their byte encodings.

use crate::digest::{sha256, Digest};
use crate::encoding::bytes_equal;
use vstd::prelude::*;
use vstd::slice::slice_to_vec;

verus! {

/// The text that `base64`'s `STANDARD` engine produces for `data`.
pub uninterp spec fn base64_encoding(data: Seq<u8>) -> Seq<char>;

/// The bytes that `base64`'s `STANDARD` engine reads from `text`, if it
/// accepts the text.
pub uninterp spec fn base64_decoding(text: Seq<char>) -> Option<Seq<u8>>;

/// Whether `ed25519_consensus` accepts 32 bytes as the encoding of a
/// verification key.
pub uninterp spec fn ed25519_key_decodes(key: Seq<u8>) -> bool;

/// Whether `ed25519_consensus` accepts `signature` on `message` under the
/// verification key encoded by `key`.
pub uninterp spec fn ed25519_verifies(key: Seq<u8>, message: Seq<u8>, signature: Seq<u8>) -> bool;

/// The encoded verification key that belongs to an Ed25519 seed.
pub uninterp spec fn ed25519_public_key(seed: Seq<u8>) -> Seq<u8>;

/// The signature that an Ed25519 seed produces on `message`.
pub uninterp spec fn ed25519_signature(seed: Seq<u8>, message: Seq<u8>) -> Seq<u8>;

/// The compressed encoding of the secp256k1 point that `key` encodes, if
/// `secp256k1` accepts `key` as a public key.
pub uninterp spec fn secp256k1_compressed(key: Seq<u8>) -> Option<Seq<u8>>;

/// Whether `secp256k1` accepts the compact `signature` on the 32-byte
/// `digest` under the public key encoded by `key`.
pub uninterp spec fn secp256k1_verifies(key: Seq<u8>, digest: Seq<u8>, signature: Seq<u8>) -> bool;

/// Whether `secp256k1` accepts 32 bytes as a secret key.
pub uninterp spec fn secp256k1_secret_valid(secret: Seq<u8>) -> bool;

/// The compressed public key that belongs to a secp256k1 secret key.
pub uninterp spec fn secp256k1_public_key(secret: Seq<u8>) -> Seq<u8>;

/// The compact ECDSA signature that a secp256k1 secret key produces on a
/// 32-byte digest with the RFC 6979 nonce.
pub uninterp spec fn secp256k1_signature(secret: Seq<u8>, digest: Seq<u8>) -> Seq<u8>;

#[verifier::external_type_specification]
#[verifier::external_body]
pub struct ExBase64DecodeError(base64::DecodeError);

#[verifier::external_type_specification]
#[verifier::external_body]
pub struct ExEd25519Error(ed25519_consensus::Error);

#[verifier::external_type_specification]
#[verifier::external_body]
pub struct ExSecp256k1Error(secp256k1::Error);

/// Calls `base64::Engine::encode` on the `STANDARD` engine. Trusted: the
/// text is the engine's encoding of `data`, and the same engine decodes it
/// back to `data`.
#[verifier::external_body]
fn base64_encode(data: &[u8]) -> (text: String)
    ensures
        text@ == base64_encoding(data@),
        base64_decoding(text@) == Some(data@),
{
    base64::Engine::encode(&base64::engine::general_purpose::STANDARD, data)
}

/// Calls `base64::Engine::decode` on the `STANDARD` engine. Trusted: the
/// outcome is the engine's reading of `text`.
#[verifier::external_body]
fn base64_decode(text: &str) -> (out: Result<Vec<u8>, base64::DecodeError>)
    ensures
        match out {
            Ok(bytes) => base64_decoding(text@) == Some(bytes@),
            Err(_) => base64_decoding(text@) is None,
        },
{
    base64::Engine::decode(&base64::engine::general_purpose::STANDARD, text)
}

/// Calls `ed25519_consensus::VerificationKey::try_from` and `to_bytes`.
/// Trusted: the call succeeds exactly on encodings that decode, and an
/// accepted key encodes to the bytes it was read from.
#[verifier::external_body]
fn ed25519_parse_key(key: &[u8; 32]) -> (out: Result<[u8; 32], ed25519_consensus::Error>)
    ensures
        match out {
            Ok(bytes) => ed25519_key_decodes(key@) && bytes@ == key@,
            Err(_) => !ed25519_key_decodes(key@),
        },
{
    match ed25519_consensus::VerificationKey::try_from(*key) {
        Ok(vk) => Ok(vk.to_bytes()),
        Err(e) => Err(e),
    }
}

/// Calls `ed25519_consensus::VerificationKey::verify` on the key that
/// `key` encodes. Trusted: the outcome depends on the three byte strings
/// alone; a key that does not decode verifies nothing.
#[verifier::external_body]
fn ed25519_verify(key: &[u8; 32], message: &[u8], signature: &[u8; 64]) -> (out: Result<
    (),
    ed25519_consensus::Error,
>)
    ensures
        out is Ok <==> ed25519_verifies(key@, message@, signature@),
{
    let vk = ed25519_consensus::VerificationKey::try_from(*key)?;
    vk.verify(&ed25519_consensus::Signature::from(*signature), message)
}

/// Calls `ed25519_consensus::SigningKey::verification_key` on the key made
/// from `seed`. Trusted: the result is a function of the seed and decodes
/// as a verification key.
#[verifier::external_body]
fn ed25519_derive_public(seed: &[u8; 32]) -> (key: [u8; 32])
    ensures
        key@ == ed25519_public_key(seed@),
        ed25519_key_decodes(key@),
{
    ed25519_consensus::SigningKey::from(*seed).verification_key().to_bytes()
}

/// Calls `ed25519_consensus::SigningKey::sign` on the key made from `seed`.
/// Trusted: signing is deterministic, and the signature verifies under the
/// seed's own verification key.
#[verifier::external_body]
fn ed25519_sign(seed: &[u8; 32], message: &[u8]) -> (signature: [u8; 64])
    ensures
        signature@ == ed25519_signature(seed@, message@),
        ed25519_verifies(ed25519_public_key(seed@), message@, signature@),
{
    ed25519_consensus::SigningKey::from(*seed).sign(message).to_bytes()
}

/// Calls `secp256k1::PublicKey::from_slice` and `serialize`. Trusted: the
/// result is the compressed encoding of the parsed point, which parses to
/// itself.
#[verifier::external_body]
fn secp256k1_parse_key(key: &[u8]) -> (out: Result<[u8; 33], secp256k1::Error>)
    ensures
        match out {
            Ok(bytes) => secp256k1_compressed(key@) == Some(bytes@) && secp256k1_compressed(
                bytes@,
            ) == Some(bytes@),
            Err(_) => secp256k1_compressed(key@) is None,
        },
{
    match secp256k1::PublicKey::from_slice(key) {
        Ok(pk) => Ok(pk.serialize()),
        Err(e) => Err(e),
    }
}

/// Calls `secp256k1::PublicKey::verify` with the global context, on the
/// parsed key, digest and compact signature. Trusted: the outcome depends
/// on the three byte strings alone; a key or signature that does not parse
/// verifies nothing.
#[verifier::external_body]
fn secp256k1_verify(key: &[u8; 33], digest: &[u8; 32], signature: &[u8; 64]) -> (out: Result<
    (),
    secp256k1::Error,
>)
    ensures
        out is Ok <==> secp256k1_verifies(key@, digest@, signature@),
{
    let pk = secp256k1::PublicKey::from_slice(key)?;
    let sig = secp256k1::ecdsa::Signature::from_compact(signature)?;
    pk.verify(secp256k1::SECP256K1, &secp256k1::Message::from_digest(*digest), &sig)
}

/// Calls `secp256k1::SecretKey::from_slice`. Trusted: it succeeds exactly
/// on valid secret keys.
#[verifier::external_body]
fn secp256k1_check_secret(secret: &[u8; 32]) -> (out: Result<(), secp256k1::Error>)
    ensures
        out is Ok <==> secp256k1_secret_valid(secret@),
{
    match secp256k1::SecretKey::from_slice(secret) {
        Ok(_) => Ok(()),
        Err(e) => Err(e),
    }
}

/// Calls `secp256k1::SecretKey::public_key` with the global context.
/// Trusted: the compressed result is a function of the secret and parses
/// to itself.
#[verifier::external_body]
fn secp256k1_derive_public(secret: &[u8; 32]) -> (key: [u8; 33])
    requires
        secp256k1_secret_valid(secret@),
    ensures
        key@ == secp256k1_public_key(secret@),
        secp256k1_compressed(key@) == Some(key@),
{
    let sk = secp256k1::SecretKey::from_slice(secret).expect("valid secret key");
    sk.public_key(secp256k1::SECP256K1).serialize()
}

/// Calls `secp256k1::Secp256k1::sign_ecdsa` with the global context.
/// Trusted: signing is deterministic, and the signature verifies under the
/// secret's own public key.
#[verifier::external_body]
fn secp256k1_sign(secret: &[u8; 32], digest: &[u8; 32]) -> (signature: [u8; 64])
    requires
        secp256k1_secret_valid(secret@),
    ensures
        signature@ == secp256k1_signature(secret@, digest@),
        secp256k1_verifies(secp256k1_public_key(secret@), digest@, signature@),
{
    let sk = secp256k1::SecretKey::from_slice(secret).expect("valid secret key");
    let message = secp256k1::Message::from_digest(*digest);
    secp256k1::SECP256K1.sign_ecdsa(&message, &sk).serialize_compact()
}

/// Why a key could not be read or a signature was not accepted.
#[derive(Clone, Copy, Debug, PartialEq, Eq, Structural)]
pub enum KeyError {
    /// The signature belongs to another scheme than the key.
    InvalidSignatureType,
    /// The signature does not verify under the key.
    VerificationFailed,
    /// The text is not standard padded base64.
    InvalidBase64,
    /// 32 bytes that do not encode an Ed25519 key.
    InvalidEd25519Key,
    /// 33 or 65 bytes that do not encode a secp256k1 key.
    InvalidSecp256k1Key,
    /// The key has a length other than 32, 33 or 65 bytes.
    InvalidLength,
}

/// A signature, tagged by its scheme.
#[derive(Clone, Copy, Debug, Eq)]
pub enum Signature {
    /// Compact ECDSA signature over the SHA-256 digest of the message.
    Secp256k1([u8; 64]),
    /// Ed25519 signature over the message itself.
    Ed25519([u8; 64]),
    /// Stands where no signature has been made yet.
    Placeholder,
}

impl Signature {
    /// The raw signature bytes; empty for the placeholder.
    pub open spec fn bytes(&self) -> Seq<u8> {
        match self {
            Signature::Secp256k1(s) => s@,
            Signature::Ed25519(s) => s@,
            Signature::Placeholder => Seq::empty(),
        }
    }
}

impl PartialEq for Signature {
    fn eq(&self, other: &Signature) -> (same: bool) {
        match (self, other) {
            (Signature::Secp256k1(a), Signature::Secp256k1(b)) => bytes_equal(
                a.as_slice(),
                b.as_slice(),
            ),
            (Signature::Ed25519(a), Signature::Ed25519(b)) => bytes_equal(
                a.as_slice(),
                b.as_slice(),
            ),
            (Signature::Placeholder, Signature::Placeholder) => true,
            _ => false,
        }
    }
}

impl vstd::std_specs::cmp::PartialEqSpecImpl for Signature {
    open spec fn obeys_eq_spec() -> bool {
        true
    }

    open spec fn eq_spec(&self, other: &Signature) -> bool {
        self.bytes() == other.bytes() && (*self is Ed25519 <==> *other is Ed25519) && (*self
            is Secp256k1 <==> *other is Secp256k1)
    }
}

impl Default for Signature {
    fn default() -> (s: Signature)
        ensures
            s is Placeholder,
    {
        Signature::Placeholder
    }
}

/// A public key, tagged by its scheme.
#[derive(Clone, Copy, Debug, Eq, Hash)]
pub enum VerifyingKey {
    /// Compressed secp256k1 point.
    Secp256k1([u8; 33]),
    /// Encoded Ed25519 point.
    Ed25519([u8; 32]),
}

impl PartialEq for VerifyingKey {
    fn eq(&self, other: &VerifyingKey) -> (same: bool) {
        match (self, other) {
            (VerifyingKey::Secp256k1(a), VerifyingKey::Secp256k1(b)) => bytes_equal(
                a.as_slice(),
                b.as_slice(),
            ),
            (VerifyingKey::Ed25519(a), VerifyingKey::Ed25519(b)) => bytes_equal(
                a.as_slice(),
                b.as_slice(),
            ),
            _ => {
                assert(self.bytes().len() != other.bytes().len());
                false
            },
        }
    }
}

impl vstd::std_specs::cmp::PartialEqSpecImpl for VerifyingKey {
    open spec fn obeys_eq_spec() -> bool {
        true
    }

    open spec fn eq_spec(&self, other: &VerifyingKey) -> bool {
        self.bytes() == other.bytes()
    }
}

/// What reading a key from raw bytes yields, given only the length and what
/// the two curve libraries say of the bytes.
pub open spec fn key_from_bytes(bytes: Seq<u8>) -> Result<Seq<u8>, KeyError> {
    if bytes.len() == 32 {
        if ed25519_key_decodes(bytes) {
            Ok(bytes)
        } else {
            Err(KeyError::InvalidEd25519Key)
        }
    } else if bytes.len() == 33 || bytes.len() == 65 {
        match secp256k1_compressed(bytes) {
            Some(compressed) => Ok(compressed),
            None => Err(KeyError::InvalidSecp256k1Key),
        }
    } else {
        Err(KeyError::InvalidLength)
    }
}

/// What reading a key from base64 text yields.
pub open spec fn key_from_text(text: Seq<char>) -> Result<Seq<u8>, KeyError> {
    match base64_decoding(text) {
        Some(bytes) => key_from_bytes(bytes),
        None => Err(KeyError::InvalidBase64),
    }
}

impl VerifyingKey {
    /// The byte encoding of the key: 32 bytes for Ed25519, 33 for secp256k1.
    pub open spec fn bytes(&self) -> Seq<u8> {
        match self {
            VerifyingKey::Secp256k1(k) => k@,
            VerifyingKey::Ed25519(k) => k@,
        }
    }

    /// The bytes are an encoding that the key's curve library accepts and
    /// gives back unchanged.
    pub open spec fn wf(&self) -> bool {
        match self {
            VerifyingKey::Secp256k1(k) => secp256k1_compressed(k@) == Some(k@),
            VerifyingKey::Ed25519(k) => ed25519_key_decodes(k@),
        }
    }

    /// The signature is of the key's scheme.
    pub open spec fn same_scheme(&self, signature: Signature) -> bool {
        match (*self, signature) {
            (VerifyingKey::Ed25519(_), Signature::Ed25519(_)) => true,
            (VerifyingKey::Secp256k1(_), Signature::Secp256k1(_)) => true,
            _ => false,
        }
    }

    /// The key accepts `signature` on `message`: Ed25519 on the message
    /// itself, secp256k1 on its SHA-256 digest.
    pub open spec fn accepts(&self, message: Seq<u8>, signature: Signature) -> bool {
        match (*self, signature) {
            (VerifyingKey::Ed25519(k), Signature::Ed25519(s)) => ed25519_verifies(k@, message, s@),
            (VerifyingKey::Secp256k1(k), Signature::Secp256k1(s)) => secp256k1_verifies(
                k@,
                sha256(message),
                s@,
            ),
            _ => false,
        }
    }

    /// Returns the byte representation of the public key.
    pub fn as_bytes(&self) -> (out: Vec<u8>)
        ensures
            out@ == self.bytes(),
    {
        match self {
            VerifyingKey::Ed25519(k) => slice_to_vec(k.as_slice()),
            VerifyingKey::Secp256k1(k) => slice_to_vec(k.as_slice()),
        }
    }

    /// Checks `signature` on `message`. A signature of the other scheme, or
    /// the placeholder, is refused without looking at the bytes.
    pub fn verify_signature(&self, message: &[u8], signature: &Signature) -> (out: Result<
        (),
        KeyError,
    >)
        ensures
            out is Ok <==> self.accepts(message@, *signature),
            out is Err ==> out == Err::<(), KeyError>(
                if self.same_scheme(*signature) {
                    KeyError::VerificationFailed
                } else {
                    KeyError::InvalidSignatureType
                },
            ),
    {
        match self {
            VerifyingKey::Ed25519(k) => {
                match signature {
                    Signature::Ed25519(s) => match ed25519_verify(k, message, s) {
                        Ok(()) => Ok(()),
                        Err(_) => Err(KeyError::VerificationFailed),
                    },
                    _ => Err(KeyError::InvalidSignatureType),
                }
            },
            VerifyingKey::Secp256k1(k) => {
                match signature {
                    Signature::Secp256k1(s) => {
                        let hashed_message = Digest::hash(message).to_bytes();
                        match secp256k1_verify(k, &hashed_message, s) {
                            Ok(()) => Ok(()),
                            Err(_) => Err(KeyError::VerificationFailed),
                        }
                    },
                    _ => Err(KeyError::InvalidSignatureType),
                }
            },
        }
    }

    /// Reads a key from its raw bytes: 32 bytes are an Ed25519 key, 33 or
    /// 65 bytes a secp256k1 key in compressed or uncompressed form; any
    /// other length is refused.
    pub fn from_bytes(bytes: &[u8]) -> (out: Result<VerifyingKey, KeyError>)
        ensures
            match out {
                Ok(key) => key_from_bytes(bytes@) == Ok::<Seq<u8>, KeyError>(key.bytes())
                    && key.wf() && (key is Ed25519 <==> bytes@.len() == 32),
                Err(e) => key_from_bytes(bytes@) == Err::<Seq<u8>, KeyError>(e),
            },
    {
        let n = bytes.len();
        if n == 32 {
            let mut raw = [0u8;32];
            let mut i: usize = 0;
            while i < 32
                invariant
                    i <= 32,
                    bytes@.len() == 32,
                    forall|j: int| 0 <= j < i ==> raw@[j] == bytes@[j],
                decreases 32 - i,
            {
                raw[i] = bytes[i];
                i += 1;
            }
            assert(raw@ =~= bytes@);
            match ed25519_parse_key(&raw) {
                Ok(key) => Ok(VerifyingKey::Ed25519(key)),
                Err(_) => Err(KeyError::InvalidEd25519Key),
            }
        } else if n == 33 || n == 65 {
            match secp256k1_parse_key(bytes) {
                Ok(key) => Ok(VerifyingKey::Secp256k1(key)),
                Err(_) => Err(KeyError::InvalidSecp256k1Key),
            }
        } else {
            Err(KeyError::InvalidLength)
        }
    }

    /// The canonical text of the key: standard padded base64 of its bytes.
    /// Reading the text of a well-formed key gives the key back.
    pub fn to_string(&self) -> (text: String)
        ensures
            text@ == base64_encoding(self.bytes()),
            base64_decoding(text@) == Some(self.bytes()),
            self.wf() ==> key_from_text(text@) == Ok::<Seq<u8>, KeyError>(self.bytes()),
    {
        let bytes = self.as_bytes();
        let text = base64_encode(bytes.as_slice());
        proof {
            if self.wf() {
                lemma_text_round_trip(*self, text@);
            }
        }
        text
    }
}

/// The key whose encoding is `bytes`; the number of bytes tells the scheme.
pub open spec fn key_with_bytes(bytes: Seq<u8>) -> VerifyingKey {
    choose|key: VerifyingKey| key.bytes() == bytes
}

/// Two keys with the same bytes are the same key.
pub proof fn lemma_bytes_determine_key(a: VerifyingKey, b: VerifyingKey)
    requires
        a.bytes() == b.bytes(),
    ensures
        a == b,
{
    match (a, b) {
        (VerifyingKey::Ed25519(x), VerifyingKey::Ed25519(y)) => {
            assert(x@.len() == 32);
            assert(x =~= y);
        },
        (VerifyingKey::Secp256k1(x), VerifyingKey::Secp256k1(y)) => {
            assert(x@.len() == 33);
            assert(x =~= y);
        },
        (VerifyingKey::Ed25519(x), VerifyingKey::Secp256k1(y)) => {
            assert(x@.len() == 32 && y@.len() == 33);
        },
        (VerifyingKey::Secp256k1(x), VerifyingKey::Ed25519(y)) => {
            assert(x@.len() == 33 && y@.len() == 32);
        },
    }
}

impl TryFrom<String> for VerifyingKey {
    type Error = KeyError;

    /// Reads a key from the standard padded base64 text of its bytes: 32
    /// bytes are an Ed25519 key, 33 or 65 bytes a secp256k1 key in
    /// compressed or uncompressed form.
    fn try_from(s: String) -> (out: Result<VerifyingKey, KeyError>)
        ensures
            match out {
                Ok(key) => key_from_text(s@) == Ok::<Seq<u8>, KeyError>(key.bytes()) && key.wf(),
                Err(e) => key_from_text(s@) == Err::<Seq<u8>, KeyError>(e),
            },
    {
        match base64_decode(s.as_str()) {
            Ok(bytes) => {
                let out = VerifyingKey::from_bytes(bytes.as_slice());
                proof {
                    if let Ok(key) = out {
                        lemma_bytes_determine_key(key, key_with_bytes(key.bytes()));
                    }
                }
                out
            },
            Err(_) => Err(KeyError::InvalidBase64),
        }
    }
}

impl vstd::std_specs::convert::TryFromSpecImpl<String> for VerifyingKey {
    open spec fn obeys_try_from_spec() -> bool {
        true
    }

    open spec fn try_from_spec(s: String) -> Result<VerifyingKey, KeyError> {
        match key_from_text(s@) {
            Ok(bytes) => Ok(key_with_bytes(bytes)),
            Err(e) => Err(e),
        }
    }
}

/// Any text that decodes to the bytes of a well-formed key reads as that
/// key.
pub proof fn lemma_text_round_trip(key: VerifyingKey, text: Seq<char>)
    requires
        key.wf(),
        base64_decoding(text) == Some(key.bytes()),
    ensures
        key_from_text(text) == Ok::<Seq<u8>, KeyError>(key.bytes()),
{
    match key {
        VerifyingKey::Ed25519(k) => {
            assert(k@.len() == 32);
        },
        VerifyingKey::Secp256k1(k) => {
            assert(k@.len() == 33);
        },
    }
}

/// Bytes of any length but 32, 33 and 65 are no key, whatever they hold.
pub proof fn lemma_other_lengths_refused(bytes: Seq<u8>)
    requires
        bytes.len() != 32,
        bytes.len() != 33,
        bytes.len() != 65,
    ensures
        key_from_bytes(bytes) == Err::<Seq<u8>, KeyError>(KeyError::InvalidLength),
{
}

/// A signature of one scheme is never accepted by a key of the other, and
/// the placeholder is accepted by none.
pub proof fn lemma_cross_scheme_refused(key: VerifyingKey, message: Seq<u8>, signature: Signature)
    requires
        !key.same_scheme(signature),
    ensures
        !key.accepts(message, signature),
{
}

/// A secp256k1 secret key. Every value holds 32 bytes that the curve
/// library accepts as a secret key.
#[derive(Clone, Copy)]
pub struct Secp256k1Secret {
    bytes: [u8; 32],
}

impl Secp256k1Secret {
    #[verifier::type_invariant]
    spec fn valid(self) -> bool {
        secp256k1_secret_valid(self.bytes@)
    }

    /// The 32 secret bytes.
    pub closed spec fn view(&self) -> Seq<u8> {
        self.bytes@
    }

    /// Accepts 32 bytes as a secret key if the curve library does.
    pub fn new(bytes: [u8; 32]) -> (out: Option<Secp256k1Secret>)
        ensures
            out is Some <==> secp256k1_secret_valid(bytes@),
            out matches Some(secret) ==> secret.view() == bytes@,
    {
        match secp256k1_check_secret(&bytes) {
            Ok(()) => Some(Secp256k1Secret { bytes }),
            Err(_) => None,
        }
    }

    /// The 32 secret bytes.
    pub fn secret_bytes(&self) -> (out: [u8; 32])
        ensures
            out@ == self.view(),
            secp256k1_secret_valid(out@),
    {
        proof {
            use_type_invariant(self);
        }
        self.bytes
    }
}

/// A secret key, tagged by its scheme.
#[derive(Clone, Copy)]
pub enum SigningKey {
    /// The 32-byte Ed25519 seed.
    Ed25519([u8; 32]),
    /// A secp256k1 secret key.
    Secp256k1(Secp256k1Secret),
}

impl SigningKey {
    /// The bytes of the public key that belongs to this secret key.
    pub open spec fn public_bytes(&self) -> Seq<u8> {
        match self {
            SigningKey::Ed25519(seed) => ed25519_public_key(seed@),
            SigningKey::Secp256k1(secret) => secp256k1_public_key(secret.view()),
        }
    }

    /// The bytes of the signature that this key makes on `message`.
    pub open spec fn signature_bytes(&self, message: Seq<u8>) -> Seq<u8> {
        match self {
            SigningKey::Ed25519(seed) => ed25519_signature(seed@, message),
            SigningKey::Secp256k1(secret) => secp256k1_signature(secret.view(), sha256(message)),
        }
    }

    /// Signs `message`: Ed25519 signs the message itself, secp256k1 its
    /// SHA-256 digest. The signature is accepted by `verifying_key()`.
    pub fn sign(&self, message: &[u8]) -> (signature: Signature)
        ensures
            signature.bytes() == self.signature_bytes(message@),
            self is Ed25519 <==> signature is Ed25519,
            self is Secp256k1 <==> signature is Secp256k1,
            forall|key: VerifyingKey|
                key.bytes() == self.public_bytes() && key.same_scheme(signature)
                    ==> #[trigger] key.accepts(message@, signature),
    {
        match self {
            SigningKey::Ed25519(seed) => Signature::Ed25519(ed25519_sign(seed, message)),
            SigningKey::Secp256k1(secret) => {
                let hashed_message = Digest::hash(message).to_bytes();
                let sk = secret.secret_bytes();
                Signature::Secp256k1(secp256k1_sign(&sk, &hashed_message))
            },
        }
    }

    /// The public key that belongs to this secret key.
    pub fn verifying_key(&self) -> (key: VerifyingKey)
        ensures
            key.bytes() == self.public_bytes(),
            key.wf(),
            self is Ed25519 <==> key is Ed25519,
    {
        match self {
            SigningKey::Ed25519(seed) => VerifyingKey::Ed25519(ed25519_derive_public(seed)),
            SigningKey::Secp256k1(secret) => {
                let sk = secret.secret_bytes();
                VerifyingKey::Secp256k1(secp256k1_derive_public(&sk))
            },
        }
    }
}

} // verus!
