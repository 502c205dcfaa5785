//! Fixed-size 32-byte digests.

use crate::encoding::bytes_equal;
use vstd::prelude::*;

verus! {

/// SHA-256 of a byte string, as computed by the `sha2` crate.
pub uninterp spec fn sha256(data: Seq<u8>) -> Seq<u8>;

/// Calls `sha2::Sha256::digest`. The contract names the 32-byte output
/// as `sha256` of the input; nothing else is claimed about it.
#[verifier::external_body]
fn sha256_bytes(data: &[u8]) -> (out: [u8; 32])
    ensures
        out@ == sha256(data@),
{
    let hashed = <sha2::Sha256 as sha2::Digest>::digest(data);
    hashed.into()
}

/// The bytes of a digest as a mathematical sequence.
pub type DigestView = Seq<u8>;

/// A 32-byte hash value.
#[derive(Clone, Copy, Debug, Eq, Hash)]
pub struct Digest(pub [u8; 32]);

impl PartialEq for Digest {
    fn eq(&self, other: &Digest) -> (same: bool) {
        bytes_equal(self.0.as_slice(), other.0.as_slice())
    }
}

impl vstd::std_specs::cmp::PartialEqSpecImpl for Digest {
    open spec fn obeys_eq_spec() -> bool {
        true
    }

    open spec fn eq_spec(&self, other: &Digest) -> bool {
        self@ == other@
    }
}

impl View for Digest {
    type V = Seq<u8>;

    open spec fn view(&self) -> Seq<u8> {
        self.0@
    }
}

impl Digest {
    /// The digest of 32 zero bytes, which stands before a first entry.
    pub fn zero() -> (d: Digest)
        ensures
            d@ == Seq::new(32, |i: int| 0u8),
    {
        let d = Digest([0u8;32]);
        assert(d@ =~= Seq::new(32, |i: int| 0u8));
        d
    }

    /// Hashes `data` with SHA-256.
    pub fn hash(data: &[u8]) -> (d: Digest)
        ensures
            d@ == sha256(data@),
    {
        Digest(sha256_bytes(data))
    }

    /// The raw bytes of the digest.
    pub fn to_bytes(&self) -> (out: [u8; 32])
        ensures
            out@ == self@,
    {
        self.0
    }
}

} // verus!
