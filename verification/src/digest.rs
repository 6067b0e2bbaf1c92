//! SHA-256 digests of byte strings.
use crate::ids::Sha256Digest;
use sha2::Digest;
use vstd::prelude::*;

verus! {

/// The SHA-256 digest of a byte string, as the two halves of its big-endian value.
pub uninterp spec fn sha256(bytes: Seq<u8>) -> (u128, u128);

/// The digest of a byte string.
pub open spec fn digest_of(bytes: Seq<u8>) -> Sha256Digest {
    Sha256Digest { hi: sha256(bytes).0, lo: sha256(bytes).1 }
}

/// Calls `sha2::Sha256::digest`. The result depends on the bytes alone and is
/// named by `sha256`: its first sixteen bytes are the high half, the other
/// sixteen the low half. Nothing is claimed of collisions.
#[verifier::external_body]
fn sha256_bytes(bytes: &[u8]) -> (r: (u128, u128))
    ensures
        r == sha256(bytes@),
{
    let digest: [u8; 32] = sha2::Sha256::digest(bytes).into();
    let mut hi = [0u8; 16];
    let mut lo = [0u8; 16];
    hi.copy_from_slice(&digest[..16]);
    lo.copy_from_slice(&digest[16..]);
    (u128::from_be_bytes(hi), u128::from_be_bytes(lo))
}

impl Sha256Digest {
    /// The digest of a byte string.
    pub fn of(bytes: &[u8]) -> (r: Sha256Digest)
        ensures
            r == digest_of(bytes@),
    {
        let halves: (u128, u128) = sha256_bytes(bytes);
        Sha256Digest { hi: halves.0, lo: halves.1 }
    }

    /// The digest of a text's UTF-8 bytes.
    pub fn of_text(text: &str) -> (r: Sha256Digest)
        ensures
            r == digest_of(vstd::utf8::encode_utf8(text@)),
    {
        Sha256Digest::of(text.as_bytes())
    }
}

} // verus!
