//! BLAKE3 digests and their lowercase hexadecimal rendering.

use vstd::prelude::*;

verus! {

/// The 32-byte BLAKE3 digest of `data`, as the blake3 crate computes it.
pub uninterp spec fn blake3_digest(data: Seq<u8>) -> Seq<u8>;

/// Calls `blake3::hash` and hands back the raw digest bytes (`Hash::as_bytes`).
/// Claimed: the 32 bytes returned are the BLAKE3 digest of `data`, which
/// depends on `data` alone. Nothing is claimed about the digest's value.
#[verifier::external_body]
pub(crate) fn blake3_hash(data: &[u8]) -> (digest: [u8; 32])
    ensures
        digest@ == blake3_digest(data@),
{
    *blake3::hash(data).as_bytes()
}

} // verus!
