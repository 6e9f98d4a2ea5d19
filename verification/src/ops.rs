//! Trusted boundary to the one outside computation the library uses:
//! the SHA-256 hash of the `sha2` crate.

use vstd::prelude::*;

verus! {

/// The SHA-256 digest of a byte string.
pub uninterp spec fn sha256_of(data: Seq<u8>) -> Seq<u8>;

/// Relies on sha2's `Sha256`: a 32-byte digest determined by the input
/// bytes alone.
#[verifier::external_body]
pub(crate) fn sha256(data: &[u8]) -> (r: Vec<u8>)
    ensures
        r@ == sha256_of(data@),
        r@.len() == 32,
{
    let mut h = <sha2::Sha256 as sha2::Digest>::new();
    <sha2::Sha256 as sha2::Digest>::update(&mut h, data);
    <sha2::Sha256 as sha2::Digest>::finalize(h).to_vec()
}

} // verus!
