//! SHA-1 digests of pieces and of a transfer's description.

use vstd::prelude::*;

verus! {

/// The name of the digest that the sha1 crate computes for some bytes.
pub uninterp spec fn sha1_digest(data: Seq<u8>) -> Seq<u8>;

/// Relies on sha1's `Sha1::digest`: the SHA-1 digest of the bytes, 20 bytes long.
#[verifier::external_body]
pub(crate) fn digest(data: &[u8]) -> (r: Vec<u8>)
    ensures
        r@ == sha1_digest(data@),
        r@.len() == 20,
{
    <sha1::Sha1 as sha1::Digest>::digest(data).to_vec()
}

/// The content id of a transfer: the SHA-1 digest of its bencoded `info` dictionary.
pub fn compute_info_hash(info_bytes: &[u8]) -> (r: Vec<u8>)
    ensures
        r@ == sha1_digest(info_bytes@),
        r@.len() == 20,
{
    digest(info_bytes)
}

} // verus!
