//! Content-hash identity of a save blob.
//!
//! The pipeline identifies a file by a collision-resistant 256-bit digest of
//! its raw bytes, rendered as 64 lowercase hexadecimal characters. The digest
//! itself is computed by an outside implementation; everything downstream
//! speaks of it through the name `spec_sha256_of`.
use vstd::prelude::*;

use crate::text::{bytes_to_hex, lemma_hex_lower_len, spec_hex_lower};

verus! {

/// The 256-bit digest of a byte sequence, as 32 bytes. A function of the
/// bytes alone: the same bytes always yield the same digest.
pub uninterp spec fn spec_sha256_of(data: Seq<u8>) -> Seq<u8>;

/// The content checksum of a file: its digest rendered as lowercase hex.
pub open spec fn spec_checksum_of(data: Seq<u8>) -> Seq<char> {
    spec_hex_lower(spec_sha256_of(data))
}

/// Relies on sha2's `Sha256`: the digest is a function of the input bytes
/// alone and is 32 bytes long.
#[verifier::external_body]
fn sha256_digest(data: &[u8]) -> (r: Vec<u8>)
    ensures
        r@ == spec_sha256_of(data@),
        r@.len() == 32,
{
    <sha2::Sha256 as sha2::Digest>::digest(data).to_vec()
}

/// Computes the content checksum of a file's raw bytes: 64 lowercase hex
/// characters identifying exactly the files with these bytes.
pub fn calculate_checksum(data: &[u8]) -> (r: String)
    ensures
        r@ == spec_checksum_of(data@),
        r@.len() == 64,
{
    let digest = sha256_digest(data);
    let r = bytes_to_hex(digest.as_slice());
    proof {
        lemma_hex_lower_len(digest@);
    }
    r
}

/// Hashing is deterministic: byte-identical inputs always have the same
/// checksum, so the stored checksum of a processed file identifies every
/// later upload of the same bytes.
pub proof fn lemma_checksum_deterministic(a: Seq<u8>, b: Seq<u8>)
    requires
        a == b,
    ensures
        spec_checksum_of(a) == spec_checksum_of(b),
{
}

} // verus!
