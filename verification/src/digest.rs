//! Content digests and the random placeholder hash.
//!
//! The digest of an asset file is the SHA-256 of its full byte content,
//! rendered as 64 lowercase hexadecimal digits; it is the file's identity in
//! the content-addressed store.
use vstd::prelude::*;

use crate::hexfmt::{hex_of, is_hex64, lemma_hex_of_32_is_hex64, to_hex};

verus! {

/// The SHA-256 digest of a byte string. The algorithm is not restated here;
/// the name only fixes that the digest is a function of the bytes alone.
pub uninterp spec fn sha256_of(data: Seq<u8>) -> Seq<u8>;

/// The content digest of a byte string: its SHA-256, in lowercase hex.
pub open spec fn digest_of(data: Seq<u8>) -> Seq<char> {
    hex_of(sha256_of(data))
}

/// Relies on sha2::Sha256 (update, then finalize): the digest is 32 bytes
/// long and depends on the input bytes alone.
#[verifier::external_body]
fn sha256(data: &[u8]) -> (r: Vec<u8>)
    ensures
        r@ == sha256_of(data@),
        r@.len() == 32,
{
    let mut hasher = <sha2::Sha256 as sha2::Digest>::new();
    sha2::Digest::update(&mut hasher, data);
    sha2::Digest::finalize(hasher).to_vec()
}

/// Relies on rand::Rng::fill over rand::thread_rng: the buffer is filled
/// with 32 bytes; nothing is assumed of their values.
#[verifier::external_body]
fn random_bytes_32() -> (r: Vec<u8>)
    ensures
        r@.len() == 32,
{
    let mut buf: [u8; 32] = [0; 32];
    rand::Rng::fill(&mut rand::thread_rng(), &mut buf[..]);
    buf.to_vec()
}

/// Computes the content digest of one asset file's bytes: SHA-256 rendered
/// as 64 lowercase hexadecimal digits.
pub fn hash_content(data: &Vec<u8>) -> (r: String)
    ensures
        r@ == digest_of(data@),
        is_hex64(r@),
{
    let raw = sha256(data.as_slice());
    let r = to_hex(&raw);
    proof {
        lemma_hex_of_32_is_hex64(raw@);
    }
    r
}

/// Draws a fresh opaque placeholder hash for a set row: 32 random bytes in
/// lowercase hex. Only its shape is promised; the value is random.
pub fn fresh_set_hash() -> (r: String)
    ensures
        is_hex64(r@),
{
    let raw = random_bytes_32();
    let r = to_hex(&raw);
    proof {
        lemma_hex_of_32_is_hex64(raw@);
    }
    r
}

} // verus!
