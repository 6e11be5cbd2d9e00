//! Trusted boundary: the outside calls the library leans on, each behind a
//! wrapper whose contract Verus believes without proof.

use vstd::prelude::*;
use crate::hexstr::spec_hex;

verus! {

/// What zstd decompression returns on a byte sequence. Decoding a zstd
/// frame is a function of the bytes alone, so the result carries a name
/// rather than a page-long statement.
pub uninterp spec fn zstd_decompress_of(b: Seq<u8>) -> Seq<u8>;

/// The SHA-256 digest of a byte sequence, a function of the bytes alone.
pub uninterp spec fn sha256_of(b: Seq<u8>) -> Seq<u8>;

/// Relies on `zstd::stream::encode_all` at level 1, whose output is a zstd
/// frame, and on `zstd::stream::decode_all` inverting it: decompressing the
/// returned artifact yields the input again. On failure the error's message
/// is handed back.
#[verifier::external_body]
pub(crate) fn zstd_compress(b: &[u8]) -> (r: Result<Vec<u8>, String>)
    ensures
        r matches Ok(c) ==> zstd_decompress_of(c@) == b@,
{
    match zstd::stream::encode_all(b, 1) {
        Ok(c) => Ok(c),
        Err(e) => Err(e.to_string()),
    }
}

/// Relies on `sha2::Sha256` through `Digest::digest`: the 32-byte SHA-256
/// digest of the input.
#[verifier::external_body]
pub(crate) fn sha256_bytes(b: &[u8]) -> (r: Vec<u8>)
    ensures
        r@ == sha256_of(b@),
        r@.len() == 32,
{
    <sha2::Sha256 as sha2::Digest>::digest(b).to_vec()
}

/// Relies on `hex::encode`: the lowercase hexadecimal rendering of the
/// input, two digits per byte.
#[verifier::external_body]
pub(crate) fn hex_encode(b: &[u8]) -> (r: String)
    ensures
        r@ == spec_hex(b@),
{
    hex::encode(b)
}

/// Relies on `getrandom::fill`: on success the 32-byte buffer is filled
/// with cryptographically sourced randomness. Nothing can be promised of
/// the bytes themselves; on failure the error's message is handed back.
#[verifier::external_body]
pub(crate) fn random_bytes_32() -> (r: Result<Vec<u8>, String>)
    ensures
        r matches Ok(v) ==> v@.len() == 32,
{
    let mut buf = [0u8; 32];
    match getrandom::fill(&mut buf) {
        Ok(()) => Ok(buf.to_vec()),
        Err(e) => Err(e.to_string()),
    }
}

} // verus!
