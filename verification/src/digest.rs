use vstd::prelude::*;

verus! {

/// The lowercase-hex SHA-256 digest of a byte sequence, as the sha2 crate
/// computes it: a function of the bytes alone, 64 hex digits.
pub uninterp spec fn sha256_hex_of(bytes: Seq<u8>) -> Seq<char>;

/// Relies on sha2::Sha256::digest: the digest depends on the input bytes
/// alone, and its lowercase-hex form has two digits per digest byte.
#[verifier::external_body]
fn sha256_digest_hex(bytes: &[u8]) -> (r: String)
    ensures
        r@ == sha256_hex_of(bytes@),
        r@.len() == 64,
{
    let digest = <sha2::Sha256 as sha2::Digest>::digest(bytes);
    format!("{digest:x}")
}

/// The lowercase-hex SHA-256 digest of `bytes`.
pub fn sha256_hex(bytes: &Vec<u8>) -> (r: String)
    ensures
        r@ == sha256_hex_of(bytes@),
        r@.len() == 64,
{
    sha256_digest_hex(bytes.as_slice())
}

/// The hash field of an evaluation input: the digest of the executable's
/// contents, or the empty string when the contents could not be read.
pub fn content_hash_hex(contents: &Option<Vec<u8>>) -> (r: String)
    ensures
        match contents {
            Some(bytes) => r@ == sha256_hex_of(bytes@),
            None => r@ == Seq::<char>::empty(),
        },
{
    match contents {
        Some(bytes) => sha256_hex(bytes),
        None => String::new(),
    }
}

} // verus!
