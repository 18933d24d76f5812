//! SHA-256 digests of canonical encodings, written as lowercase hex.
use crate::text::is_digest;
use sha2::Digest;
use vstd::prelude::*;

verus! {

/// The lowercase hex form of the SHA-256 hash of `data`.
pub uninterp spec fn sha256_hex(data: Seq<u8>) -> Seq<char>;

/// Calls `sha2::Sha256::digest` on `data` and formats the 32-byte hash with
/// `{:x}`. Claimed: the result is `sha256_hex(data)`, which depends on the bytes
/// alone, and consists of exactly 64 lowercase hexadecimal characters (two per
/// byte, as the `LowerHex` formatting of the hash array writes them).
#[verifier::external_body]
fn sha256_lower_hex(data: &[u8]) -> (r: String)
    ensures
        r@ == sha256_hex(data@),
        is_digest(r@),
{
    format!("{:x}", sha2::Sha256::digest(data))
}

/// The lowercase hex SHA-256 digest of raw bytes.
pub fn digest_bytes(bytes: &[u8]) -> (r: String)
    ensures
        r@ == sha256_hex(bytes@),
        is_digest(r@),
{
    sha256_lower_hex(bytes)
}

/// The all-zero digest that chains start from (`"0"` repeated 64 times).
pub open spec fn zero_digest() -> Seq<char> {
    Seq::new(64, |i: int| '0')
}

pub fn zero_digest_text() -> (r: String)
    ensures
        r@ == zero_digest(),
        is_digest(r@),
{
    let r = "0000000000000000000000000000000000000000000000000000000000000000".to_owned();
    proof {
        reveal_strlit("0000000000000000000000000000000000000000000000000000000000000000");
        assert(r@ =~= zero_digest());
    }
    r
}

} // verus!
