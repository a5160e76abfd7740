//! Randomness and hashing shared by the api: random identifiers, random alphanumeric secrets
//! and SHA-256 digests.

use rand::distributions::Alphanumeric;
use rand::Rng;
use sha2::{Digest, Sha256};
use vstd::prelude::*;

use crate::text::{ascii_to_string, hex_lower, to_hex_lower};
use vstd::utf8::encode_utf8;

verus! {

/// The SHA-256 digest of a byte string.
pub uninterp spec fn sha256(data: Seq<u8>) -> Seq<u8>;

/// Whether a byte is an ASCII letter or digit.
pub open spec fn is_alphanumeric(b: u8) -> bool {
    (48 <= b <= 57) || (65 <= b <= 90) || (97 <= b <= 122)
}

/// Whether a character is an ASCII letter or digit.
pub open spec fn is_alphanumeric_char(c: char) -> bool {
    let n = c as u32;
    (48 <= n <= 57) || (65 <= n <= 90) || (97 <= n <= 122)
}

/// `rand::thread_rng().gen::<u64>()`: a random 64-bit number. Nothing is claimed of the value.
#[verifier::external_body]
pub(crate) fn random_u64() -> u64 {
    rand::thread_rng().gen()
}

/// `rand::thread_rng().sample_iter(&Alphanumeric).take(len)`: `len` random bytes, each an
/// ASCII letter or digit (the documented range of `Alphanumeric`). Which bytes come out is not
/// claimed.
#[verifier::external_body]
pub(crate) fn random_alphanumeric(len: usize) -> (r: Vec<u8>)
    ensures
        r.len() == len,
        forall|i: int| 0 <= i < r.len() ==> is_alphanumeric(#[trigger] r[i]),
{
    rand::thread_rng().sample_iter(&Alphanumeric).take(len).collect()
}

/// `Sha256::digest` of the `sha2` crate: the 32-byte SHA-256 digest of `data`, named
/// `sha256(data)`.
#[verifier::external_body]
pub(crate) fn sha256_digest(data: &[u8]) -> (r: Vec<u8>)
    ensures
        r@ == sha256(data@),
        r.len() == 32,
{
    Sha256::digest(data).to_vec()
}

/// The lowercase hexadecimal SHA-256 digest of the UTF-8 bytes of `key`.
pub fn hash(key: &str) -> (r: String)
    ensures
        r@ == hex_lower(sha256(encode_utf8(key@))),
        r@.len() == 64,
{
    let digest = sha256_digest(key.as_bytes());
    to_hex_lower(digest.as_slice())
}

/// A random string of `length` ASCII letters and digits.
pub fn get_random_hex(length: usize) -> (r: String)
    ensures
        r@.len() == length,
        forall|i: int| 0 <= i < length ==> is_alphanumeric_char(#[trigger] r@[i]),
{
    let bytes = random_alphanumeric(length);
    let r = ascii_to_string(bytes.as_slice());
    assert forall|i: int| 0 <= i < length implies is_alphanumeric_char(#[trigger] r@[i]) by {
        let b = bytes@[i];
        assert(is_alphanumeric(b));
        assert(r@[i] == b as char);
        assert((b as char) as u32 == b);
    }
    r
}

} // verus!
