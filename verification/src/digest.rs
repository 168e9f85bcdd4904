//! The digest that names a picture and commits to a code.

use sha2::{Digest, Sha512};
use vstd::prelude::*;
use vstd::string::*;
use vstd::utf8::encode_utf8;

use crate::hex::{to_upper_hex, upper_hex};

verus! {

/// The SHA-512 digest of a byte string.
pub uninterp spec fn sha512(data: Seq<u8>) -> Seq<u8>;

/// Calls `sha2::Sha512::digest`, which feeds `data` to a fresh hasher and
/// finalizes it. The result is taken to be the SHA-512 digest of `data`, which
/// is 64 bytes long; the digest itself is not defined here.
#[verifier::external_body]
fn sha512_of(data: &[u8]) -> (out: Vec<u8>)
    ensures
        out@ == sha512(data@),
        out@.len() == 64,
{
    Sha512::digest(data).to_vec()
}

/// The fingerprint of a text: the SHA-512 digest of its UTF-8 bytes, written
/// as upper-case hexadecimal.
pub open spec fn fingerprint(text: Seq<char>) -> Seq<char> {
    upper_hex(sha512(encode_utf8(text)))
}

/// Computes the fingerprint of `text`, 128 hexadecimal digits.
pub fn fingerprint_of(text: &str) -> (out: String)
    ensures
        out@ == fingerprint(text@),
        out@.len() == 128,
{
    let bytes = sha512_of(text.as_bytes());
    to_upper_hex(bytes.as_slice())
}

} // verus!
