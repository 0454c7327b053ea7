//! PKCE verifier/challenge generation.
//!
//! Only the `S256` method is generated. A `Plain` challenge (challenge equal
//! to the verifier) is never produced: configuration offering `Plain` alone
//! is rejected at load time instead of silently downgrading.

use vstd::prelude::*;
use vstd::utf8::encode_utf8;

use crate::trusted::b64url_encode;
use crate::trusted::b64url_nopad;
use crate::trusted::random_bytes_32;
use crate::trusted::sha256;
use crate::trusted::sha256_of;

verus! {

/// Generate a fresh `(verifier, challenge)` pair for the S256 method.
///
/// The verifier is the base64url (no padding) encoding of 32 random bytes,
/// hence 43 characters long; the challenge is the base64url (no padding)
/// encoding of the SHA-256 digest of the verifier string itself (the digest
/// runs over the encoded string's bytes, not over the raw random bytes).
pub fn generate_pkce() -> (r: (String, String))
    ensures
        exists|raw: Seq<u8>| raw.len() == 32 && r.0@ == b64url_nopad(raw),
        r.0@.len() == 43,
        r.1@ == b64url_nopad(sha256_of(encode_utf8(r.0@))),
{
    let raw = random_bytes_32();
    let verifier = b64url_encode(raw.as_slice());
    let digest = sha256(verifier.as_str().as_bytes());
    let challenge = b64url_encode(digest.as_slice());
    proof {
        assert(raw@.len() == 32 && verifier@ == b64url_nopad(raw@));
    }
    (verifier, challenge)
}

} // verus!
