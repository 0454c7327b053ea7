//! Trusted boundary: thin wrappers around outside crates and the few std
//! functions vstd gives no specification to. Verus believes the contracts
//! here; everything else in the crate is proved against them.

use vstd::prelude::*;

use rand::distributions::DistString;
use rand::Rng;
use sha2::Digest;

use crate::models::is_alphanumeric_char;

verus! {

/// One byte of the SHA-256 digest of a byte string, named but not defined:
/// the values are pinned only by what `sha2` computes.
pub uninterp spec fn sha256_byte(data: Seq<u8>, i: int) -> u8;

/// The SHA-256 digest of a byte string: 32 bytes whose values only the
/// outside implementation determines.
pub open spec fn sha256_of(data: Seq<u8>) -> Seq<u8> {
    Seq::new(32, |i: int| sha256_byte(data, i))
}

/// The base64url encoding, without padding, of a byte string.
pub uninterp spec fn b64url_nopad(data: Seq<u8>) -> Seq<char>;

/// Whether a string parses as a URL.
pub uninterp spec fn uri_well_formed(s: Seq<char>) -> bool;

/// Relies on `sha2::Sha256::digest`: the digest is 32 bytes and depends on
/// the input bytes alone.
#[verifier::external_body]
pub(crate) fn sha256(data: &[u8]) -> (r: Vec<u8>)
    ensures
        r@ == sha256_of(data@),
        forall|i: int| 0 <= i < 32 ==> r@[i] == sha256_byte(data@, i),
{
    sha2::Sha256::digest(data).to_vec()
}

/// Relies on `base64`'s `URL_SAFE_NO_PAD` engine: the output is one of four
/// alphabet characters per six input bits, `(4n + 2) / 3` characters in all,
/// and depends on the input bytes alone.
#[verifier::external_body]
pub(crate) fn b64url_encode(data: &[u8]) -> (r: String)
    ensures
        r@ == b64url_nopad(data@),
        r@.len() == (4 * data@.len() + 2) / 3,
{
    base64::Engine::encode(&base64::engine::general_purpose::URL_SAFE_NO_PAD, data)
}

/// Relies on `rand::Rng::fill` on `ThreadRng`: 32 bytes come back; nothing
/// is promised about their values.
#[verifier::external_body]
pub(crate) fn random_bytes_32() -> (r: Vec<u8>)
    ensures
        r@.len() == 32,
{
    let mut arr = [0u8; 32];
    rand::thread_rng().fill(&mut arr);
    arr.to_vec()
}

/// Relies on `rand::distributions::Alphanumeric::sample_string`: the sample
/// has the requested length and is drawn from `a-z`, `A-Z`, `0-9`; nothing
/// is promised about which characters come back.
#[verifier::external_body]
pub(crate) fn random_alphanumeric(len: usize) -> (r: String)
    ensures
        r@.len() == len,
        forall|i: int| 0 <= i < r@.len() ==> is_alphanumeric_char(#[trigger] r@[i]),
{
    rand::distributions::Alphanumeric.sample_string(&mut rand::thread_rng(), len)
}

/// Relies on `url::Url::parse`: whether it succeeds depends on the input
/// string alone.
#[verifier::external_body]
pub(crate) fn uri_parses(s: &str) -> (r: bool)
    ensures
        r == uri_well_formed(s@),
{
    url::Url::parse(s).is_ok()
}

/// Relies on `String::push`: appends exactly the given character.
#[verifier::external_body]
pub(crate) fn string_push(s: &mut String, c: char)
    ensures
        final(s)@ == old(s)@.push(c),
{
    s.push(c);
}

/// Relies on `String::from_utf8`: it succeeds exactly on valid UTF-8 and
/// then returns the decoding of the bytes.
#[verifier::external_body]
pub(crate) fn bytes_to_string(data: Vec<u8>) -> (r: Option<String>)
    ensures
        match r {
            Some(s) => vstd::utf8::valid_utf8(data@) && s@ == vstd::utf8::decode_utf8(data@),
            None => !vstd::utf8::valid_utf8(data@),
        },
{
    String::from_utf8(data).ok()
}

} // verus!
