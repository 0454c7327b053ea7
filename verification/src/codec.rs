//! State token codec: a compact, self-contained encoding of one in-flight
//! authorization attempt, signed with HMAC-SHA256 under the process-wide
//! secret and rendered as a lowercase hex string.
//!
//! The token carries `ap_id`, `state`, `redirect_uri` and the optional
//! `code_verifier` as length-prefixed UTF-8 blocks, followed by a 32-byte
//! MAC over those blocks. No expiry is encoded: validity is bounded by the
//! one-time nature of the authorization code exchanged alongside the token.

use vstd::prelude::*;
use vstd::bytes::lemma_auto_spec_u32_to_from_le_bytes;
use vstd::bytes::spec_u32_from_le_bytes;
use vstd::bytes::spec_u32_to_le_bytes;
use vstd::bytes::u32_from_le_bytes;
use vstd::bytes::u32_to_le_bytes;
use vstd::slice::slice_subrange;
use vstd::slice::slice_to_vec;
use vstd::utf8::decode_utf8_encode_utf8;
use vstd::utf8::encode_utf8;
use vstd::utf8::encode_utf8_decode_utf8;
use vstd::utf8::encode_utf8_valid_utf8;
use vstd::utf8::is_ascii_chars;
use vstd::utf8::valid_utf8;

use crate::models::AuthDataView;
use crate::models::AuthValidationData;
use crate::models::Secret;
use crate::trusted::bytes_to_string;
use crate::trusted::sha256;
use crate::trusted::sha256_of;
use crate::trusted::string_push;
use crate::util::bytes_eq;
use crate::Error;

verus! {

// ---------------------------------------------------------------------------
// Hex rendering
// ---------------------------------------------------------------------------

/// The lowercase hex digit for a value below 16.
pub open spec fn hex_digit(n: u8) -> char
    recommends
        n < 16,
{
    if n == 0 { '0' } else if n == 1 { '1' } else if n == 2 { '2' } else if n == 3 { '3' }
    else if n == 4 { '4' } else if n == 5 { '5' } else if n == 6 { '6' } else if n == 7 { '7' }
    else if n == 8 { '8' } else if n == 9 { '9' } else if n == 10 { 'a' } else if n == 11 { 'b' }
    else if n == 12 { 'c' } else if n == 13 { 'd' } else if n == 14 { 'e' } else { 'f' }
}

/// Whether a character is a lowercase hex digit.
pub open spec fn is_hex_digit_char(c: char) -> bool {
    ('0' <= c && c <= '9') || ('a' <= c && c <= 'f')
}

/// The lowercase hex rendering of a byte string, two digits per byte.
pub open spec fn hex_chars_of(data: Seq<u8>) -> Seq<char>
    decreases data.len(),
{
    if data.len() == 0 {
        Seq::empty()
    } else {
        hex_chars_of(data.drop_last())
            + seq![hex_digit((data.last() / 16) as u8), hex_digit((data.last() % 16) as u8)]
    }
}

/// Every character of a hex rendering is a lowercase hex digit (hence ASCII),
/// and the rendering is twice as long as the data.
proof fn lemma_hex_chars_shape(data: Seq<u8>)
    ensures
        hex_chars_of(data).len() == 2 * data.len(),
        forall|i: int|
            0 <= i < hex_chars_of(data).len() ==> is_hex_digit_char(#[trigger] hex_chars_of(data)[i]),
        is_ascii_chars(hex_chars_of(data)),
    decreases data.len(),
{
    if data.len() > 0 {
        lemma_hex_chars_shape(data.drop_last());
    }
}

/// Hex digits are distinct, so the rendering of a byte determines the byte.
proof fn lemma_hex_digit_inj(a: u8, b: u8)
    requires
        a < 16,
        b < 16,
        hex_digit(a) == hex_digit(b),
    ensures
        a == b,
{
}

/// The hex rendering is injective.
proof fn lemma_hex_chars_inj(a: Seq<u8>, b: Seq<u8>)
    requires
        hex_chars_of(a) == hex_chars_of(b),
    ensures
        a == b,
    decreases a.len(),
{
    lemma_hex_chars_shape(a);
    lemma_hex_chars_shape(b);
    assert(a.len() == b.len());
    if a.len() == 0 {
        assert(a =~= b);
    } else {
        lemma_hex_chars_shape(a.drop_last());
        lemma_hex_chars_shape(b.drop_last());
        let ha = hex_chars_of(a.drop_last());
        let hb = hex_chars_of(b.drop_last());
        assert(hex_chars_of(a) == ha + seq![
            hex_digit((a.last() / 16) as u8),
            hex_digit((a.last() % 16) as u8),
        ]);
        assert(hex_chars_of(b) == hb + seq![
            hex_digit((b.last() / 16) as u8),
            hex_digit((b.last() % 16) as u8),
        ]);
        assert(hex_chars_of(a)[2 * a.len() - 2] == hex_digit((a.last() / 16) as u8));
        assert(hex_chars_of(a)[2 * a.len() - 1] == hex_digit((a.last() % 16) as u8));
        assert(hex_chars_of(b)[2 * b.len() - 2] == hex_digit((b.last() / 16) as u8));
        assert(hex_chars_of(b)[2 * b.len() - 1] == hex_digit((b.last() % 16) as u8));
        lemma_hex_digit_inj((a.last() / 16) as u8, (b.last() / 16) as u8);
        lemma_hex_digit_inj((a.last() % 16) as u8, (b.last() % 16) as u8);
        assert(a.last() == b.last());
        assert(forall|i: int| 0 <= i < ha.len() ==> #[trigger] ha[i] == hex_chars_of(a)[i]);
        assert(forall|i: int| 0 <= i < hb.len() ==> #[trigger] hb[i] == hex_chars_of(b)[i]);
        assert(ha =~= hb);
        lemma_hex_chars_inj(a.drop_last(), b.drop_last());
        assert forall|i: int| 0 <= i < a.len() implies a[i] == b[i] by {
            if i < a.len() - 1 {
                assert(a.drop_last()[i] == b.drop_last()[i]);
                assert(a.drop_last()[i] == a[i]);
                assert(b.drop_last()[i] == b[i]);
            } else {
                assert(a[i] == a.last() && b[i] == b.last());
            }
        }
        assert(a =~= b);
    }
}

fn hex_digit_exec(n: u8) -> (c: char)
    requires
        n < 16,
    ensures
        c == hex_digit(n),
{
    if n == 0 { '0' } else if n == 1 { '1' } else if n == 2 { '2' } else if n == 3 { '3' }
    else if n == 4 { '4' } else if n == 5 { '5' } else if n == 6 { '6' } else if n == 7 { '7' }
    else if n == 8 { '8' } else if n == 9 { '9' } else if n == 10 { 'a' } else if n == 11 { 'b' }
    else if n == 12 { 'c' } else if n == 13 { 'd' } else if n == 14 { 'e' } else { 'f' }
}

/// The value of a byte that renders a lowercase hex digit, if it does.
fn hex_val(b: u8) -> (r: Option<u8>)
    ensures
        match r {
            Some(v) => v < 16 && hex_digit(v) == b as char,
            None => !is_hex_digit_char(b as char),
        },
{
    if 48 <= b && b <= 57 {
        Some(b - 48)
    } else if 97 <= b && b <= 102 {
        Some(b - 87)
    } else {
        None
    }
}

/// Render bytes as lowercase hex.
fn hex_encode(data: &[u8]) -> (r: String)
    ensures
        r@ == hex_chars_of(data@),
{
    let mut out = String::new();
    let mut i: usize = 0;
    while i < data.len()
        invariant
            i <= data@.len(),
            out@ == hex_chars_of(data@.take(i as int)),
        decreases data@.len() - i,
    {
        let b = data[i];
        string_push(&mut out, hex_digit_exec(b / 16));
        string_push(&mut out, hex_digit_exec(b % 16));
        proof {
            assert(data@.take(i + 1).drop_last() =~= data@.take(i as int));
            assert(data@.take(i + 1).last() == data@[i as int]);
            assert(out@ =~= hex_chars_of(data@.take(i + 1)));
        }
        i = i + 1;
    }
    proof {
        assert(data@.take(data@.len() as int) =~= data@);
    }
    out
}

// ---------------------------------------------------------------------------
// HMAC-SHA256
// ---------------------------------------------------------------------------

/// A byte string XORed with one mask byte.
pub open spec fn xor_all(b: Seq<u8>, m: u8) -> Seq<u8> {
    Seq::new(b.len(), |i: int| b[i] ^ m)
}

/// The 64-byte block key: the key itself (hashed first if longer than one
/// block), zero-padded to the block size.
pub open spec fn hmac_block_key(key: Seq<u8>) -> Seq<u8> {
    let k = if key.len() > 64 { sha256_of(key) } else { key };
    k + Seq::new((64 - k.len()) as nat, |_i: int| 0u8)
}

/// HMAC-SHA256 over the named SHA-256 digest.
pub open spec fn spec_hmac_sha256(key: Seq<u8>, msg: Seq<u8>) -> Seq<u8> {
    let bk = hmac_block_key(key);
    sha256_of(xor_all(bk, 0x5c) + sha256_of(xor_all(bk, 0x36) + msg))
}

/// Append a byte slice to a vector.
fn append_slice(dst: &mut Vec<u8>, src: &[u8])
    ensures
        final(dst)@ == old(dst)@ + src@,
{
    let mut i: usize = 0;
    while i < src.len()
        invariant
            i <= src@.len(),
            dst@ == old(dst)@ + src@.take(i as int),
        decreases src@.len() - i,
    {
        dst.push(src[i]);
        proof {
            assert(old(dst)@ + src@.take(i + 1) =~= (old(dst)@ + src@.take(i as int)).push(
                src@[i as int],
            ));
        }
        i = i + 1;
    }
    proof {
        assert(src@.take(src@.len() as int) =~= src@);
    }
}

/// Compute HMAC-SHA256 of a message under a key of any length.
pub fn hmac_sha256(key: &[u8], msg: &[u8]) -> (r: Vec<u8>)
    ensures
        r@ == spec_hmac_sha256(key@, msg@),
{
    let mut bk: Vec<u8> = if key.len() > 64 {
        sha256(key)
    } else {
        slice_to_vec(key)
    };
    let ghost base = bk@;
    while bk.len() < 64
        invariant
            base.len() <= 64,
            base.len() <= bk@.len() <= 64,
            bk@ == base + Seq::new((bk@.len() - base.len()) as nat, |_i: int| 0u8),
        decreases 64 - bk@.len(),
    {
        bk.push(0u8);
        proof {
            assert(bk@ =~= base + Seq::new((bk@.len() - base.len()) as nat, |_i: int| 0u8));
        }
    }
    proof {
        assert(bk@ =~= hmac_block_key(key@));
    }
    let mut inner: Vec<u8> = Vec::new();
    let mut outer: Vec<u8> = Vec::new();
    let mut i: usize = 0;
    while i < 64
        invariant
            bk@.len() == 64,
            bk@ == hmac_block_key(key@),
            i <= 64,
            inner@.len() == i,
            outer@.len() == i,
            forall|j: int| 0 <= j < i ==> inner@[j] == bk@[j] ^ 0x36,
            forall|j: int| 0 <= j < i ==> outer@[j] == bk@[j] ^ 0x5c,
        decreases 64 - i,
    {
        inner.push(bk[i] ^ 0x36);
        outer.push(bk[i] ^ 0x5c);
        i = i + 1;
    }
    proof {
        assert(inner@ =~= xor_all(hmac_block_key(key@), 0x36));
        assert(outer@ =~= xor_all(hmac_block_key(key@), 0x5c));
    }
    append_slice(&mut inner, msg);
    let inner_digest = sha256(inner.as_slice());
    append_slice(&mut outer, inner_digest.as_slice());
    sha256(outer.as_slice())
}

// ---------------------------------------------------------------------------
// Payload layout
// ---------------------------------------------------------------------------

/// Whether a field is small enough to encode (its UTF-8 form must fit the
/// four-byte length prefix with room to spare for the fixed framing).
pub open spec fn fits_field(s: Seq<char>) -> bool {
    encode_utf8(s).len() < 0x1000_0000
}

/// Whether every field of a record is small enough to encode.
pub open spec fn wf_view(v: AuthDataView) -> bool {
    &&& fits_field(v.ap_id)
    &&& fits_field(v.state)
    &&& fits_field(v.redirect_uri)
    &&& match v.code_verifier {
        Some(cv) => fits_field(cv),
        None => true,
    }
}

/// Whether a field's UTF-8 form fits the four-byte length prefix at all:
/// the widest shape a decoded token can witness.
pub open spec fn fits_u32(s: Seq<char>) -> bool {
    encode_utf8(s).len() < 0x1_0000_0000
}

/// Whether every field of a record fits its length prefix; implied by
/// [`wf_view`], and guaranteed of everything `decode` returns.
pub open spec fn wf32_view(v: AuthDataView) -> bool {
    &&& fits_u32(v.ap_id)
    &&& fits_u32(v.state)
    &&& fits_u32(v.redirect_uri)
    &&& match v.code_verifier {
        Some(cv) => fits_u32(cv),
        None => true,
    }
}

/// One length-prefixed field: four little-endian length bytes, then UTF-8.
pub open spec fn field_block(s: Seq<char>) -> Seq<u8>
    recommends
        fits_field(s),
{
    spec_u32_to_le_bytes(encode_utf8(s).len() as u32) + encode_utf8(s)
}

/// The unsigned payload: three mandatory fields, then a presence flag and
/// the optional verifier.
pub open spec fn payload_of(v: AuthDataView) -> Seq<u8> {
    field_block(v.ap_id) + field_block(v.state) + field_block(v.redirect_uri) + match v
        .code_verifier {
        Some(cv) => seq![1u8] + field_block(cv),
        None => seq![0u8],
    }
}

/// The signed token body: payload followed by its MAC.
pub open spec fn token_bytes_of(v: AuthDataView, key: Seq<u8>) -> Seq<u8> {
    payload_of(v) + spec_hmac_sha256(key, payload_of(v))
}

/// The full token: the signed body, rendered as lowercase hex.
pub open spec fn token_of(v: AuthDataView, key: Seq<u8>) -> Seq<char> {
    hex_chars_of(token_bytes_of(v, key))
}

/// The signing key material: the secret string's UTF-8 bytes.
pub open spec fn key_bytes(key: Seq<char>) -> Seq<u8> {
    encode_utf8(key)
}

/// Reading one length-prefixed block out of a payload at a position:
/// the block's bytes and the position after it, or nothing where the
/// prefix or the block overruns the payload.
pub open spec fn block_at(p: Seq<u8>, pos: int) -> Option<(Seq<u8>, int)> {
    if 0 <= pos && pos + 4 <= p.len() {
        let l = spec_u32_from_le_bytes(p.subrange(pos, pos + 4)) as int;
        if pos + 4 + l <= p.len() {
            Some((p.subrange(pos + 4, pos + 4 + l), pos + 4 + l))
        } else {
            None
        }
    } else {
        None
    }
}

/// A token whose bytes match no candidate's signed body matches no
/// candidate's token: the hex rendering is injective.
proof fn lemma_no_candidate(token: Seq<char>, key: Seq<u8>, raw: Seq<u8>)
    requires
        hex_chars_of(raw) == token,
        forall|v: AuthDataView| wf32_view(v) ==> raw != token_bytes_of(v, key),
    ensures
        forall|v: AuthDataView| wf32_view(v) ==> token != token_of(v, key),
{
    assert forall|v: AuthDataView| wf32_view(v) implies token != token_of(v, key) by {
        if token == token_of(v, key) {
            lemma_hex_chars_inj(raw, token_bytes_of(v, key));
        }
    }
}

/// Where a payload carries a field block at a position, reading a block
/// there finds exactly that field's bytes.
proof fn lemma_block_at_field(p: Seq<u8>, pos: int, s: Seq<char>)
    requires
        fits_u32(s),
        0 <= pos,
        pos + field_block(s).len() <= p.len(),
        p.subrange(pos, pos + field_block(s).len() as int) == field_block(s),
    ensures
        block_at(p, pos) == Some((encode_utf8(s), pos + 4 + encode_utf8(s).len())),
{
    lemma_auto_spec_u32_to_from_le_bytes();
    let e = encode_utf8(s);
    let fb = field_block(s);
    assert(fb.len() == 4 + e.len());
    assert(p.subrange(pos, pos + 4) =~= fb.subrange(0, 4));
    assert(fb.subrange(0, 4) =~= spec_u32_to_le_bytes(e.len() as u32));
    assert(spec_u32_from_le_bytes(p.subrange(pos, pos + 4)) == e.len() as u32);
    assert(p.subrange(pos + 4, pos + 4 + e.len()) =~= fb.subrange(4, fb.len() as int));
    assert(fb.subrange(4, fb.len() as int) =~= e);
}

/// Shape of a well-formed payload: it parses back into exactly the record's
/// fields.
proof fn lemma_payload_shape(v: AuthDataView)
    requires
        wf32_view(v),
    ensures
        ({
            let p = payload_of(v);
            let e1 = encode_utf8(v.ap_id);
            let e2 = encode_utf8(v.state);
            let e3 = encode_utf8(v.redirect_uri);
            let pos1 = 4 + e1.len() as int;
            let pos2 = pos1 + 4 + e2.len();
            let pos3 = pos2 + 4 + e3.len();
            &&& p.len() >= 13
            &&& block_at(p, 0) == Some((e1, pos1))
            &&& block_at(p, pos1) == Some((e2, pos2))
            &&& block_at(p, pos2) == Some((e3, pos3))
            &&& match v.code_verifier {
                Some(cv) => p[pos3] == 1u8 && block_at(p, pos3 + 1) == Some(
                    (encode_utf8(cv), p.len() as int),
                ),
                None => p[pos3] == 0u8 && pos3 + 1 == p.len(),
            }
        }),
{
    lemma_auto_spec_u32_to_from_le_bytes();
    let p = payload_of(v);
    let e1 = encode_utf8(v.ap_id);
    let e2 = encode_utf8(v.state);
    let e3 = encode_utf8(v.redirect_uri);
    let pos1 = 4 + e1.len() as int;
    let pos2 = pos1 + 4 + e2.len();
    let pos3 = pos2 + 4 + e3.len();
    assert(p.subrange(0, pos1) =~= field_block(v.ap_id));
    lemma_block_at_field(p, 0, v.ap_id);
    assert(p.subrange(pos1, pos1 + field_block(v.state).len()) =~= field_block(v.state));
    lemma_block_at_field(p, pos1, v.state);
    assert(p.subrange(pos2, pos2 + field_block(v.redirect_uri).len()) =~= field_block(
        v.redirect_uri,
    ));
    lemma_block_at_field(p, pos2, v.redirect_uri);
    match v.code_verifier {
        Some(cv) => {
            assert(p[pos3] == 1u8);
            assert(p.subrange(pos3 + 1, pos3 + 1 + field_block(cv).len()) =~= field_block(cv));
            lemma_block_at_field(p, pos3 + 1, cv);
            assert(pos3 + 1 + field_block(cv).len() == p.len());
        },
        None => {
            assert(p[pos3] == 0u8);
        },
    }
}

/// Shape of a well-formed token body: the payload sits in front, the MAC
/// fills the remaining 32 bytes.
proof fn lemma_token_shape(v: AuthDataView, key: Seq<u8>)
    requires
        wf32_view(v),
    ensures
        ({
            let p = payload_of(v);
            let tb = token_bytes_of(v, key);
            &&& p.len() >= 13
            &&& tb.len() == p.len() + 32
            &&& tb.subrange(0, p.len() as int) == p
            &&& tb.subrange(p.len() as int, tb.len() as int) == spec_hmac_sha256(key, p)
        }),
{
    lemma_payload_shape(v);
    let p = payload_of(v);
    let tb = token_bytes_of(v, key);
    assert(tb.subrange(0, p.len() as int) =~= p);
    assert(tb.subrange(p.len() as int, tb.len() as int) =~= spec_hmac_sha256(key, p));
}

// ---------------------------------------------------------------------------
// Encoding
// ---------------------------------------------------------------------------

/// Append one length-prefixed field to the payload being built.
fn push_field_block(dst: &mut Vec<u8>, s: &String)
    requires
        fits_field(s@),
    ensures
        final(dst)@ == old(dst)@ + field_block(s@),
{
    let b = s.as_str().as_bytes();
    let len_bytes = u32_to_le_bytes(b.len() as u32);
    append_slice(dst, len_bytes.as_slice());
    append_slice(dst, b);
    proof {
        assert(dst@ =~= old(dst)@ + field_block(s@));
    }
}

impl AuthValidationData {
    /// Encode and sign this record into a state token under the given key.
    ///
    /// Callers hand the token to the client and get it back unmodified on
    /// the authorization callback; [`AuthValidationData::decode`] inverts
    /// this exactly.
    pub fn encode(&self, key: &Secret) -> (r: String)
        requires
            wf_view(self@),
        ensures
            r@ == token_of(self@, key_bytes(key@)),
    {
        let mut payload: Vec<u8> = Vec::new();
        push_field_block(&mut payload, &self.ap_id);
        push_field_block(&mut payload, &self.state);
        push_field_block(&mut payload, &self.redirect_uri);
        match &self.code_verifier {
            Some(cv) => {
                payload.push(1u8);
                push_field_block(&mut payload, cv);
            },
            None => {
                payload.push(0u8);
            },
        }
        proof {
            assert(payload@ =~= payload_of(self@));
        }
        let mac = hmac_sha256(key.expose().as_bytes(), payload.as_slice());
        append_slice(&mut payload, mac.as_slice());
        proof {
            assert(payload@ =~= token_bytes_of(self@, key_bytes(key@)));
        }
        hex_encode(payload.as_slice())
    }
}

// ---------------------------------------------------------------------------
// Decoding
// ---------------------------------------------------------------------------

/// Read one length-prefixed block out of the payload.
fn read_block(p: &Vec<u8>, pos: usize) -> (r: Option<(Vec<u8>, usize)>)
    requires
        pos <= p@.len(),
    ensures
        match r {
            Some(be) => block_at(p@, pos as int) == Some((be.0@, be.1 as int)) && pos < be.1
                <= p@.len(),
            None => block_at(p@, pos as int) is None,
        },
{
    if p.len() - pos < 4 {
        return None;
    }
    let len32 = u32_from_le_bytes(slice_subrange(p.as_slice(), pos, pos + 4));
    let l = len32 as usize;
    if l > p.len() - (pos + 4) {
        return None;
    }
    let block = slice_to_vec(slice_subrange(p.as_slice(), pos + 4, pos + 4 + l));
    Some((block, pos + 4 + l))
}

/// Undo the hex rendering of a whole string: succeeds exactly on the
/// strings that are the hex rendering of some byte string.
fn hex_decode(token: &str) -> (r: Option<Vec<u8>>)
    ensures
        match r {
            Some(raw) => hex_chars_of(raw@) == token@,
            None => forall|d: Seq<u8>| token@ != hex_chars_of(d),
        },
{
    broadcast use vstd::string::is_ascii_spec_bytes;

    if !token.is_ascii() {
        proof {
            assert forall|d: Seq<u8>| token@ != hex_chars_of(d) by {
                if token@ == hex_chars_of(d) {
                    lemma_hex_chars_shape(d);
                }
            }
        }
        return None;
    }
    let tb = token.as_bytes();
    proof {
        assert(tb@ =~= Seq::new(token@.len(), |i: int| token@[i] as u8));
        assert(forall|i: int| 0 <= i < token@.len() ==> (#[trigger] token@[i]) as u8 as char
            == token@[i]);
    }
    let n = tb.len();
    if n % 2 != 0 {
        proof {
            assert forall|d: Seq<u8>| token@ != hex_chars_of(d) by {
                if token@ == hex_chars_of(d) {
                    lemma_hex_chars_shape(d);
                }
            }
        }
        return None;
    }
    let mut raw: Vec<u8> = Vec::new();
    let mut i: usize = 0;
    while i < n / 2
        invariant
            token.is_ascii(),
            tb@ == Seq::new(token@.len(), |k: int| token@[k] as u8),
            forall|k: int| 0 <= k < token@.len() ==> (#[trigger] token@[k]) as u8 as char
                == token@[k],
            n == tb@.len(),
            n == token@.len(),
            n % 2 == 0,
            i <= n / 2,
            raw@.len() == i,
            hex_chars_of(raw@) =~= token@.subrange(0, 2 * i as int),
        decreases n - i,
    {
        let hi = hex_val(tb[2 * i]);
        let lo = hex_val(tb[2 * i + 1]);
        match (hi, lo) {
            (Some(h), Some(l)) => {
                let v: u8 = h * 16 + l;
                let ghost prev = raw@;
                raw.push(v);
                proof {
                    assert(raw@.drop_last() =~= prev);
                    assert(v / 16 == h && v % 16 == l);
                    assert(hex_chars_of(raw@) == hex_chars_of(prev) + seq![
                        hex_digit((v / 16) as u8),
                        hex_digit((v % 16) as u8),
                    ]);
                    assert(tb@[2 * i as int] == token@[2 * i as int] as u8);
                    assert(tb@[2 * i as int + 1] == token@[2 * i as int + 1] as u8);
                    assert(hex_digit(h) == token@[2 * i as int]);
                    assert(hex_digit(l) == token@[2 * i as int + 1]);
                    assert(token@.subrange(0, 2 * i as int + 2) =~= token@.subrange(
                        0,
                        2 * i as int,
                    ) + seq![token@[2 * i as int], token@[2 * i as int + 1]]);
                    assert(hex_chars_of(raw@) =~= token@.subrange(0, 2 * i as int + 2));
                }
            },
            _ => {
                proof {
                    assert(!is_hex_digit_char(token@[2 * i as int]) || !is_hex_digit_char(
                        token@[2 * i as int + 1],
                    ));
                    assert forall|d: Seq<u8>| token@ != hex_chars_of(d) by {
                        if token@ == hex_chars_of(d) {
                            lemma_hex_chars_shape(d);
                            assert(is_hex_digit_char(hex_chars_of(d)[2 * i as int]));
                            assert(is_hex_digit_char(hex_chars_of(d)[2 * i as int + 1]));
                        }
                    }
                }
                return None;
            },
        }
        i = i + 1;
    }
    proof {
        assert(hex_chars_of(raw@) =~= token@);
    }
    Some(raw)
}

/// Parse a payload back into a validation record: succeeds exactly on the
/// payloads that some well-formed record encodes to, and then returns a
/// record that encodes back to this very payload.
fn parse_fields(payload: &Vec<u8>) -> (r: Option<AuthValidationData>)
    ensures
        match r {
            Some(out) => payload@ == payload_of(out@) && wf32_view(out@),
            None => forall|v: AuthDataView| wf32_view(v) ==> payload@ != payload_of(v),
        },
{
    broadcast use encode_utf8_valid_utf8;
    broadcast use encode_utf8_decode_utf8;
    broadcast use decode_utf8_encode_utf8;

    let (f1, pos1) = match read_block(payload, 0) {
        Some(x) => x,
        None => {
            proof {
                assert forall|v: AuthDataView| wf32_view(v) implies payload@ != payload_of(v) by {
                    if payload@ == payload_of(v) {
                        lemma_payload_shape(v);
                    }
                }
            }
            return None;
        },
    };
    let (f2, pos2) = match read_block(payload, pos1) {
        Some(x) => x,
        None => {
            proof {
                assert forall|v: AuthDataView| wf32_view(v) implies payload@ != payload_of(v) by {
                    if payload@ == payload_of(v) {
                        lemma_payload_shape(v);
                    }
                }
            }
            return None;
        },
    };
    let (f3, pos3) = match read_block(payload, pos2) {
        Some(x) => x,
        None => {
            proof {
                assert forall|v: AuthDataView| wf32_view(v) implies payload@ != payload_of(v) by {
                    if payload@ == payload_of(v) {
                        lemma_payload_shape(v);
                    }
                }
            }
            return None;
        },
    };
    if pos3 >= payload.len() {
        proof {
            assert forall|v: AuthDataView| wf32_view(v) implies payload@ != payload_of(v) by {
                if payload@ == payload_of(v) {
                    lemma_payload_shape(v);
                }
            }
        }
        return None;
    }
    let flag = payload[pos3];
    let f4: Option<Vec<u8>> = if flag == 0u8 {
        if pos3 + 1 != payload.len() {
            proof {
                assert forall|v: AuthDataView| wf32_view(v) implies payload@ != payload_of(v) by {
                    if payload@ == payload_of(v) {
                        lemma_payload_shape(v);
                    }
                }
            }
            return None;
        }
        None
    } else if flag == 1u8 {
        let (f4v, pos4) = match read_block(payload, pos3 + 1) {
            Some(x) => x,
            None => {
                proof {
                    assert forall|v: AuthDataView| wf32_view(v) implies payload@ != payload_of(
                        v,
                    ) by {
                        if payload@ == payload_of(v) {
                            lemma_payload_shape(v);
                        }
                    }
                }
                return None;
            },
        };
        if pos4 != payload.len() {
            proof {
                assert forall|v: AuthDataView| wf32_view(v) implies payload@ != payload_of(v) by {
                    if payload@ == payload_of(v) {
                        lemma_payload_shape(v);
                    }
                }
            }
            return None;
        }
        Some(f4v)
    } else {
        proof {
            assert forall|v: AuthDataView| wf32_view(v) implies payload@ != payload_of(v) by {
                if payload@ == payload_of(v) {
                    lemma_payload_shape(v);
                }
            }
        }
        return None;
    };
    let ghost gf1 = f1@;
    let ghost gf2 = f2@;
    let ghost gf3 = f3@;
    let ghost gf4 = match f4 {
        Some(ref f) => Some(f@),
        None => None::<Seq<u8>>,
    };
    let s1 = bytes_to_string(f1);
    let s2 = bytes_to_string(f2);
    let s3 = bytes_to_string(f3);
    let s4 = match f4 {
        Some(f) => match bytes_to_string(f) {
            Some(s) => Some(Some(s)),
            None => None,
        },
        None => Some(None),
    };
    match (s1, s2, s3, s4) {
        (Some(ap_id), Some(state), Some(redirect_uri), Some(code_verifier)) => {
            let out = AuthValidationData { ap_id, state, redirect_uri, code_verifier };
            proof {
                lemma_auto_spec_u32_to_from_le_bytes();
                assert(payload@ =~= payload_of(out@));
            }
            Some(out)
        },
        _ => {
            proof {
                assert forall|v: AuthDataView| wf32_view(v) implies payload@ != payload_of(v) by {
                    if payload@ == payload_of(v) {
                        lemma_payload_shape(v);
                        assert(gf1 == encode_utf8(v.ap_id));
                        assert(gf2 == encode_utf8(v.state));
                        assert(gf3 == encode_utf8(v.redirect_uri));
                        match v.code_verifier {
                            Some(cv) => {
                                assert(gf4 == Some(encode_utf8(cv)));
                            },
                            None => {
                                assert(gf4 is None);
                            },
                        }
                    }
                }
            }
            None
        },
    }
}

impl AuthValidationData {
    /// Verify and decode a state token under the given key.
    ///
    /// Succeeds exactly on the tokens [`AuthValidationData::encode`]
    /// produces under the same key: any truncation, shape violation or MAC
    /// mismatch yields [`Error::InvalidAuthState`], the only error this
    /// codec returns.
    pub fn decode(token: &str, key: &Secret) -> (r: Result<AuthValidationData, Error>)
        ensures
            match r {
                Ok(v) => token@ == token_of(v@, key_bytes(key@)) && wf32_view(v@),
                Err(e) => e == Error::InvalidAuthState && forall|v: AuthDataView|
                    wf32_view(v) ==> token@ != token_of(v, key_bytes(key@)),
            },
    {
        let ghost kb = key_bytes(key@);
        let raw = match hex_decode(token) {
            Some(raw) => raw,
            None => {
                return Err(Error::InvalidAuthState);
            },
        };
        let m = raw.len();
        if m < 45 {
            proof {
                assert forall|v: AuthDataView| wf32_view(v) implies raw@ != token_bytes_of(
                    v,
                    kb,
                ) by {
                    if raw@ == token_bytes_of(v, kb) {
                        lemma_token_shape(v, kb);
                    }
                }
                lemma_no_candidate(token@, kb, raw@);
            }
            return Err(Error::InvalidAuthState);
        }
        let payload = slice_to_vec(slice_subrange(raw.as_slice(), 0, m - 32));
        let mac = slice_subrange(raw.as_slice(), m - 32, m);
        let out = match parse_fields(&payload) {
            Some(out) => out,
            None => {
                proof {
                    assert forall|v: AuthDataView| wf32_view(v) implies raw@ != token_bytes_of(
                        v,
                        kb,
                    ) by {
                        if raw@ == token_bytes_of(v, kb) {
                            lemma_token_shape(v, kb);
                            assert(payload@ =~= payload_of(v));
                        }
                    }
                    lemma_no_candidate(token@, kb, raw@);
                }
                return Err(Error::InvalidAuthState);
            },
        };
        let computed = hmac_sha256(key.expose().as_bytes(), payload.as_slice());
        if !bytes_eq(computed.as_slice(), mac) {
            proof {
                assert forall|v: AuthDataView| wf32_view(v) implies raw@ != token_bytes_of(
                    v,
                    kb,
                ) by {
                    if raw@ == token_bytes_of(v, kb) {
                        lemma_token_shape(v, kb);
                        assert(payload@ =~= payload_of(v));
                        assert(mac@ =~= spec_hmac_sha256(kb, payload_of(v)));
                    }
                }
                lemma_no_candidate(token@, kb, raw@);
            }
            return Err(Error::InvalidAuthState);
        }
        proof {
            assert(raw@ =~= payload@ + mac@);
            assert(raw@ =~= token_bytes_of(out@, kb));
        }
        Ok(out)
    }
}

// ---------------------------------------------------------------------------
// Laws
// ---------------------------------------------------------------------------

/// Law: under one key, distinct records have distinct tokens. Together with
/// the contracts of `encode` (the token is exactly `token_of` the record)
/// and `decode` (success exactly on such tokens, returning a record with
/// the same `token_of` image), every encoded record decodes back to itself.
pub proof fn lemma_token_of_injective(v1: AuthDataView, v2: AuthDataView, key: Seq<u8>)
    requires
        wf32_view(v1),
        wf32_view(v2),
        token_of(v1, key) == token_of(v2, key),
    ensures
        v1 == v2,
{
    lemma_auto_spec_u32_to_from_le_bytes();
    lemma_hex_chars_inj(token_bytes_of(v1, key), token_bytes_of(v2, key));
    lemma_token_shape(v1, key);
    lemma_token_shape(v2, key);
    lemma_payload_shape(v1);
    lemma_payload_shape(v2);
    let p1 = payload_of(v1);
    let p2 = payload_of(v2);
    let tb1 = token_bytes_of(v1, key);
    assert(p1.len() == p2.len());
    assert(p1 =~= tb1.subrange(0, p1.len() as int));
    assert(p2 =~= tb1.subrange(0, p2.len() as int));
    assert(block_at(p1, 0) == block_at(p2, 0));
    let e1 = encode_utf8(v1.ap_id);
    let pos1 = 4 + e1.len() as int;
    assert(block_at(p1, pos1) == block_at(p2, pos1));
    let e2 = encode_utf8(v1.state);
    let pos2 = pos1 + 4 + e2.len();
    assert(block_at(p1, pos2) == block_at(p2, pos2));
    let e3 = encode_utf8(v1.redirect_uri);
    let pos3 = pos2 + 4 + e3.len();
    vstd::utf8::encode_utf8_decode_utf8(v1.ap_id);
    vstd::utf8::encode_utf8_decode_utf8(v2.ap_id);
    vstd::utf8::encode_utf8_decode_utf8(v1.state);
    vstd::utf8::encode_utf8_decode_utf8(v2.state);
    vstd::utf8::encode_utf8_decode_utf8(v1.redirect_uri);
    vstd::utf8::encode_utf8_decode_utf8(v2.redirect_uri);
    assert(v1.ap_id == v2.ap_id);
    assert(v1.state == v2.state);
    assert(v1.redirect_uri == v2.redirect_uri);
    match (v1.code_verifier, v2.code_verifier) {
        (Some(c1), Some(c2)) => {
            assert(block_at(p1, pos3 + 1) == block_at(p2, pos3 + 1));
            vstd::utf8::encode_utf8_decode_utf8(c1);
            vstd::utf8::encode_utf8_decode_utf8(c2);
            assert(c1 == c2);
        },
        (None, None) => {},
        (Some(c1), None) => {
            assert(p1[pos3] == 1u8 && p2[pos3] == 0u8);
        },
        (None, Some(c2)) => {
            assert(p1[pos3] == 0u8 && p2[pos3] == 1u8);
        },
    }
    assert(v1 =~= v2);
}

} // verus!
