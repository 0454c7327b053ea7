//! `application/x-www-form-urlencoded` rendering, verified byte by byte:
//! alphanumeric bytes and `* - . _` pass through, a space becomes `+`, and
//! every other byte becomes `%` with two uppercase hex digits.

use vstd::prelude::*;
use vstd::string::StringExecFns;
use vstd::utf8::encode_utf8;

use crate::trusted::string_push;

verus! {

/// Bytes the encoding leaves unchanged.
pub open spec fn is_unreserved_byte(b: u8) -> bool {
    b == 42 || b == 45 || b == 46 || (48 <= b && b <= 57) || (65 <= b && b <= 90) || b == 95 || (
    97 <= b && b <= 122)
}

/// The uppercase hex digit for a value below 16.
pub open spec fn hex_digit_upper(n: u8) -> char
    recommends
        n < 16,
{
    if n == 0 { '0' } else if n == 1 { '1' } else if n == 2 { '2' } else if n == 3 { '3' }
    else if n == 4 { '4' } else if n == 5 { '5' } else if n == 6 { '6' } else if n == 7 { '7' }
    else if n == 8 { '8' } else if n == 9 { '9' } else if n == 10 { 'A' } else if n == 11 { 'B' }
    else if n == 12 { 'C' } else if n == 13 { 'D' } else if n == 14 { 'E' } else { 'F' }
}

/// The encoding of one byte.
pub open spec fn enc_byte(b: u8) -> Seq<char> {
    if is_unreserved_byte(b) {
        seq![b as char]
    } else if b == 32 {
        seq!['+']
    } else {
        seq!['%', hex_digit_upper((b / 16) as u8), hex_digit_upper((b % 16) as u8)]
    }
}

/// The encoding of a byte string.
pub open spec fn enc_bytes(bs: Seq<u8>) -> Seq<char>
    decreases bs.len(),
{
    if bs.len() == 0 {
        Seq::empty()
    } else {
        enc_bytes(bs.drop_last()) + enc_byte(bs.last())
    }
}

/// The form-urlencoding of a string: the byte serialization of its UTF-8.
pub open spec fn form_urlencoded(s: Seq<char>) -> Seq<char> {
    enc_bytes(encode_utf8(s))
}

fn hex_digit_upper_exec(n: u8) -> (c: char)
    requires
        n < 16,
    ensures
        c == hex_digit_upper(n),
{
    if n == 0 { '0' } else if n == 1 { '1' } else if n == 2 { '2' } else if n == 3 { '3' }
    else if n == 4 { '4' } else if n == 5 { '5' } else if n == 6 { '6' } else if n == 7 { '7' }
    else if n == 8 { '8' } else if n == 9 { '9' } else if n == 10 { 'A' } else if n == 11 { 'B' }
    else if n == 12 { 'C' } else if n == 13 { 'D' } else if n == 14 { 'E' } else { 'F' }
}

/// Form-urlencode one string.
pub fn urlencode(s: &str) -> (r: String)
    ensures
        r@ == form_urlencoded(s@),
{
    let bytes = s.as_bytes();
    let mut out = String::new();
    let mut i: usize = 0;
    while i < bytes.len()
        invariant
            bytes@ == encode_utf8(s@),
            i <= bytes@.len(),
            out@ == enc_bytes(bytes@.take(i as int)),
        decreases bytes@.len() - i,
    {
        let b = bytes[i];
        if b == 42 || b == 45 || b == 46 || (48 <= b && b <= 57) || (65 <= b && b <= 90) || b == 95
            || (97 <= b && b <= 122) {
            string_push(&mut out, b as char);
        } else if b == 32 {
            string_push(&mut out, '+');
        } else {
            string_push(&mut out, '%');
            string_push(&mut out, hex_digit_upper_exec(b / 16));
            string_push(&mut out, hex_digit_upper_exec(b % 16));
        }
        proof {
            assert(bytes@.take(i + 1).drop_last() =~= bytes@.take(i as int));
            assert(bytes@.take(i + 1).last() == bytes@[i as int]);
            assert(out@ =~= enc_bytes(bytes@.take(i + 1)));
        }
        i = i + 1;
    }
    proof {
        assert(bytes@.take(bytes@.len() as int) =~= bytes@);
    }
    out
}

/// The view of a list of string pairs.
pub open spec fn pairs_view(ps: Seq<(String, String)>) -> Seq<(Seq<char>, Seq<char>)> {
    Seq::new(ps.len(), |i: int| (ps[i].0@, ps[i].1@))
}

/// One `key=value` element of a query string, both sides encoded.
pub open spec fn query_pair(k: Seq<char>, v: Seq<char>) -> Seq<char> {
    form_urlencoded(k) + seq!['='] + form_urlencoded(v)
}

/// A query string: `key=value` pairs joined with `&`.
pub open spec fn query_of(pairs: Seq<(Seq<char>, Seq<char>)>) -> Seq<char>
    decreases pairs.len(),
{
    if pairs.len() == 0 {
        Seq::empty()
    } else if pairs.len() == 1 {
        query_pair(pairs[0].0, pairs[0].1)
    } else {
        query_of(pairs.drop_last()) + seq!['&'] + query_pair(pairs.last().0, pairs.last().1)
    }
}

/// Render a list of pairs as a form-urlencoded query or body string.
pub fn encode_query(pairs: &Vec<(String, String)>) -> (r: String)
    ensures
        r@ == query_of(pairs_view(pairs@)),
{
    let mut out = String::new();
    let mut i: usize = 0;
    while i < pairs.len()
        invariant
            i <= pairs@.len(),
            out@ == query_of(pairs_view(pairs@).take(i as int)),
        decreases pairs@.len() - i,
    {
        if i > 0 {
            string_push(&mut out, '&');
        }
        let ek = urlencode(pairs[i].0.as_str());
        out.append(ek.as_str());
        string_push(&mut out, '=');
        let ev = urlencode(pairs[i].1.as_str());
        out.append(ev.as_str());
        proof {
            let pv = pairs_view(pairs@);
            assert(pv.take(i + 1).drop_last() =~= pv.take(i as int));
            assert(pv.take(i + 1).last() == pv[i as int]);
            assert(out@ =~= query_of(pv.take(i + 1)));
        }
        i = i + 1;
    }
    proof {
        assert(pairs_view(pairs@).take(pairs@.len() as int) =~= pairs_view(pairs@));
    }
    out
}

} // verus!
