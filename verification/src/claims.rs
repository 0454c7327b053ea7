//! Claim extractor: maps a provider's raw claim payload onto the canonical
//! identity fields through the provider's claims mapping. Values pass
//! through untouched and untyped; absent fields are omitted, never an error.

use vstd::prelude::*;

use crate::models::ClaimType;
use crate::util::str_eq;

verus! {

/// The provider field name configured for a claim kind: the first mapping
/// entry for that kind, if any.
pub open spec fn claim_field_for(claims: Seq<(ClaimType, String)>, kind: ClaimType) -> Option<
    Seq<char>,
>
    decreases claims.len(),
{
    if claims.len() == 0 {
        None
    } else if claims[0].0 == kind {
        Some(claims[0].1@)
    } else {
        claim_field_for(claims.drop_first(), kind)
    }
}

/// The first value under a field name in a raw claim payload, if any.
pub open spec fn raw_lookup<V>(raw: Seq<(String, V)>, field: Seq<char>) -> Option<V>
    decreases raw.len(),
{
    if raw.len() == 0 {
        None
    } else if raw[0].0@ == field {
        Some(raw[0].1)
    } else {
        raw_lookup(raw.drop_first(), field)
    }
}

/// The value a payload yields for a claim kind under a claims mapping.
pub open spec fn extracted_claim<V>(
    claims: Seq<(ClaimType, String)>,
    raw: Seq<(String, V)>,
    kind: ClaimType,
) -> Option<V> {
    match claim_field_for(claims, kind) {
        Some(f) => raw_lookup(raw, f),
        None => None,
    }
}

/// The whole extracted mapping: one entry per configured pair whose field
/// is present in the payload, in mapping order.
pub open spec fn extract_all<V>(
    claims: Seq<(ClaimType, String)>,
    raw: Seq<(String, V)>,
) -> Seq<(ClaimType, V)>
    decreases claims.len(),
{
    if claims.len() == 0 {
        Seq::empty()
    } else {
        let rest = extract_all(claims.drop_first(), raw);
        match raw_lookup(raw, claims[0].1@) {
            Some(v) => seq![(claims[0].0, v)] + rest,
            None => rest,
        }
    }
}

/// Find the first value under a field name.
fn raw_get<'a, V>(raw: &'a Vec<(String, V)>, field: &str) -> (r: Option<&'a V>)
    ensures
        match r {
            Some(val) => raw_lookup(raw@, field@) == Some(*val),
            None => raw_lookup(raw@, field@) is None,
        },
{
    let mut i: usize = 0;
    proof {
        assert(raw@.skip(0) =~= raw@);
    }
    while i < raw.len()
        invariant
            i <= raw@.len(),
            raw_lookup(raw@, field@) == raw_lookup(raw@.skip(i as int), field@),
        decreases raw@.len() - i,
    {
        proof {
            assert(raw@.skip(i as int)[0] == raw@[i as int]);
            assert(raw@.skip(i as int).drop_first() =~= raw@.skip(i + 1));
        }
        if str_eq(raw[i].0.as_str(), field) {
            return Some(&raw[i].1);
        }
        i = i + 1;
    }
    proof {
        assert(raw@.skip(raw@.len() as int) =~= Seq::<(String, V)>::empty());
    }
    None
}

/// Extract the value of one canonical claim kind from a raw payload.
pub fn extract_claim<'a, V>(
    claims: &Vec<(ClaimType, String)>,
    raw: &'a Vec<(String, V)>,
    kind: ClaimType,
) -> (r: Option<&'a V>)
    ensures
        match r {
            Some(val) => extracted_claim(claims@, raw@, kind) == Some(*val),
            None => extracted_claim(claims@, raw@, kind) is None,
        },
{
    let mut i: usize = 0;
    proof {
        assert(claims@.skip(0) =~= claims@);
    }
    while i < claims.len()
        invariant
            i <= claims@.len(),
            claim_field_for(claims@, kind) == claim_field_for(claims@.skip(i as int), kind),
        decreases claims@.len() - i,
    {
        proof {
            assert(claims@.skip(i as int)[0] == claims@[i as int]);
            assert(claims@.skip(i as int).drop_first() =~= claims@.skip(i + 1));
        }
        if claims[i].0 == kind {
            return raw_get(raw, claims[i].1.as_str());
        }
        i = i + 1;
    }
    proof {
        assert(claims@.skip(claims@.len() as int) =~= Seq::<(ClaimType, String)>::empty());
    }
    None
}

/// Extract every configured claim present in a raw payload.
///
/// One entry per configured `(kind, field)` pair whose field the payload
/// holds, in mapping order; absent fields are simply omitted.
pub fn extract<'a, V>(claims: &Vec<(ClaimType, String)>, raw: &'a Vec<(String, V)>) -> (r: Vec<
    (ClaimType, &'a V),
>)
    ensures
        Seq::new(r@.len(), |i: int| (r@[i].0, *r@[i].1)) == extract_all(claims@, raw@),
{
    let mut out: Vec<(ClaimType, &'a V)> = Vec::new();
    let mut i: usize = 0;
    proof {
        assert(claims@.skip(0) =~= claims@);
        assert(Seq::new(out@.len(), |k: int| (out@[k].0, *out@[k].1)) =~= Seq::<(
            ClaimType,
            V,
        )>::empty());
    }
    while i < claims.len()
        invariant
            i <= claims@.len(),
            Seq::new(out@.len(), |k: int| (out@[k].0, *out@[k].1)) + extract_all(
                claims@.skip(i as int),
                raw@,
            ) =~= extract_all(claims@, raw@),
        decreases claims@.len() - i,
    {
        proof {
            assert(claims@.skip(i as int)[0] == claims@[i as int]);
            assert(claims@.skip(i as int).drop_first() =~= claims@.skip(i + 1));
        }
        let ghost before = Seq::new(out@.len(), |k: int| (out@[k].0, *out@[k].1));
        match raw_get(raw, claims[i].1.as_str()) {
            Some(val) => {
                out.push((claims[i].0, val));
                proof {
                    assert(Seq::new(out@.len(), |k: int| (out@[k].0, *out@[k].1)) =~= before
                        + seq![(claims@[i as int].0, *val)]);
                    assert(extract_all(claims@.skip(i as int), raw@) == seq![
                        (claims@[i as int].0, *val),
                    ] + extract_all(claims@.skip(i + 1), raw@));
                    assert(Seq::new(out@.len(), |k: int| (out@[k].0, *out@[k].1)) + extract_all(
                        claims@.skip(i + 1),
                        raw@,
                    ) =~= extract_all(claims@, raw@));
                }
            },
            None => {
                proof {
                    assert(extract_all(claims@.skip(i as int), raw@) == extract_all(
                        claims@.skip(i + 1),
                        raw@,
                    ));
                }
            },
        }
        i = i + 1;
    }
    proof {
        assert(claims@.skip(claims@.len() as int) =~= Seq::<(ClaimType, String)>::empty());
        assert(Seq::new(out@.len(), |k: int| (out@[k].0, *out@[k].1)) + extract_all(
            claims@.skip(claims@.len() as int),
            raw@,
        ) =~= Seq::new(out@.len(), |k: int| (out@[k].0, *out@[k].1)));
    }
    out
}

} // verus!
