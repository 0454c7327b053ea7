//! Authorization request builder: composes the redirect URL sent to the
//! provider and the validation record that accompanies the flow.

use vstd::prelude::*;
use vstd::string::StringExecFns;
use vstd::utf8::encode_utf8;

use crate::models::AuthProvider;
use crate::models::AuthValidationData;
use crate::models::CodeChallengeMethod;
use crate::models::Endpoints;
use crate::models::is_alphanumeric_char;
use crate::pkce::generate_pkce;
use crate::trusted::b64url_nopad;
use crate::trusted::random_alphanumeric;
use crate::trusted::sha256_of;
use crate::trusted::string_push;
use crate::urlenc::encode_query;
use crate::urlenc::pairs_view;
use crate::urlenc::query_of;

verus! {

/// Join strings with commas, the way the scope list is sent.
pub open spec fn comma_join(xs: Seq<Seq<char>>) -> Seq<char>
    decreases xs.len(),
{
    if xs.len() == 0 {
        Seq::empty()
    } else if xs.len() == 1 {
        xs[0]
    } else {
        comma_join(xs.drop_last()) + seq![','] + xs.last()
    }
}

/// The views of a list of strings.
pub open spec fn strings_view(xs: Seq<String>) -> Seq<Seq<char>> {
    Seq::new(xs.len(), |i: int| xs[i]@)
}

/// Join a list of strings with commas.
fn join_commas(xs: &Vec<String>) -> (r: String)
    ensures
        r@ == comma_join(strings_view(xs@)),
{
    let mut out = String::new();
    let mut i: usize = 0;
    while i < xs.len()
        invariant
            i <= xs@.len(),
            out@ == comma_join(strings_view(xs@).take(i as int)),
        decreases xs@.len() - i,
    {
        if i > 0 {
            string_push(&mut out, ',');
        }
        out.append(xs[i].as_str());
        proof {
            let sv = strings_view(xs@);
            assert(sv.take(i + 1).drop_last() =~= sv.take(i as int));
            assert(sv.take(i + 1).last() == sv[i as int]);
            assert(out@ =~= comma_join(sv.take(i + 1)));
        }
        i = i + 1;
    }
    proof {
        assert(strings_view(xs@).take(xs@.len() as int) =~= strings_view(xs@));
    }
    out
}

/// The query pairs of an authorization request, in order: client id,
/// redirect URI, response type, comma-joined scopes, state, and — when an
/// S256 challenge was generated — the challenge and its method.
pub open spec fn auth_pairs(
    client_id: Seq<char>,
    redirect_uri: Seq<char>,
    scope: Seq<char>,
    state: Seq<char>,
    challenge: Option<Seq<char>>,
) -> Seq<(Seq<char>, Seq<char>)> {
    let base = seq![
        ("client_id"@, client_id),
        ("redirect_uri"@, redirect_uri),
        ("response_type"@, "code"@),
        ("scope"@, scope),
        ("state"@, state),
    ];
    match challenge {
        Some(c) => base + seq![("code_challenge"@, c), ("code_challenge_method"@, "S256"@)],
        None => base,
    }
}

/// A full authorization URL: the endpoint, then the encoded query.
pub open spec fn auth_url_of(endpoint: Seq<char>, pairs: Seq<(Seq<char>, Seq<char>)>) -> Seq<
    char,
> {
    endpoint + seq!['?'] + query_of(pairs)
}

impl AuthProvider {
    /// The explicitly configured authorization endpoint.
    pub open spec fn spec_authorization_endpoint(&self) -> Seq<char>
        recommends
            self.endpoints is Manual,
    {
        match self.endpoints {
            Endpoints::Manual { authorization, .. } => authorization@,
            Endpoints::Discoverable => Seq::empty(),
        }
    }

    /// Whether the provider announces support for S256 code challenges.
    pub fn supports_s256(&self) -> (r: bool)
        ensures
            r == self.spec_supports_s256(),
    {
        let mut i: usize = 0;
        while i < self.code_challenge_methods.len()
            invariant
                i <= self.code_challenge_methods@.len(),
                forall|j: int|
                    0 <= j < i ==> self.code_challenge_methods@[j] != CodeChallengeMethod::S256,
            decreases self.code_challenge_methods@.len() - i,
        {
            if self.code_challenge_methods[i] == CodeChallengeMethod::S256 {
                return true;
            }
            i = i + 1;
        }
        false
    }

    /// Compose the authorization redirect URL and the validation record of
    /// this flow.
    ///
    /// The state is 32 fresh random alphanumeric characters. When the
    /// provider supports S256, a PKCE pair is generated: the verifier is
    /// kept in the record, the challenge and its method go into the query;
    /// otherwise the query carries no challenge parameters and the record
    /// no verifier. The caller encodes the returned record through the
    /// state-token codec and hands it to the client.
    pub fn create_authorization_uri(&self, redirect_uri: &str) -> (r: (String, AuthValidationData))
        requires
            self.endpoints is Manual,
        ensures
            r.1@.ap_id == self.id@,
            r.1@.redirect_uri == redirect_uri@,
            r.1@.state.len() == 32,
            forall|i: int| 0 <= i < 32 ==> is_alphanumeric_char(#[trigger] r.1@.state[i]),
            self.spec_supports_s256() <==> r.1@.code_verifier is Some,
            r.1@.code_verifier matches Some(cv) ==> cv.len() == 43 && exists|raw: Seq<u8>|
                raw.len() == 32 && cv == b64url_nopad(raw),
            r.0@ == auth_url_of(
                self.spec_authorization_endpoint(),
                auth_pairs(
                    self.client_credentials.spec_client_id(),
                    redirect_uri@,
                    comma_join(strings_view(self.scopes@)),
                    r.1@.state,
                    match r.1@.code_verifier {
                        Some(cv) => Some(b64url_nopad(sha256_of(encode_utf8(cv)))),
                        None => None,
                    },
                ),
            ),
    {
        let client_id = self.client_credentials.client_id();
        let state = random_alphanumeric(32);
        let scope = join_commas(&self.scopes);
        let mut pairs: Vec<(String, String)> = Vec::new();
        pairs.push((String::from_str("client_id"), client_id.to_owned()));
        pairs.push((String::from_str("redirect_uri"), redirect_uri.to_owned()));
        pairs.push((String::from_str("response_type"), String::from_str("code")));
        pairs.push((String::from_str("scope"), scope));
        pairs.push((String::from_str("state"), state.clone()));
        let code_verifier: Option<String> = if self.supports_s256() {
            let (verifier, challenge) = generate_pkce();
            pairs.push((String::from_str("code_challenge"), challenge));
            pairs.push((
                String::from_str("code_challenge_method"),
                String::from_str("S256"),
            ));
            Some(verifier)
        } else {
            None
        };
        let ghost challenge_view: Option<Seq<char>> = match code_verifier {
            Some(ref cv) => Some(b64url_nopad(sha256_of(encode_utf8(cv@)))),
            None => None,
        };
        proof {
            assert(pairs_view(pairs@) =~= auth_pairs(
                self.client_credentials.spec_client_id(),
                redirect_uri@,
                comma_join(strings_view(self.scopes@)),
                state@,
                challenge_view,
            ));
        }
        let query = encode_query(&pairs);
        let mut url = match &self.endpoints {
            Endpoints::Manual { authorization, .. } => authorization.clone(),
            Endpoints::Discoverable => String::new(),
        };
        string_push(&mut url, '?');
        url.append(query.as_str());
        let data = AuthValidationData {
            ap_id: self.id.clone(),
            state,
            redirect_uri: redirect_uri.to_owned(),
            code_verifier,
        };
        proof {
            assert(url@ =~= auth_url_of(self.spec_authorization_endpoint(), pairs_view(pairs@)));
            assert(challenge_view == match data@.code_verifier {
                Some(cv) => Some(b64url_nopad(sha256_of(encode_utf8(cv)))),
                None => None::<Seq<char>>,
            });
        }
        (url, data)
    }
}

} // verus!
