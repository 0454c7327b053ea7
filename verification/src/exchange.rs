//! Token exchange: building the authorization-code grant request under the
//! provider's client-authentication method, and interpreting what came back.
//!
//! The HTTP transport itself lives outside this crate; it receives a fully
//! determined [`TokenRequest`], performs the POST with a caller-configured
//! timeout, and reports an [`ExchangeOutcome`] for interpretation here.

use vstd::prelude::*;
use vstd::string::StringExecFns;

use crate::models::AuthProvider;
use crate::models::ClientCredentials;
use crate::models::Endpoints;
use crate::urlenc::form_urlencoded;
use crate::urlenc::pairs_view;
use crate::urlenc::urlencode;
use crate::Error;

verus! {

/// A fully determined token-exchange request, ready for a transport.
pub struct TokenRequest {
    /// The provider's token endpoint.
    pub endpoint: String,
    /// Form fields of the POST body, not yet urlencoded.
    pub body: Vec<(String, String)>,
    /// HTTP Basic credentials (username, password), both form-urlencoded;
    /// present exactly for the `SecretBasic` method.
    pub basic_auth: Option<(String, String)>,
}

/// The body fields of an authorization-code grant, in order: grant type,
/// code, redirect URI and verifier where used, the client id, and — for the
/// `SecretPost` method only — the client secret.
pub open spec fn token_body_pairs(
    creds: ClientCredentials,
    code: Seq<char>,
    redirect_uri: Option<Seq<char>>,
    code_verifier: Option<Seq<char>>,
) -> Seq<(Seq<char>, Seq<char>)> {
    let base = seq![("grant_type"@, "authorization_code"@), ("code"@, code)];
    let with_ru = match redirect_uri {
        Some(u) => base + seq![("redirect_uri"@, u)],
        None => base,
    };
    let with_cv = match code_verifier {
        Some(cv) => with_ru + seq![("code_verifier"@, cv)],
        None => with_ru,
    };
    let with_id = with_cv + seq![("client_id"@, creds.spec_client_id())];
    match creds {
        ClientCredentials::SecretPost { client_secret, .. } => with_id + seq![
            ("client_secret"@, client_secret@),
        ],
        _ => with_id,
    }
}

impl AuthProvider {
    /// The explicitly configured token endpoint.
    pub open spec fn spec_token_endpoint(&self) -> Seq<char>
        recommends
            self.endpoints is Manual,
    {
        match self.endpoints {
            Endpoints::Manual { token, .. } => token@,
            Endpoints::Discoverable => Seq::empty(),
        }
    }

    /// Build the token-exchange request for an authorization code.
    ///
    /// Credential dispatch: `NoSecret` puts only the client id in the body;
    /// `SecretPost` adds the client secret to the body; `SecretBasic` keeps
    /// the secret out of the body and carries both credentials, each
    /// form-urlencoded, as HTTP Basic username and password.
    pub fn build_token_request(
        &self,
        code: &str,
        redirect_uri: Option<&str>,
        code_verifier: Option<&str>,
    ) -> (r: TokenRequest)
        requires
            self.endpoints is Manual,
        ensures
            r.endpoint@ == self.spec_token_endpoint(),
            pairs_view(r.body@) == token_body_pairs(
                self.client_credentials,
                code@,
                match redirect_uri {
                    Some(u) => Some(u@),
                    None => None,
                },
                match code_verifier {
                    Some(cv) => Some(cv@),
                    None => None,
                },
            ),
            match self.client_credentials {
                ClientCredentials::SecretBasic { client_id, client_secret } => r
                    .basic_auth matches Some(ba) && ba.0@ == form_urlencoded(client_id@) && ba.1@
                    == form_urlencoded(client_secret@),
                _ => r.basic_auth is None,
            },
    {
        let mut body: Vec<(String, String)> = Vec::new();
        body.push((
            String::from_str("grant_type"),
            String::from_str("authorization_code"),
        ));
        body.push((String::from_str("code"), code.to_owned()));
        match redirect_uri {
            Some(u) => {
                body.push((String::from_str("redirect_uri"), u.to_owned()));
            },
            None => {},
        }
        match code_verifier {
            Some(cv) => {
                body.push((String::from_str("code_verifier"), cv.to_owned()));
            },
            None => {},
        }
        body.push((
            String::from_str("client_id"),
            self.client_credentials.client_id().to_owned(),
        ));
        let basic_auth: Option<(String, String)> = match &self.client_credentials {
            ClientCredentials::SecretBasic { client_id, client_secret } => {
                Some((urlencode(client_id.as_str()), urlencode(client_secret.as_str())))
            },
            ClientCredentials::SecretPost { client_secret, .. } => {
                body.push((String::from_str("client_secret"), client_secret.clone()));
                None
            },
            ClientCredentials::NoSecret { .. } => None,
        };
        let endpoint = match &self.endpoints {
            Endpoints::Manual { token, .. } => token.clone(),
            Endpoints::Discoverable => String::new(),
        };
        proof {
            assert(pairs_view(body@) =~= token_body_pairs(
                self.client_credentials,
                code@,
                match redirect_uri {
                    Some(u) => Some(u@),
                    None => None::<Seq<char>>,
                },
                match code_verifier {
                    Some(cv) => Some(cv@),
                    None => None::<Seq<char>>,
                },
            ));
        }
        TokenRequest { endpoint, body, basic_auth }
    }
}

/// A successful token response, reduced to its plain fields.
pub struct AccessTokenResponse {
    pub access_token: String,
    pub token_type: String,
    pub expires_in: Option<u64>,
    pub refresh_token: Option<String>,
    pub scope: Option<String>,
}

/// The fate of the identity token embedded in a success response.
pub enum IdTokenOutcome {
    /// The response carried no identity token.
    Absent,
    /// An identity token was present, but no published provider keys were
    /// available to verify its signature.
    Unverifiable,
    /// An identity token was present and its signature verified; its claims
    /// as name/value pairs.
    Verified(Vec<(String, String)>),
}

/// What the transport saw when it performed the exchange.
pub enum ExchangeOutcome {
    /// The provider could not be reached: connection, timeout, or another
    /// transport-level failure.
    TransportFailure,
    /// The provider answered with a non-success status or an unparsable
    /// body.
    BadResponse,
    /// A parsed success response.
    Success { tokens: AccessTokenResponse, id_token: IdTokenOutcome },
}

/// Interpret a transport outcome: transport failures are [`Error::Network`];
/// bad responses are [`Error::Provider`]; a success response passes through
/// with its verified claims, except that a present-but-unverifiable identity
/// token fails closed as [`Error::Provider`] rather than being trusted or
/// silently dropped.
pub fn interpret_exchange_outcome(outcome: ExchangeOutcome) -> (r: Result<
    (AccessTokenResponse, Option<Vec<(String, String)>>),
    Error,
>)
    ensures
        match outcome {
            ExchangeOutcome::TransportFailure => r matches Err(e) && e == Error::Network,
            ExchangeOutcome::BadResponse => r matches Err(e) && e == Error::Provider,
            ExchangeOutcome::Success { tokens, id_token } => match id_token {
                IdTokenOutcome::Absent => (r matches Ok(p) && p.0 == tokens && p.1 is None),
                IdTokenOutcome::Unverifiable => (r matches Err(e) && e == Error::Provider),
                IdTokenOutcome::Verified(claims) => (r matches Ok(p) && p.0 == tokens && (
                p.1 matches Some(c) && c == claims)),
            },
        },
{
    match outcome {
        ExchangeOutcome::TransportFailure => Err(Error::Network),
        ExchangeOutcome::BadResponse => Err(Error::Provider),
        ExchangeOutcome::Success { tokens, id_token } => match id_token {
            IdTokenOutcome::Absent => Ok((tokens, None)),
            IdTokenOutcome::Unverifiable => Err(Error::Provider),
            IdTokenOutcome::Verified(claims) => Ok((tokens, Some(claims))),
        },
    }
}

} // verus!
