//! Data model: provider configuration, per-flow validation state, and the
//! process-wide signing secret.

use vstd::prelude::*;
use vstd::string::StrSliceExecFns;

use crate::trusted::random_alphanumeric;
use crate::trusted::string_push;

verus! {

/// Code-challenge methods a provider may announce support for.
///
/// Only `S256` challenges are ever produced by this crate; `Plain` is
/// recognized in configuration so that a provider record can be loaded and
/// rejected with a clear error instead of being misread.
#[derive(Clone, Copy, Debug, PartialEq, Eq, Structural)]
pub enum CodeChallengeMethod {
    Plain,
    S256,
}

/// The canonical identity fields a provider's claims can be mapped onto.
#[derive(Clone, Copy, Debug, PartialEq, Eq, Hash, Structural)]
pub enum ClaimType {
    Id,
    Username,
    Picture,
    Email,
}

/// How this service authenticates itself to a provider's token endpoint.
#[derive(Clone, Debug)]
pub enum ClientCredentials {
    /// A public client: only a client id, no secret anywhere.
    NoSecret { client_id: String },
    /// Confidential client; the secret travels as an HTTP Basic header.
    SecretBasic { client_id: String, client_secret: String },
    /// Confidential client; the secret travels in the form body.
    SecretPost { client_id: String, client_secret: String },
}

impl ClientCredentials {
    /// The client id, uniform across all three variants.
    pub open spec fn spec_client_id(&self) -> Seq<char> {
        match self {
            ClientCredentials::NoSecret { client_id } => client_id@,
            ClientCredentials::SecretBasic { client_id, .. } => client_id@,
            ClientCredentials::SecretPost { client_id, .. } => client_id@,
        }
    }

    /// Uniform accessor for the client id, regardless of variant.
    pub fn client_id(&self) -> (r: &str)
        ensures
            r@ == self.spec_client_id(),
    {
        match self {
            ClientCredentials::NoSecret { client_id } => client_id.as_str(),
            ClientCredentials::SecretBasic { client_id, .. } => client_id.as_str(),
            ClientCredentials::SecretPost { client_id, .. } => client_id.as_str(),
        }
    }
}

/// How a provider's endpoints are obtained: resolved from issuer metadata,
/// or configured explicitly.
#[derive(Clone, Debug)]
pub enum Endpoints {
    Discoverable,
    Manual { authorization: String, token: String, userinfo: String },
}

/// Configuration of one external identity provider.
#[derive(Clone, Debug)]
pub struct AuthProvider {
    /// Stable unique identifier; the registry's lookup and dedup key.
    pub id: String,
    /// Optional human-readable display name.
    pub name: Option<String>,
    /// Optional icon URI.
    pub icon: Option<String>,
    /// Issuer URI.
    pub issuer: String,
    /// Endpoint resolution for this provider.
    pub endpoints: Endpoints,
    /// Scopes requested at authorization, in order.
    pub scopes: Vec<String>,
    /// Mapping from canonical claim kind to this provider's field name.
    pub claims: Vec<(ClaimType, String)>,
    /// Code-challenge methods the provider announces.
    pub code_challenge_methods: Vec<CodeChallengeMethod>,
    /// How to authenticate against the token endpoint.
    pub client_credentials: ClientCredentials,
    /// Mark e-mail addresses from this provider as verified.
    pub auto_verify_email: bool,
    /// Allow linking provider identities to existing accounts.
    pub account_linking: bool,
    /// Whether the provider is currently offered to end users.
    pub enabled: bool,
}

impl AuthProvider {
    /// Whether the provider supports S256 code challenges.
    pub open spec fn spec_supports_s256(&self) -> bool {
        self.code_challenge_methods@.contains(CodeChallengeMethod::S256)
    }
}

/// Mathematical image of one in-flight authorization attempt.
#[verifier::ext_equal]
pub struct AuthDataView {
    pub ap_id: Seq<char>,
    pub state: Seq<char>,
    pub redirect_uri: Seq<char>,
    pub code_verifier: Option<Seq<char>>,
}

/// Transient state of one in-flight authorization attempt. Never stored
/// server-side: its whole lifetime is spent inside the signed state token.
#[derive(Clone, Debug)]
pub struct AuthValidationData {
    /// Which provider the attempt runs against.
    pub ap_id: String,
    /// Random correlation string tying the callback to the request.
    pub state: String,
    /// Where the end user is sent after authorization.
    pub redirect_uri: String,
    /// PKCE verifier, present exactly when an S256 challenge was issued.
    pub code_verifier: Option<String>,
}

impl View for AuthValidationData {
    type V = AuthDataView;

    open spec fn view(&self) -> AuthDataView {
        AuthDataView {
            ap_id: self.ap_id@,
            state: self.state@,
            redirect_uri: self.redirect_uri@,
            code_verifier: match self.code_verifier {
                Some(cv) => Some(cv@),
                None => None,
            },
        }
    }
}

/// Whether a character is in the alphanumeric ASCII range.
pub open spec fn is_alphanumeric_char(c: char) -> bool {
    ('a' <= c && c <= 'z') || ('A' <= c && c <= 'Z') || ('0' <= c && c <= '9')
}

/// Process-wide signing secret for state tokens, loaded once at startup
/// and read-only thereafter.
#[derive(Clone)]
pub struct Secret(String);

impl Secret {
    /// A fresh secret of 512 random alphanumeric characters.
    pub fn new() -> (r: Self)
        ensures
            r@.len() == 512,
            forall|i: int| 0 <= i < r@.len() ==> is_alphanumeric_char(#[trigger] r@[i]),
    {
        Secret(random_alphanumeric(512))
    }

    /// Read access to the secret material.
    pub fn expose(&self) -> (r: &str)
        ensures
            r@ == self@,
    {
        self.0.as_str()
    }

    /// Build a secret from caller-supplied key material.
    pub fn from_string(key: String) -> (r: Self)
        ensures
            r@ == key@,
    {
        Secret(key)
    }

    /// A rendering safe to log: every character of the secret replaced by
    /// `X`, revealing only its length.
    pub fn masked(&self) -> (r: String)
        ensures
            r@ == Seq::new(self@.len(), |_i: int| 'X'),
    {
        let n = self.0.as_str().unicode_len();
        let mut out = String::new();
        let mut i: usize = 0;
        while i < n
            invariant
                i <= n,
                out@ =~= Seq::new(i as nat, |_k: int| 'X'),
            decreases n - i,
        {
            string_push(&mut out, 'X');
            proof {
                assert(out@ =~= Seq::new((i + 1) as nat, |_k: int| 'X'));
            }
            i = i + 1;
        }
        out
    }
}

impl View for Secret {
    type V = Seq<char>;

    closed spec fn view(&self) -> Seq<char> {
        self.0@
    }
}

impl Default for Secret {
    /// A fresh random secret, as [`Secret::new`] draws it.
    fn default() -> (r: Self)
        ensures
            r@.len() == 512,
    {
        Secret::new()
    }
}

} // verus!
