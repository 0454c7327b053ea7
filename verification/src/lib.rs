//! OAuth2 / OIDC identity-provider integration layer.
//!
//! The crate covers the pure protocol core of an external-login flow:
//! a deduplicated provider registry, PKCE verifier/challenge generation,
//! a signed stateless authorization-state token, authorization-URL
//! construction, token-exchange request construction and outcome
//! interpretation, and mapping provider claim payloads onto canonical
//! identity fields.

use vstd::prelude::*;

pub mod authorize;
pub mod claims;
pub mod codec;
pub mod exchange;
pub mod models;
pub mod pkce;
pub mod registry;
pub mod trusted;
pub mod urlenc;
mod util;

pub use claims::extract;
pub use claims::extract_claim;
pub use codec::hmac_sha256;
pub use exchange::interpret_exchange_outcome;
pub use exchange::AccessTokenResponse;
pub use exchange::ExchangeOutcome;
pub use exchange::IdTokenOutcome;
pub use exchange::TokenRequest;
pub use pkce::generate_pkce;
pub use registry::Registry;
pub use urlenc::encode_query;
pub use urlenc::urlencode;

pub use models::AuthProvider;
pub use models::AuthValidationData;
pub use models::ClaimType;
pub use models::ClientCredentials;
pub use models::CodeChallengeMethod;
pub use models::Endpoints;
pub use models::Secret;

verus! {

/// Failures of a running authorization flow.
#[derive(Clone, Copy, Debug, PartialEq, Eq, Structural)]
pub enum Error {
    /// The state token was missing, truncated, tampered with, or signed
    /// with a different key.
    InvalidAuthState,
    /// The provider could not be reached at the transport level.
    Network,
    /// The provider answered, but with a non-success status, an
    /// unparsable body, or an identity token that could not be verified.
    Provider,
}

/// Failures while loading provider configuration; all are fatal at startup.
#[derive(Clone, Copy, Debug, PartialEq, Eq, Structural)]
pub enum ConfigError {
    /// Two provider records share the same `id`.
    DuplicateId,
    /// A configured URI does not parse.
    Malformed,
    /// A provider requires endpoint discovery but no resolver is available.
    UnsupportedDiscovery,
    /// A provider offers only code-challenge methods this crate refuses to
    /// produce (`Plain` is recognized in configuration but never generated;
    /// a provider offering `Plain` alone is rejected rather than silently
    /// downgrading to an unhashed challenge).
    UnsupportedChallengeMethod,
}

} // verus!
