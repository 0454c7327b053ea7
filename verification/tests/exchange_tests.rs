use authifier::interpret_exchange_outcome;
use authifier::AccessTokenResponse;
use authifier::AuthProvider;
use authifier::ClientCredentials;
use authifier::Endpoints;
use authifier::Error;
use authifier::ExchangeOutcome;
use authifier::IdTokenOutcome;

fn provider(creds: ClientCredentials) -> AuthProvider {
    AuthProvider {
        id: "example".to_string(),
        name: None,
        icon: None,
        issuer: "https://issuer.example".to_string(),
        endpoints: Endpoints::Manual {
            authorization: "https://issuer.example/authorize".to_string(),
            token: "https://issuer.example/token".to_string(),
            userinfo: "https://issuer.example/userinfo".to_string(),
        },
        scopes: vec![],
        claims: vec![],
        code_challenge_methods: vec![],
        client_credentials: creds,
        auto_verify_email: false,
        account_linking: false,
        enabled: true,
    }
}

fn body_value<'a>(body: &'a [(String, String)], key: &str) -> Option<&'a str> {
    body.iter().find(|(k, _)| k == key).map(|(_, v)| v.as_str())
}

#[test]
fn client_id_uniform_across_variants() {
    let variants = [
        ClientCredentials::NoSecret { client_id: "abc".to_string() },
        ClientCredentials::SecretBasic {
            client_id: "abc".to_string(),
            client_secret: "s".to_string(),
        },
        ClientCredentials::SecretPost {
            client_id: "abc".to_string(),
            client_secret: "s".to_string(),
        },
    ];
    for v in variants {
        assert_eq!(v.client_id(), "abc");
    }
}

#[test]
fn secret_basic_request_shape() {
    let p = provider(ClientCredentials::SecretBasic {
        client_id: "c".to_string(),
        client_secret: "s".to_string(),
    });
    let r = p.build_token_request("thecode", Some("https://app.example/cb"), Some("ver"));
    assert_eq!(r.endpoint, "https://issuer.example/token");
    assert_eq!(r.basic_auth, Some(("c".to_string(), "s".to_string())));
    assert_eq!(body_value(&r.body, "client_secret"), None);
    assert_eq!(body_value(&r.body, "client_id"), Some("c"));
    assert_eq!(body_value(&r.body, "grant_type"), Some("authorization_code"));
    assert_eq!(body_value(&r.body, "code"), Some("thecode"));
    assert_eq!(body_value(&r.body, "redirect_uri"), Some("https://app.example/cb"));
    assert_eq!(body_value(&r.body, "code_verifier"), Some("ver"));
}

#[test]
fn basic_auth_credentials_are_urlencoded() {
    let p = provider(ClientCredentials::SecretBasic {
        client_id: "c l/i".to_string(),
        client_secret: "s&s".to_string(),
    });
    let r = p.build_token_request("code", None, None);
    assert_eq!(r.basic_auth, Some(("c+l%2Fi".to_string(), "s%26s".to_string())));
}

#[test]
fn secret_post_request_shape() {
    let p = provider(ClientCredentials::SecretPost {
        client_id: "c".to_string(),
        client_secret: "s".to_string(),
    });
    let r = p.build_token_request("thecode", None, None);
    assert_eq!(r.basic_auth, None);
    assert_eq!(body_value(&r.body, "client_secret"), Some("s"));
    assert_eq!(body_value(&r.body, "client_id"), Some("c"));
    assert_eq!(body_value(&r.body, "redirect_uri"), None);
    assert_eq!(body_value(&r.body, "code_verifier"), None);
}

#[test]
fn no_secret_request_shape() {
    let p = provider(ClientCredentials::NoSecret { client_id: "c".to_string() });
    let r = p.build_token_request("thecode", None, Some("ver"));
    assert_eq!(r.basic_auth, None);
    assert_eq!(body_value(&r.body, "client_secret"), None);
    assert_eq!(body_value(&r.body, "client_id"), Some("c"));
}

fn tokens() -> AccessTokenResponse {
    AccessTokenResponse {
        access_token: "at".to_string(),
        token_type: "Bearer".to_string(),
        expires_in: Some(3600),
        refresh_token: None,
        scope: None,
    }
}

#[test]
fn transport_failure_is_network_error() {
    assert!(matches!(
        interpret_exchange_outcome(ExchangeOutcome::TransportFailure),
        Err(Error::Network)
    ));
}

#[test]
fn bad_response_is_provider_error() {
    assert!(matches!(
        interpret_exchange_outcome(ExchangeOutcome::BadResponse),
        Err(Error::Provider)
    ));
}

#[test]
fn success_without_id_token_passes_through() {
    let r = interpret_exchange_outcome(ExchangeOutcome::Success {
        tokens: tokens(),
        id_token: IdTokenOutcome::Absent,
    })
    .unwrap();
    assert_eq!(r.0.access_token, "at");
    assert!(r.1.is_none());
}

#[test]
fn unverifiable_id_token_fails_closed() {
    assert!(matches!(
        interpret_exchange_outcome(ExchangeOutcome::Success {
            tokens: tokens(),
            id_token: IdTokenOutcome::Unverifiable,
        }),
        Err(Error::Provider)
    ));
}

#[test]
fn verified_id_token_claims_pass_through() {
    let claims = vec![("sub".to_string(), "1234".to_string())];
    let r = interpret_exchange_outcome(ExchangeOutcome::Success {
        tokens: tokens(),
        id_token: IdTokenOutcome::Verified(claims.clone()),
    })
    .unwrap();
    assert_eq!(r.1, Some(claims));
}
