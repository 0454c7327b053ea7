use authifier::AuthProvider;
use authifier::ClaimType;
use authifier::ClientCredentials;
use authifier::CodeChallengeMethod;
use authifier::Endpoints;

fn provider(methods: Vec<CodeChallengeMethod>) -> AuthProvider {
    AuthProvider {
        id: "example".to_string(),
        name: Some("Example".to_string()),
        icon: None,
        issuer: "https://issuer.example".to_string(),
        endpoints: Endpoints::Manual {
            authorization: "https://issuer.example/authorize".to_string(),
            token: "https://issuer.example/token".to_string(),
            userinfo: "https://issuer.example/userinfo".to_string(),
        },
        scopes: vec!["openid".to_string(), "email".to_string()],
        claims: vec![(ClaimType::Email, "email".to_string())],
        code_challenge_methods: methods,
        client_credentials: ClientCredentials::NoSecret {
            client_id: "abc".to_string(),
        },
        auto_verify_email: false,
        account_linking: true,
        enabled: true,
    }
}

#[test]
fn url_with_s256_provider() {
    let p = provider(vec![CodeChallengeMethod::S256]);
    let (url, data) = p.create_authorization_uri("https://app.example/cb");
    assert!(url.starts_with("https://issuer.example/authorize?"));
    assert!(url.contains("client_id=abc"));
    assert!(url.contains("response_type=code"));
    assert!(url.contains("redirect_uri=https%3A%2F%2Fapp.example%2Fcb"));
    assert!(url.contains("scope=openid%2Cemail"));
    assert!(url.contains(&format!("state={}", data.state)));
    assert!(url.contains("code_challenge="));
    assert!(url.contains("code_challenge_method=S256"));
    assert_eq!(data.state.len(), 32);
    assert_eq!(data.ap_id, "example");
    assert_eq!(data.redirect_uri, "https://app.example/cb");
    let verifier = data.code_verifier.expect("S256 provider should get a verifier");
    assert_eq!(verifier.len(), 43);
}

#[test]
fn url_without_pkce_support() {
    let p = provider(vec![]);
    let (url, data) = p.create_authorization_uri("https://app.example/cb");
    assert!(!url.contains("code_challenge"));
    assert!(!url.contains("code_challenge_method"));
    assert_eq!(data.code_verifier, None);
    assert!(data.state.len() > 0);
}

#[test]
fn url_with_plain_and_s256() {
    let p = provider(vec![CodeChallengeMethod::Plain, CodeChallengeMethod::S256]);
    let (url, data) = p.create_authorization_uri("https://app.example/cb");
    // Only S256 is ever produced, never a plain challenge.
    assert!(url.contains("code_challenge_method=S256"));
    assert!(data.code_verifier.is_some());
}

#[test]
fn state_is_fresh_per_flow() {
    let p = provider(vec![]);
    let (_, d1) = p.create_authorization_uri("https://app.example/cb");
    let (_, d2) = p.create_authorization_uri("https://app.example/cb");
    assert_ne!(d1.state, d2.state);
}

#[test]
fn urlencode_matches_form_urlencoded_crate() {
    for s in ["a b&c=d", "héllo/wörld", "plain.Text-123*_", "100%"] {
        let expected: String = form_urlencoded::byte_serialize(s.as_bytes()).collect();
        assert_eq!(authifier::urlencode(s), expected);
    }
    assert_eq!(authifier::urlencode("a b&c=d"), "a+b%26c%3Dd");
}

#[test]
fn encode_query_shape() {
    let pairs = vec![
        ("a".to_string(), "1 2".to_string()),
        ("b&".to_string(), "x".to_string()),
    ];
    assert_eq!(authifier::encode_query(&pairs), "a=1+2&b%26=x");
}
