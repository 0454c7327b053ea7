use authifier::AuthProvider;
use authifier::ClientCredentials;
use authifier::CodeChallengeMethod;
use authifier::ConfigError;
use authifier::Endpoints;
use authifier::Registry;

fn provider(id: &str) -> AuthProvider {
    AuthProvider {
        id: id.to_string(),
        name: None,
        icon: None,
        issuer: "https://issuer.example".to_string(),
        endpoints: Endpoints::Manual {
            authorization: "https://issuer.example/authorize".to_string(),
            token: "https://issuer.example/token".to_string(),
            userinfo: "https://issuer.example/userinfo".to_string(),
        },
        scopes: vec!["openid".to_string()],
        claims: vec![],
        code_challenge_methods: vec![CodeChallengeMethod::S256],
        client_credentials: ClientCredentials::NoSecret { client_id: "c".to_string() },
        auto_verify_email: false,
        account_linking: false,
        enabled: true,
    }
}

#[test]
fn duplicate_id_rejected() {
    let r = Registry::load(vec![provider("same"), provider("same")], false);
    assert!(matches!(r, Err(ConfigError::DuplicateId)));
}

#[test]
fn load_and_lookup() {
    let reg = Registry::load(vec![provider("a"), provider("b")], false).unwrap();
    assert_eq!(reg.lookup("a").unwrap().id, "a");
    assert_eq!(reg.lookup("b").unwrap().id, "b");
    assert!(reg.lookup("c").is_none());
    assert_eq!(reg.providers().len(), 2);
}

#[test]
fn empty_configuration_loads() {
    let reg = Registry::load(vec![], false).unwrap();
    assert!(reg.lookup("anything").is_none());
}

#[test]
fn malformed_uri_rejected() {
    let mut p = provider("a");
    p.issuer = "not a uri".to_string();
    assert!(matches!(
        Registry::load(vec![p], false),
        Err(ConfigError::Malformed)
    ));
    let mut q = provider("b");
    q.icon = Some("::??::".to_string());
    assert!(matches!(
        Registry::load(vec![q], false),
        Err(ConfigError::Malformed)
    ));
}

#[test]
fn discovery_needs_resolver() {
    let mut p = provider("a");
    p.endpoints = Endpoints::Discoverable;
    assert!(matches!(
        Registry::load(vec![p.clone()], false),
        Err(ConfigError::UnsupportedDiscovery)
    ));
    assert!(Registry::load(vec![p], true).is_ok());
}

#[test]
fn plain_only_challenge_rejected() {
    let mut p = provider("a");
    p.code_challenge_methods = vec![CodeChallengeMethod::Plain];
    assert!(matches!(
        Registry::load(vec![p], false),
        Err(ConfigError::UnsupportedChallengeMethod)
    ));
    let mut q = provider("b");
    q.code_challenge_methods = vec![CodeChallengeMethod::Plain, CodeChallengeMethod::S256];
    assert!(Registry::load(vec![q], false).is_ok());
    let mut r = provider("c");
    r.code_challenge_methods = vec![];
    assert!(Registry::load(vec![r], false).is_ok());
}
