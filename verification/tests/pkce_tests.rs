use authifier::generate_pkce;
use base64::Engine;
use sha2::Digest;

#[test]
fn verifier_is_43_chars_of_32_random_bytes() {
    let (verifier, _) = generate_pkce();
    assert_eq!(verifier.len(), 43);
    let raw = base64::engine::general_purpose::URL_SAFE_NO_PAD
        .decode(verifier.as_bytes())
        .expect("verifier should be base64url without padding");
    assert_eq!(raw.len(), 32);
}

#[test]
fn challenge_is_digest_of_verifier_string() {
    let (verifier, challenge) = generate_pkce();
    let digest = sha2::Sha256::digest(verifier.as_bytes());
    let expected = base64::engine::general_purpose::URL_SAFE_NO_PAD.encode(digest);
    assert_eq!(challenge, expected);
}

#[test]
fn fresh_randomness_each_call() {
    let (v1, c1) = generate_pkce();
    let (v2, c2) = generate_pkce();
    assert_ne!(v1, v2);
    assert_ne!(c1, c2);
}
