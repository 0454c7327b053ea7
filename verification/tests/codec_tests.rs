use sha2::Digest;

use authifier::AuthValidationData;
use authifier::Error;
use authifier::Secret;

fn sample() -> AuthValidationData {
    AuthValidationData {
        ap_id: "google".to_string(),
        state: "AbCd1234AbCd1234AbCd1234AbCd1234".to_string(),
        redirect_uri: "https://app.example/cb".to_string(),
        code_verifier: Some("vvvvvvvvvvvvvvvvvvvvvvvvvvvvvvvvvvvvvvvvvvv".to_string()),
    }
}

fn key() -> Secret {
    Secret::from_string("test-signing-key".to_string())
}

#[test]
fn round_trip_with_verifier() {
    let v = sample();
    let token = v.encode(&key());
    let back = AuthValidationData::decode(&token, &key()).expect("token should decode");
    assert_eq!(back.ap_id, v.ap_id);
    assert_eq!(back.state, v.state);
    assert_eq!(back.redirect_uri, v.redirect_uri);
    assert_eq!(back.code_verifier, v.code_verifier);
}

#[test]
fn round_trip_without_verifier() {
    let mut v = sample();
    v.code_verifier = None;
    let token = v.encode(&key());
    let back = AuthValidationData::decode(&token, &key()).expect("token should decode");
    assert_eq!(back.ap_id, v.ap_id);
    assert_eq!(back.code_verifier, None);
}

#[test]
fn round_trip_unicode_fields() {
    let v = AuthValidationData {
        ap_id: "prövíder-ид".to_string(),
        state: "ステート".to_string(),
        redirect_uri: "https://app.example/cb?x=1&y=з".to_string(),
        code_verifier: None,
    };
    let token = v.encode(&key());
    let back = AuthValidationData::decode(&token, &key()).expect("token should decode");
    assert_eq!(back.ap_id, v.ap_id);
    assert_eq!(back.state, v.state);
    assert_eq!(back.redirect_uri, v.redirect_uri);
}

#[test]
fn tamper_rejection_every_position() {
    let v = sample();
    let token = v.encode(&key());
    for i in 0..token.len() {
        let mut chars: Vec<char> = token.chars().collect();
        // Replace the hex digit with a different one.
        chars[i] = if chars[i] == '0' { '1' } else { '0' };
        let tampered: String = chars.into_iter().collect();
        assert!(
            matches!(
                AuthValidationData::decode(&tampered, &key()),
                Err(Error::InvalidAuthState)
            ),
            "position {} should not survive tampering",
            i
        );
    }
}

#[test]
fn wrong_key_rejected() {
    let v = sample();
    let token = v.encode(&key());
    let other = Secret::from_string("another-signing-key".to_string());
    assert!(matches!(
        AuthValidationData::decode(&token, &other),
        Err(Error::InvalidAuthState)
    ));
}

#[test]
fn truncation_rejected() {
    let v = sample();
    let token = v.encode(&key());
    for cut in [0, 1, token.len() / 2, token.len() - 1] {
        assert!(matches!(
            AuthValidationData::decode(&token[..cut], &key()),
            Err(Error::InvalidAuthState)
        ));
    }
}

#[test]
fn garbage_rejected() {
    for bad in ["", "zz", "not hex at all", "abc", "ABCDEF0123"] {
        assert!(matches!(
            AuthValidationData::decode(bad, &key()),
            Err(Error::InvalidAuthState)
        ));
    }
}

/// Reference HMAC-SHA256, written directly against sha2.
fn hmac_ref(key: &[u8], msg: &[u8]) -> Vec<u8> {
    let mut k = if key.len() > 64 {
        sha2::Sha256::digest(key).to_vec()
    } else {
        key.to_vec()
    };
    k.resize(64, 0u8);
    let ipad: Vec<u8> = k.iter().map(|b| b ^ 0x36).collect();
    let opad: Vec<u8> = k.iter().map(|b| b ^ 0x5c).collect();
    let inner = sha2::Sha256::digest([ipad.as_slice(), msg].concat());
    sha2::Sha256::digest([opad.as_slice(), inner.as_ref()].concat()).to_vec()
}

fn block(s: &str) -> Vec<u8> {
    let mut v = (s.len() as u32).to_le_bytes().to_vec();
    v.extend_from_slice(s.as_bytes());
    v
}

#[test]
fn token_matches_reference_construction() {
    let v = sample();
    let token = v.encode(&key());

    let mut payload = Vec::new();
    payload.extend_from_slice(&block(&v.ap_id));
    payload.extend_from_slice(&block(&v.state));
    payload.extend_from_slice(&block(&v.redirect_uri));
    payload.push(1u8);
    payload.extend_from_slice(&block(v.code_verifier.as_deref().unwrap()));
    let mac = hmac_ref("test-signing-key".as_bytes(), &payload);
    payload.extend_from_slice(&mac);
    let expected: String = payload.iter().map(|b| format!("{:02x}", b)).collect();

    assert_eq!(token, expected);
}

#[test]
fn exported_hmac_matches_reference() {
    let r = authifier::hmac_sha256(b"key", b"The quick brown fox jumps over the lazy dog");
    assert_eq!(r, hmac_ref(b"key", b"The quick brown fox jumps over the lazy dog"));
    // Long keys are hashed down to one block first.
    let long_key = [0xabu8; 100];
    let r2 = authifier::hmac_sha256(&long_key, b"msg");
    assert_eq!(r2, hmac_ref(&long_key, b"msg"));
    // RFC 4231 test case 2.
    let expected = "5bdcc146bf60754e6a042426089575c75a003f089d2739839dec58b964ec3843";
    let got: String = authifier::hmac_sha256(b"Jefe", b"what do ya want for nothing?")
        .iter()
        .map(|b| format!("{:02x}", b))
        .collect();
    assert_eq!(got, expected);
}

#[test]
fn secret_shape() {
    let s = Secret::new();
    assert_eq!(s.expose().len(), 512);
    assert!(s.expose().chars().all(|c| c.is_ascii_alphanumeric()));
    let fixed = Secret::from_string("abc".to_string());
    assert_eq!(fixed.expose(), "abc");
}

#[test]
fn secret_masked_rendering_hides_material() {
    let s = Secret::from_string("abc".to_string());
    assert_eq!(s.masked(), "XXX");
}
