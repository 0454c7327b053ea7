use authifier::extract;
use authifier::extract_claim;
use authifier::ClaimType;

#[test]
fn present_field_is_extracted() {
    let claims = vec![(ClaimType::Email, "email_addr".to_string())];
    let raw = vec![("email_addr".to_string(), "a@b.com".to_string())];
    let out = extract(&claims, &raw);
    assert_eq!(out.len(), 1);
    assert_eq!(out[0].0, ClaimType::Email);
    assert_eq!(out[0].1, "a@b.com");
    assert_eq!(
        extract_claim(&claims, &raw, ClaimType::Email),
        Some(&"a@b.com".to_string())
    );
}

#[test]
fn absent_field_is_omitted_not_an_error() {
    let claims = vec![(ClaimType::Email, "email_addr".to_string())];
    let raw: Vec<(String, String)> = vec![("other".to_string(), "x".to_string())];
    let out = extract(&claims, &raw);
    assert!(out.is_empty());
    assert_eq!(extract_claim(&claims, &raw, ClaimType::Email), None);
}

#[test]
fn unconfigured_kind_yields_nothing() {
    let claims = vec![(ClaimType::Email, "email_addr".to_string())];
    let raw = vec![("email_addr".to_string(), "a@b.com".to_string())];
    assert_eq!(extract_claim(&claims, &raw, ClaimType::Id), None);
}

#[test]
fn values_pass_through_untouched() {
    let claims = vec![
        (ClaimType::Id, "sub".to_string()),
        (ClaimType::Username, "preferred_username".to_string()),
        (ClaimType::Picture, "picture".to_string()),
        (ClaimType::Email, "email".to_string()),
    ];
    let raw = vec![
        ("email".to_string(), 7u64),
        ("sub".to_string(), 42u64),
    ];
    let out = extract(&claims, &raw);
    assert_eq!(out.len(), 2);
    assert_eq!(out[0], (ClaimType::Id, &42u64));
    assert_eq!(out[1], (ClaimType::Email, &7u64));
}

#[test]
fn first_matching_entry_wins() {
    let claims = vec![(ClaimType::Email, "e".to_string())];
    let raw = vec![
        ("e".to_string(), "first".to_string()),
        ("e".to_string(), "second".to_string()),
    ];
    assert_eq!(
        extract_claim(&claims, &raw, ClaimType::Email),
        Some(&"first".to_string())
    );
}
