use request_gate::credential::{classify, is_authorized, ApiKeyMiddlewareService, Credential};

#[test]
fn documented_positive_forms_are_authorized() {
    assert!(is_authorized("sekret-1", "sekret-1"));
    assert!(is_authorized("Bearer sekret-1", "sekret-1"));
    assert!(is_authorized("bearer sekret-1", "sekret-1"));
    assert!(is_authorized("BEARER sekret-1", "sekret-1"));
    assert!(is_authorized("BeArEr sekret-1", "sekret-1"));
}

#[test]
fn an_empty_expected_secret_authorizes_nothing() {
    assert!(!is_authorized("", ""));
    assert!(!is_authorized("anything", ""));
    assert!(!is_authorized("Bearer ", ""));
}

#[test]
fn wrong_schemes_and_extra_tokens_are_rejected() {
    assert!(!is_authorized("Basic sekret-1", "sekret-1"));
    assert!(!is_authorized("Token sekret-1", "sekret-1"));
    assert!(!is_authorized("bearer sekret-1 extra", "sekret-1"));
    assert!(!is_authorized("Bearer sekret-1 extra", "sekret-1"));
    assert!(!is_authorized("bearer", "sekret-1"));
    assert!(!is_authorized("sekret-2", "sekret-1"));
    assert!(!is_authorized("Bearer sekret-2", "sekret-1"));
}

#[test]
fn bearer_prefix_remainder_is_trimmed() {
    assert!(is_authorized("Bearer  sekret-1", "sekret-1"));
    assert!(is_authorized("bearer \tsekret-1 ", "sekret-1"));
}

#[test]
fn classification_follows_the_header_shape() {
    assert_eq!(classify(None, "k-123"), Credential::Absent);
    assert_eq!(classify(Some("k-123"), "k-123"), Credential::PlainMatch);
    assert_eq!(classify(Some("  k-123  "), "k-123"), Credential::PlainMatch);
    assert_eq!(classify(Some("Bearer k-123"), "k-123"), Credential::BearerMatch);
    assert_eq!(classify(Some("BEARER k-123"), "k-123"), Credential::BearerMatch);
    assert_eq!(classify(Some("Basic k-123"), "k-123"), Credential::SchemeMismatch);
    assert_eq!(classify(Some("Bearer nope"), "k-123"), Credential::ValueMismatch);
    assert_eq!(classify(Some("k-999"), "k-123"), Credential::ValueMismatch);
    assert_eq!(classify(Some("k-123"), ""), Credential::ValueMismatch);
}

#[test]
fn middleware_screens_the_raw_header() {
    let svc = ApiKeyMiddlewareService::new((), String::from("k-123"));
    assert!(svc.authorizes(Some("k-123")));
    assert!(svc.authorizes(Some("  Bearer k-123  ")));
    assert!(!svc.authorizes(Some("Bearer k-124")));
    assert!(!svc.authorizes(None));

    // An unconfigured key fails closed, even against an empty header.
    let unconfigured = ApiKeyMiddlewareService::new((), String::new());
    assert!(!unconfigured.authorizes(Some("")));
    assert!(!unconfigured.authorizes(None));
}
