use request_gate::errors::AppError;
use request_gate::sso_validator::validate_sso_params;
use request_gate::user_validator::{
    validate_email, validate_no_xss, validate_password, validate_phone, validate_username,
};

#[test]
fn test_validate_username() {
    assert!(validate_username("validuser").is_ok());
    assert!(validate_username("ab").is_err());
    assert!(validate_username("").is_err());
    assert!(validate_username("   ").is_err());
}

#[test]
fn test_validate_email() {
    assert!(validate_email("test@example.com").is_ok());
    assert!(validate_email("invalid").is_err());
    assert!(validate_email("test@").is_err());
    assert!(validate_email("@example.com").is_err());
}

#[test]
fn test_validate_password() {
    assert!(validate_password("password123").is_ok());
    assert!(validate_password("12345").is_err());
    assert!(validate_password(&"a".repeat(129)).is_err());
}

#[test]
fn test_valid_params() {
    let state = Some("validState123".to_string());
    let nonce = Some("validNonce456".to_string());
    let redirect_uri = Some("https://example.com/callback".to_string());

    assert!(validate_sso_params(&state, &nonce, &redirect_uri).is_ok());
}

#[test]
fn test_empty_params() {
    assert!(validate_sso_params(&None, &None, &None).is_ok());
}

#[test]
fn test_state_too_long() {
    let state = Some("a".repeat(129));
    let result = validate_sso_params(&state, &None, &None);
    assert!(matches!(result, Err(AppError::ValidationError(..))));
}

#[test]
fn test_state_invalid_chars() {
    let state = Some("invalid-state!".to_string());
    let result = validate_sso_params(&state, &None, &None);
    assert!(matches!(result, Err(AppError::ValidationError(..))));
}

#[test]
fn test_nonce_too_long() {
    let nonce = Some("a".repeat(129));
    let result = validate_sso_params(&None, &nonce, &None);
    assert!(matches!(result, Err(AppError::ValidationError(..))));
}

#[test]
fn test_nonce_invalid_chars() {
    let nonce = Some("invalid_nonce".to_string());
    let result = validate_sso_params(&None, &nonce, &None);
    assert!(matches!(result, Err(AppError::ValidationError(..))));
}

#[test]
fn test_redirect_uri_too_long() {
    let uri = Some("https://example.com/".to_string() + &"a".repeat(250));
    let result = validate_sso_params(&None, &None, &uri);
    assert!(matches!(result, Err(AppError::ValidationError(..))));
}

#[test]
fn test_redirect_uri_injection() {
    let uri = Some("https://example.com/<script>".to_string());
    let result = validate_sso_params(&None, &None, &uri);
    assert!(matches!(result, Err(AppError::ValidationError(..))));
}

#[test]
fn username_messages_follow_the_failing_check() {
    match validate_username("  ") {
        Err(AppError::ValidationError(m)) => assert_eq!(m, "Username cannot be empty"),
        other => panic!("expected a validation error, got {:?}", other),
    }
    match validate_username(" ab ") {
        Err(AppError::ValidationError(m)) => {
            assert_eq!(m, "Username must be at least 3 characters")
        }
        other => panic!("expected a validation error, got {:?}", other),
    }
    match validate_username(&"a".repeat(51)) {
        Err(AppError::ValidationError(m)) => {
            assert_eq!(m, "Username must be at most 50 characters")
        }
        other => panic!("expected a validation error, got {:?}", other),
    }
    match validate_username("user!name") {
        Err(AppError::ValidationError(m)) => assert_eq!(m, "Validation Error"),
        other => panic!("expected a validation error, got {:?}", other),
    }
}

#[test]
fn username_is_trimmed_before_the_checks() {
    assert!(validate_username("  validuser  ").is_ok());
    assert!(validate_username("user_name-7").is_ok());
}

#[test]
fn reserved_usernames_conflict_whatever_their_case() {
    for name in ["admin", "ADMIN", "Root", "system", "superuser", "administrator", "god",
        "null", "undefined", "test", "DEMO"]
    {
        let result = validate_username(name);
        assert!(
            matches!(result, Err(AppError::Conflict(..))),
            "{} should be reserved, got {:?}",
            name,
            result
        );
    }
}

#[test]
fn email_needs_text_before_the_at_and_a_later_dot() {
    assert!(validate_email("a@b.c").is_ok());
    assert!(validate_email("  padded@example.com  ").is_ok());
    assert!(validate_email("dot.before@at").is_err());
    assert!(validate_email("no-dot@com").is_err());
}

#[test]
fn password_length_bounds_are_exact() {
    assert!(validate_password("12345").is_err());
    assert!(validate_password("123456").is_ok());
    assert!(validate_password(&"a".repeat(128)).is_ok());
    match validate_password("123") {
        Err(AppError::ValidationError(m)) => {
            assert_eq!(m, "Validation Error (Password too weak)")
        }
        other => panic!("expected a validation error, got {:?}", other),
    }
}

#[test]
fn xss_screen_rejects_brackets_and_javascript_scheme() {
    assert!(validate_no_xss("plain text").is_ok());
    assert!(validate_no_xss("a<b").is_err());
    assert!(validate_no_xss("a>b").is_err());
    assert!(validate_no_xss("javascript:alert(1)").is_err());
    assert!(validate_no_xss("javascriptish").is_ok());
}

#[test]
fn phone_needs_plus_then_digits_ten_to_fifteen_long() {
    assert!(validate_phone("+123456789").is_ok());
    assert!(validate_phone("+12345678901234").is_ok());
    assert!(validate_phone("123456789").is_err());
    assert!(validate_phone("+12345678").is_err());
    assert!(validate_phone("+123456789012345").is_err());
    assert!(validate_phone("+12345a789").is_err());
}
